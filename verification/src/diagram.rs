//! The text of a state diagram and the machine that it describes. A line
//! `source --> target : label` is a transition; any other line says nothing.
//! `[*]` names the state from which a run starts and in which it ends.

use vstd::prelude::*;
use crate::interpreter::State;
use crate::interpreter::StateMachine;
use crate::interpreter::Transition;
use crate::lines::lines;
use crate::lines::split_lines;
use crate::lines::views;
use crate::text::find_from;
use crate::text::first_occurrence;
use crate::text::lemma_first_occurrence;
use crate::text::from_chars;
use crate::text::occurs_at;
use crate::text::slice;
use crate::text::to_chars;
use crate::text::trim;
use crate::text::trimmed;
use crate::text_map::same_text;

verus! {

/// The name of the state from which a run starts and in which it ends.
pub const MARKER: &'static str = "[*]";

/// A transition as plain texts: the names of its source and its target, and
/// its label.
pub ghost struct Edge {
    pub source: Seq<char>,
    pub target: Seq<char>,
    pub label: Seq<char>,
}

/// The transition that `line` writes: the source before the first arrow,
/// then the target, and after the first colon behind the arrow the label;
/// each without the white space around it.
pub open spec fn edge_of(line: Seq<char>) -> Option<Edge> {
    match first_occurrence(line, "-->"@, 0) {
        None => None,
        Some(arrow) => {
            let rest = line.skip(arrow + 3);
            match first_occurrence(rest, ":"@, 0) {
                Some(colon) => Some(
                    Edge {
                        source: trim(line.take(arrow)),
                        target: trim(rest.take(colon)),
                        label: trim(rest.skip(colon + 1)),
                    },
                ),
                None => Some(
                    Edge { source: trim(line.take(arrow)), target: trim(rest), label: Seq::empty() },
                ),
            }
        },
    }
}

/// A state as plain texts: its name, and the target and the label of each
/// of its transitions.
pub type StateView = (Seq<char>, Seq<(Seq<char>, Seq<char>)>);

/// The states of `machine` as plain texts.
pub open spec fn machine_view(machine: StateMachine) -> Seq<StateView> {
    Seq::new(
        machine.states@.len(),
        |i: int|
            (
                machine.states@[i].name@,
                Seq::new(
                    machine.states@[i].transitions@.len(),
                    |j: int|
                        (
                            machine.states@[i].transitions@[j].target@,
                            machine.states@[i].transitions@[j].label@,
                        ),
                ),
            ),
    )
}

/// The index of the first of the first `k` of `states` whose name is `name`.
pub open spec fn state_index(states: Seq<StateView>, name: Seq<char>, k: int) -> Option<int>
    decreases k,
{
    if k <= 0 {
        None
    } else {
        match state_index(states, name, k - 1) {
            Some(i) => Some(i),
            None => if states[k - 1].0 == name {
                Some(k - 1)
            } else {
                None
            },
        }
    }
}

/// `states` with a state of name `name`: as they are where there is one,
/// else with one more, which has no transition.
pub open spec fn with_state(states: Seq<StateView>, name: Seq<char>) -> Seq<StateView> {
    if state_index(states, name, states.len() as int) is Some {
        states
    } else {
        states.push((name, Seq::empty()))
    }
}

/// `states` with the transition `edge`: its source and its target are
/// states, and the source has the transition as its last.
pub open spec fn with_edge(states: Seq<StateView>, edge: Edge) -> Seq<StateView> {
    let sourced = with_state(states, edge.source);
    match state_index(sourced, edge.source, sourced.len() as int) {
        Some(i) => with_state(
            sourced.update(i, (edge.source, sourced[i].1.push((edge.target, edge.label)))),
            edge.target,
        ),
        None => sourced,
    }
}

/// The states that the first `n` of the lines `all` describe.
pub open spec fn states_of(all: Seq<Seq<char>>, n: int) -> Seq<StateView>
    decreases n,
{
    if n <= 0 {
        Seq::empty()
    } else {
        let before = states_of(all, n - 1);
        match edge_of(all[n - 1]) {
            Some(edge) => with_edge(before, edge),
            None => before,
        }
    }
}

/// The states that the diagram `text` describes.
pub open spec fn diagram_states(text: Seq<char>) -> Seq<StateView> {
    states_of(lines(text), lines(text).len() as int)
}

/// The three parts of the transition that `line` writes.
pub fn read_edge(line: &str) -> (r: Option<(String, String, String)>)
    ensures
        match r {
            Some(parts) => edge_of(line@) == Some(
                Edge { source: parts.0@, target: parts.1@, label: parts.2@ },
            ),
            None => edge_of(line@) is None,
        },
{
    proof {
        reveal_strlit("-->");
        reveal_strlit(":");
    }
    let chars = to_chars(line);
    let found = find_from(&chars, &to_chars("-->"), 0);
    proof {
        lemma_first_occurrence(
            chars@,
            "-->"@,
            0,
            match found {
                Some(i) => Some(i as int),
                None => None,
            },
        );
    }
    match found {
        None => None,
        Some(arrow) => {
            assert("-->"@.len() == 3);
            assert(occurs_at(chars@, "-->"@, arrow as int));
            let head = slice(&chars, 0, arrow);
            assert(head@ == chars@.take(arrow as int));
            let n = chars.len();
            let rest = slice(&chars, arrow + 3, n);
            assert(rest@ == chars@.skip(arrow + 3));
            let split = find_from(&rest, &to_chars(":"), 0);
            proof {
                lemma_first_occurrence(
                    rest@,
                    ":"@,
                    0,
                    match split {
                        Some(i) => Some(i as int),
                        None => None,
                    },
                );
            }
            let source = from_chars(&trimmed(&head));
            match split {
                Some(colon) => {
                    assert(":"@.len() == 1);
                    assert(occurs_at(rest@, ":"@, colon as int));
                    let middle = slice(&rest, 0, colon);
                    assert(middle@ == rest@.take(colon as int));
                    let m = rest.len();
                    let tail = slice(&rest, colon + 1, m);
                    assert(tail@ == rest@.skip(colon + 1));
                    Some((source, from_chars(&trimmed(&middle)), from_chars(&trimmed(&tail))))
                },
                None => Some((source, from_chars(&trimmed(&rest)), String::new())),
            }
        },
    }
}

/// Where a state has the name, one is found.
proof fn lemma_state_index_found(states: Seq<StateView>, name: Seq<char>, i: int, n: int)
    requires
        0 <= i < n <= states.len(),
        states[i].0 == name,
    ensures
        state_index(states, name, n) is Some,
    decreases n,
{
    if n > i + 1 {
        lemma_state_index_found(states, name, i, n - 1);
    }
}

/// The state that is found has the name, and none before it has.
proof fn lemma_state_index_is_first(states: Seq<StateView>, name: Seq<char>, n: int)
    requires
        n <= states.len(),
    ensures
        match state_index(states, name, n) {
            Some(i) => 0 <= i < n && states[i].0 == name && forall|j: int|
                0 <= j < i ==> (#[trigger] states[j]).0 != name,
            None => forall|j: int| 0 <= j < n ==> (#[trigger] states[j]).0 != name,
        },
    decreases n,
{
    if n > 0 {
        lemma_state_index_is_first(states, name, n - 1);
    }
}

/// The index of the first state of `machine` whose name is `name`.
fn index_of_state(machine: &StateMachine, name: &str) -> (r: Option<usize>)
    ensures
        match r {
            Some(i) => i < machine.states@.len() && state_index(
                machine_view(*machine),
                name@,
                machine.states@.len() as int,
            ) == Some(i as int),
            None => state_index(machine_view(*machine), name@, machine.states@.len() as int)
                is None,
        },
{
    let ghost states = machine_view(*machine);
    let mut k: usize = 0;
    while k < machine.states.len()
        invariant
            k <= machine.states.len(),
            states == machine_view(*machine),
            forall|j: int| 0 <= j < k ==> (#[trigger] states[j]).0 != name@,
        decreases machine.states.len() - k,
    {
        if same_text(machine.states[k].name.as_str(), name) {
            proof {
                assert(states[k as int].0 == name@);
                lemma_state_index_is_first(states, name@, machine.states@.len() as int);
                lemma_state_index_found(states, name@, k as int, machine.states@.len() as int);
            }
            return Some(k);
        }
        k += 1;
    }
    proof {
        lemma_state_index_is_first(states, name@, machine.states@.len() as int);
    }
    None
}

/// Gives `machine` a state of name `name`, where it has none, and says where
/// the state of that name stands.
fn ensure_state(machine: &mut StateMachine, name: &str) -> (r: usize)
    ensures
        machine_view(*final(machine)) == with_state(machine_view(*old(machine)), name@),
        r < final(machine).states@.len(),
        state_index(
            machine_view(*final(machine)),
            name@,
            final(machine).states@.len() as int,
        ) == Some(r as int),
{
    let ghost before = machine_view(*machine);
    match index_of_state(machine, name) {
        Some(i) => i,
        None => {
            machine.states.push(State { name: name.to_owned(), transitions: Vec::new() });
            let ghost after = machine_view(*machine);
            assert(after =~~= before.push((name@, Seq::empty())));
            proof {
                lemma_state_index_is_first(before, name@, before.len() as int);
                lemma_state_index_is_first(after, name@, after.len() as int);
                lemma_state_index_found(after, name@, before.len() as int, after.len() as int);
            }
            machine.states.len() - 1
        },
    }
}

/// The machine that the diagram `text` describes. Every state that a
/// transition leads to is a state of the machine.
pub fn parse_diagram(text: &str) -> (r: StateMachine)
    ensures
        machine_view(r) == diagram_states(text@),
        r.resolvable(),
{
    let chars = to_chars(text);
    let all = split_lines(&chars);
    let mut machine = StateMachine { states: Vec::new() };
    assert(machine_view(machine) =~= Seq::<StateView>::empty());
    let mut i: usize = 0;
    while i < all.len()
        invariant
            i <= all.len(),
            views(all@) == lines(text@),
            machine_view(machine) == states_of(lines(text@), i as int),
            targets_exist(machine_view(machine)),
        decreases all.len() - i,
    {
        assert(views(all@)[i as int] == all@[i as int]@);
        let line = from_chars(&all[i]);
        match read_edge(line.as_str()) {
            Some(parts) => {
                let ghost before = machine_view(machine);
                let at = ensure_state(&mut machine, parts.0.as_str());
                let ghost sourced = machine_view(machine);
                let ghost edge = Edge { source: parts.0@, target: parts.1@, label: parts.2@ };
                let target = parts.1.clone();
                write_transition(&mut machine, at, target, parts.2);
                let ghost linked = machine_view(machine);
                assert(linked == sourced.update(
                    at as int,
                    (edge.source, sourced[at as int].1.push((edge.target, edge.label))),
                )) by {
                    lemma_state_index_is_first(sourced, edge.source, sourced.len() as int);
                }
                let _ = ensure_state(&mut machine, parts.1.as_str());
                proof {
                    lemma_edge_keeps_targets(before, edge);
                }
            },
            None => {},
        }
        i += 1;
    }
    proof {
        lemma_resolvable(machine);
    }
    machine
}

/// Adds to state `at` of `machine` a transition to `target` with `label`.
fn write_transition(machine: &mut StateMachine, at: usize, target: String, label: String)
    requires
        at < old(machine).states@.len(),
    ensures
        final(machine).states@.len() == old(machine).states@.len(),
        machine_view(*final(machine)) == machine_view(*old(machine)).update(
            at as int,
            (
                machine_view(*old(machine))[at as int].0,
                machine_view(*old(machine))[at as int].1.push((target@, label@)),
            ),
        ),
{
    let ghost before = machine_view(*machine);
    machine.states[at].transitions.push(Transition { target, label });
    assert(machine_view(*machine) =~= before.update(
        at as int,
        (before[at as int].0, before[at as int].1.push((target@, label@))),
    )) by {
        assert(machine_view(*machine)[at as int].1 =~= before[at as int].1.push(
            (target@, label@),
        ));
    }
}

/// Whether one of `states` has the name `name`.
pub open spec fn has_name(states: Seq<StateView>, name: Seq<char>) -> bool {
    exists|c: int| 0 <= c < states.len() && (#[trigger] states[c]).0 == name
}

/// Whether every transition of `states` leads to one of them.
pub open spec fn targets_exist(states: Seq<StateView>) -> bool {
    forall|a: int, b: int|
        0 <= a < states.len() && 0 <= b < states[a].1.len() ==> has_name(
            states,
            (#[trigger] states[a].1[b]).0,
        )
}

/// A state of the name is found exactly where one has the name.
proof fn lemma_found_iff_named(states: Seq<StateView>, name: Seq<char>)
    ensures
        state_index(states, name, states.len() as int) is Some <==> has_name(states, name),
{
    lemma_state_index_is_first(states, name, states.len() as int);
    if has_name(states, name) {
        let c = choose|c: int| 0 <= c < states.len() && (#[trigger] states[c]).0 == name;
        lemma_state_index_found(states, name, c, states.len() as int);
    }
}

/// With a state of a name, the states have that name and every name they had.
proof fn lemma_with_state_names(states: Seq<StateView>, name: Seq<char>, other: Seq<char>)
    ensures
        has_name(with_state(states, name), name),
        has_name(states, other) ==> has_name(with_state(states, name), other),
        with_state(states, name).len() >= states.len(),
        forall|c: int| 0 <= c < states.len() ==> with_state(states, name)[c] == states[c],
        with_state(states, name).len() > states.len() ==> with_state(states, name).len()
            == states.len() + 1 && with_state(states, name)[states.len() as int].1.len() == 0,
{
    lemma_found_iff_named(states, name);
    let grown = with_state(states, name);
    if state_index(states, name, states.len() as int) is None {
        assert(grown[states.len() as int].0 == name);
    }
    if has_name(states, other) {
        let c = choose|c: int| 0 <= c < states.len() && (#[trigger] states[c]).0 == other;
        assert(grown[c].0 == other);
    }
}

/// Adding a transition keeps every transition leading to a state.
proof fn lemma_edge_keeps_targets(states: Seq<StateView>, edge: Edge)
    requires
        targets_exist(states),
    ensures
        targets_exist(with_edge(states, edge)),
{
    let sourced = with_state(states, edge.source);
    lemma_with_state_names(states, edge.source, edge.source);
    lemma_found_iff_named(sourced, edge.source);
    lemma_state_index_is_first(sourced, edge.source, sourced.len() as int);
    let i = state_index(sourced, edge.source, sourced.len() as int)->0;
    let linked = sourced.update(i, (edge.source, sourced[i].1.push((edge.target, edge.label))));
    let all = with_state(linked, edge.target);
    lemma_with_state_names(linked, edge.target, edge.target);
    assert forall|a: int, b: int| 0 <= a < all.len() && 0 <= b < all[a].1.len() implies has_name(
        all,
        (#[trigger] all[a].1[b]).0,
    ) by {
        let target = all[a].1[b].0;
        if a < linked.len() {
            assert(all[a] == linked[a]);
            if a == i && b == sourced[i].1.len() {
                assert(target == edge.target);
            } else {
                assert(a < states.len() && 0 <= b < states[a].1.len() && states[a].1[b].0
                    == target) by {
                    if a == i {
                        assert(linked[a].1[b] == sourced[i].1[b]);
                    }
                    assert(sourced[a].1.len() > 0);
                }
                assert(has_name(states, target));
                let c = choose|c: int| 0 <= c < states.len() && (#[trigger] states[c]).0 == target;
                assert(sourced[c] == states[c]);
                assert(linked[c].0 == target);
                assert(all[c] == linked[c]);
            }
        }
    }
}

/// The index of a state is the same in a machine and among its states as
/// plain texts.
proof fn lemma_index_agrees(machine: StateMachine, name: Seq<char>, k: int)
    requires
        k <= machine.states@.len(),
    ensures
        machine.index_of(name, k) == state_index(machine_view(machine), name, k),
    decreases k,
{
    if k > 0 {
        lemma_index_agrees(machine, name, k - 1);
    }
}

/// A machine whose transitions, as plain texts, lead to its states is
/// resolvable.
proof fn lemma_resolvable(machine: StateMachine)
    requires
        targets_exist(machine_view(machine)),
    ensures
        machine.resolvable(),
{
    let states = machine_view(machine);
    assert forall|i: int, j: int|
        0 <= i < machine.states@.len() && 0 <= j < machine.states@[i].transitions@.len()
            implies machine.has_state((#[trigger] machine.states@[i].transitions@[j]).target@) by {
        let target = machine.states@[i].transitions@[j].target@;
        assert(states[i].1[j].0 == target);
        lemma_found_iff_named(states, target);
        lemma_index_agrees(machine, target, machine.states@.len() as int);
    }
}

} // verus!
