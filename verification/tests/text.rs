use rustsn::lang::Lang;
use rustsn::lines::split_lines;
use rustsn::lines::split_words;
use rustsn::number::read_i32;
use rustsn::number::write_decimal;
use rustsn::offsets::char_index;
use rustsn::text::join_texts;
use rustsn::text::find_from;
use rustsn::text::from_chars;
use rustsn::text::has_substring;
use rustsn::text::replaced;
use rustsn::text::to_chars;
use rustsn::text::trim_end;
use rustsn::text::trim_start;
use rustsn::text::trimmed;
use rustsn::text::CharClass;
use rustsn::utils::remove_comments;

fn chars(s: &str) -> Vec<char> {
    s.chars().collect()
}

fn text(v: &Vec<char>) -> String {
    v.iter().collect()
}

const SAMPLES: [&str; 14] = [
    "",
    "\n",
    "a",
    "a\n",
    "a\r\n",
    "a\r",
    "a\n\nb",
    "\r\n\r\n",
    "a\r\r\nb\r",
    "  lead and trail \t\n",
    "\u{a0}nbsp\u{2003}em\u{3000}",
    "\u{85}next line\u{1680}\u{2028}\u{2029}\u{202f}\u{205f}",
    "\u{200b}zero width is no space\u{200b}",
    "one  two\tthree\u{b}four\u{c}five\rsix",
];

#[test]
fn a_text_goes_to_characters_and_back() {
    for s in SAMPLES {
        assert_eq!(to_chars(s), chars(s));
        assert_eq!(from_chars(&chars(s)), s);
    }
    assert_eq!(join_texts("ab", "cd"), "abcd");
}

#[test]
fn lines_are_those_of_std() {
    for s in SAMPLES {
        let expected: Vec<String> = s.lines().map(|l| l.to_string()).collect();
        let found: Vec<String> = split_lines(&chars(s)).iter().map(text).collect();
        assert_eq!(found, expected, "{:?}", s);
    }
}

#[test]
fn words_are_those_of_std() {
    for s in SAMPLES {
        let expected: Vec<String> = s.split_whitespace().map(|l| l.to_string()).collect();
        let found: Vec<String> = split_words(&chars(s)).iter().map(text).collect();
        assert_eq!(found, expected, "{:?}", s);
    }
}

#[test]
fn trimming_is_that_of_std() {
    for s in SAMPLES {
        assert_eq!(text(&trimmed(&chars(s))), s.trim(), "{:?}", s);
        assert_eq!(text(&trim_end(&chars(s), CharClass::Whitespace)), s.trim_end(), "{:?}", s);
        assert_eq!(text(&trim_start(&chars(s), CharClass::Whitespace)), s.trim_start(), "{:?}", s);
        assert_eq!(text(&trim_end(&chars(s), CharClass::Newline)), s.trim_end_matches('\n'), "{:?}", s);
    }
    let heading = "## # title # ";
    assert_eq!(text(&trim_start(&chars(heading), CharClass::HeadingMarker)), heading.trim_start_matches(&['#', ' '][..]));
}

#[test]
fn every_white_space_character_is_known() {
    for code in 0..0x11_0000u32 {
        if let Some(c) = char::from_u32(code) {
            assert_eq!(CharClass::Whitespace.holds(c), c.is_whitespace(), "{:x}", code);
        }
    }
}

#[test]
fn replacing_is_that_of_std() {
    let cases = [("aaa", "aa", "b"), ("abcabc", "bc", ""), ("abc", "abcd", "x"), ("", "a", "b"), ("{{{0}}}{{{0}}}", "{{{0}}}", "{{{0}}}!"), ("a*b**c", "*", ""), ("xayaz", "a", "aa")];
    for (s, pat, with) in cases {
        assert_eq!(text(&replaced(&chars(s), &chars(pat), &chars(with))), s.replace(pat, with), "{:?}", (s, pat, with));
    }
    assert_eq!(text(&replaced(&chars("abc"), &chars(""), &chars("x"))), "abc");
}

#[test]
fn searching_finds_the_first_occurrence() {
    let hay = chars("abcabc");
    assert_eq!(find_from(&hay, &chars("bc"), 0), Some(1));
    assert_eq!(find_from(&hay, &chars("bc"), 2), Some(4));
    assert_eq!(find_from(&hay, &chars("bc"), 5), None);
    assert_eq!(find_from(&hay, &chars(""), 6), Some(6));
    assert_eq!(find_from(&hay, &chars(""), 7), None);
    assert!(has_substring(&hay, &chars("cab")));
    assert!(!has_substring(&hay, &chars("cb")));
    assert!(has_substring(&chars(""), &chars("")));
}

#[test]
fn numbers_are_read_as_std_reads_them() {
    let cases = ["0", "-0", "+7", "2147483647", "2147483648", "-2147483648", "-2147483649", "", "-", "+", "1a", "a1", " 1", "0000000000001", "12345678901234567890", "\u{663}"];
    for s in cases {
        assert_eq!(read_i32(&chars(s)), s.parse::<i32>().ok(), "{:?}", s);
    }
}

#[test]
fn numbers_are_written_in_decimal() {
    for n in [0usize, 1, 9, 10, 11, 99, 100, 4096, 1234567890] {
        assert_eq!(text(&write_decimal(n)), n.to_string());
    }
}

#[test]
fn byte_offsets_stand_for_character_indices() {
    let s = "a\u{e9}\u{20ac}\u{1f600}z";
    let v = chars(s);
    let mut expected = Vec::new();
    for offset in 0..=s.len() + 1 {
        if offset <= s.len() && s.is_char_boundary(offset) {
            expected.push(Some(s[..offset].chars().count()));
        } else {
            expected.push(None);
        }
    }
    let found: Vec<Option<usize>> = (0..=s.len() + 1).map(|offset| char_index(&v, offset)).collect();
    assert_eq!(found, expected);
    assert_eq!(char_index(&Vec::new(), 0), Some(0));
    assert_eq!(char_index(&Vec::new(), 1), None);
}

#[test]
fn comment_lines_are_taken_out_of_a_command() {
    assert_eq!(remove_comments("# first build\ncargo build\n# then nothing\n"), "cargo build");
    assert_eq!(remove_comments("cargo test # not a comment line"), "cargo test # not a comment line");
    assert_eq!(remove_comments(""), "");
    assert_eq!(remove_comments("#only"), "");
    assert_eq!(remove_comments("  a\n#b\nc  "), "a\n\nc");
}

#[test]
fn languages_have_names() {
    let all = [
        (Lang::Rust, "rust"),
        (Lang::Java, "java"),
        (Lang::JavaScript, "javascript"),
        (Lang::TypeScript, "typescript"),
        (Lang::Scala, "scala"),
        (Lang::Python, "python"),
        (Lang::C, "c"),
        (Lang::Cpp, "cpp"),
        (Lang::Kotlin, "kotlin"),
        (Lang::Php, "php"),
        (Lang::Swift, "swift"),
        (Lang::CSharp, "cs"),
    ];
    for (lang, name) in all {
        assert_eq!(lang.name(), name);
        assert_eq!(Lang::parse(name), Ok(lang));
        assert_eq!(Lang::parse(&name.to_uppercase()), Ok(lang));
        assert_eq!(Lang::from_lowercase(name), Some(lang));
    }
    assert_eq!(Lang::Unknown.name(), "");
    assert_eq!(Lang::parse("Go"), Err("Unsupported language: Go".to_string()));
    assert_eq!(Lang::parse(""), Err("Unsupported language: ".to_string()));
    assert_eq!(Lang::from_lowercase("RUST"), None);
    assert_eq!("Kotlin".parse::<Lang>(), Ok(Lang::Kotlin));
    assert_eq!("basic".parse::<Lang>(), Err("Unsupported language: basic".to_string()));
}
