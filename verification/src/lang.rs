//! The languages a project can be generated in.

use vstd::prelude::*;
use crate::text::join_texts;
use crate::text::lowercase;
use crate::text_map::same_text;

verus! {

/// A target language.
#[derive(Clone, Copy, PartialEq, Eq, Structural, Debug)]
pub enum Lang {
    Rust,
    Java,
    JavaScript,
    TypeScript,
    Scala,
    Python,
    C,
    Cpp,
    Kotlin,
    Php,
    Swift,
    CSharp,
    Unknown,
}

/// The language that the lower-case name `name` stands for.
pub open spec fn lang_of_name(name: Seq<char>) -> Option<Lang> {
    if name == "rust"@ {
        Some(Lang::Rust)
    } else if name == "java"@ {
        Some(Lang::Java)
    } else if name == "javascript"@ {
        Some(Lang::JavaScript)
    } else if name == "typescript"@ {
        Some(Lang::TypeScript)
    } else if name == "scala"@ {
        Some(Lang::Scala)
    } else if name == "python"@ {
        Some(Lang::Python)
    } else if name == "c"@ {
        Some(Lang::C)
    } else if name == "cpp"@ {
        Some(Lang::Cpp)
    } else if name == "kotlin"@ {
        Some(Lang::Kotlin)
    } else if name == "php"@ {
        Some(Lang::Php)
    } else if name == "cs"@ {
        Some(Lang::CSharp)
    } else if name == "swift"@ {
        Some(Lang::Swift)
    } else {
        None
    }
}

impl Lang {
    /// The name of the language on the command line; empty for `Unknown`.
    pub open spec fn spec_name(self) -> Seq<char> {
        match self {
            Lang::Rust => "rust"@,
            Lang::Java => "java"@,
            Lang::JavaScript => "javascript"@,
            Lang::TypeScript => "typescript"@,
            Lang::Scala => "scala"@,
            Lang::Python => "python"@,
            Lang::C => "c"@,
            Lang::Cpp => "cpp"@,
            Lang::Kotlin => "kotlin"@,
            Lang::Php => "php"@,
            Lang::Swift => "swift"@,
            Lang::CSharp => "cs"@,
            Lang::Unknown => ""@,
        }
    }

    /// The name of the language on the command line.
    pub fn name(&self) -> (r: String)
        ensures
            r@ == self.spec_name(),
    {
        let text = match self {
            Lang::Rust => "rust",
            Lang::Java => "java",
            Lang::JavaScript => "javascript",
            Lang::TypeScript => "typescript",
            Lang::Scala => "scala",
            Lang::Python => "python",
            Lang::C => "c",
            Lang::Cpp => "cpp",
            Lang::Kotlin => "kotlin",
            Lang::Php => "php",
            Lang::Swift => "swift",
            Lang::CSharp => "cs",
            Lang::Unknown => "",
        };
        text.to_owned()
    }

    /// The language that the lower-case name `lowered` stands for.
    pub fn from_lowercase(lowered: &str) -> (r: Option<Lang>)
        ensures
            r == lang_of_name(lowered@),
    {
        if same_text(lowered, "rust") {
            Some(Lang::Rust)
        } else if same_text(lowered, "java") {
            Some(Lang::Java)
        } else if same_text(lowered, "javascript") {
            Some(Lang::JavaScript)
        } else if same_text(lowered, "typescript") {
            Some(Lang::TypeScript)
        } else if same_text(lowered, "scala") {
            Some(Lang::Scala)
        } else if same_text(lowered, "python") {
            Some(Lang::Python)
        } else if same_text(lowered, "c") {
            Some(Lang::C)
        } else if same_text(lowered, "cpp") {
            Some(Lang::Cpp)
        } else if same_text(lowered, "kotlin") {
            Some(Lang::Kotlin)
        } else if same_text(lowered, "php") {
            Some(Lang::Php)
        } else if same_text(lowered, "cs") {
            Some(Lang::CSharp)
        } else if same_text(lowered, "swift") {
            Some(Lang::Swift)
        } else {
            None
        }
    }

    /// The language that `s` names, whatever the case of its letters; the
    /// error says which name was not understood.
    pub fn parse(s: &str) -> (r: Result<Lang, String>)
        ensures
            match r {
                Ok(lang) => lang_of_name(lowercase(s@)) == Some(lang),
                Err(message) => lang_of_name(lowercase(s@)) is None && message@
                    == "Unsupported language: "@ + s@,
            },
    {
        let lowered = s.to_lowercase();
        match Lang::from_lowercase(lowered.as_str()) {
            Some(lang) => Ok(lang),
            None => Err(join_texts("Unsupported language: ", s)),
        }
    }
}

impl std::str::FromStr for Lang {
    type Err = String;

    /// The language that `s` names, whatever the case of its letters; the
    /// error says which name was not understood.
    fn from_str(s: &str) -> (r: Result<Self, Self::Err>)
        ensures
            match r {
                Ok(lang) => lang_of_name(lowercase(s@)) == Some(lang),
                Err(message) => lang_of_name(lowercase(s@)) is None && message@
                    == "Unsupported language: "@ + s@,
            },
    {
        Lang::parse(s)
    }
}

} // verus!
