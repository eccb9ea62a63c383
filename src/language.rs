//! The language registry: one immutable record per supported language, with
//! the names, file matchers and comment and string syntax that drive the
//! classifier.
use vstd::prelude::*;
use vstd::string::StringSliceAdditionalSpecFns;
use crate::colors::{lower_of, lowercase};
use crate::text::{bytes_of, starts_with, has_prefix, is_whitespace, is_ws, bytes_eq};

verus! {

/// One supported programming language.
#[derive(Clone, Copy, Debug, PartialEq, Eq, Structural, Hash, PartialOrd, Ord)]
#[non_exhaustive]
pub enum LanguageType {
    Bash,
    C,
    CHeader,
    Cpp,
    CppHeader,
    CSharp,
    Css,
    D,
    Dockerfile,
    FortranLegacy,
    FortranModern,
    Go,
    Haskell,
    Html,
    Java,
    JavaScript,
    Json,
    Kotlin,
    Makefile,
    Markdown,
    Python,
    Ruby,
    Rust,
    Sh,
    Sql,
    Text,
    Toml,
    TypeScript,
    Xml,
    Yaml,
}

/// Every language of the registry, in table order.
pub open spec fn all_languages() -> Seq<LanguageType> {
    seq![LanguageType::Bash, LanguageType::C, LanguageType::CHeader, LanguageType::Cpp, LanguageType::CppHeader, LanguageType::CSharp, LanguageType::Css, LanguageType::D, LanguageType::Dockerfile, LanguageType::FortranLegacy, LanguageType::FortranModern, LanguageType::Go, LanguageType::Haskell, LanguageType::Html, LanguageType::Java, LanguageType::JavaScript, LanguageType::Json, LanguageType::Kotlin, LanguageType::Makefile, LanguageType::Markdown, LanguageType::Python, LanguageType::Ruby, LanguageType::Rust, LanguageType::Sh, LanguageType::Sql, LanguageType::Text, LanguageType::Toml, LanguageType::TypeScript, LanguageType::Xml, LanguageType::Yaml]
}

impl LanguageType {
    pub open spec fn spec_name(self) -> &'static str {
        match self {
            LanguageType::Bash => "BASH",
            LanguageType::C => "C",
            LanguageType::CHeader => "C Header",
            LanguageType::Cpp => "C++",
            LanguageType::CppHeader => "C++ Header",
            LanguageType::CSharp => "C#",
            LanguageType::Css => "CSS",
            LanguageType::D => "D",
            LanguageType::Dockerfile => "Dockerfile",
            LanguageType::FortranLegacy => "FORTRAN Legacy",
            LanguageType::FortranModern => "FORTRAN Modern",
            LanguageType::Go => "Go",
            LanguageType::Haskell => "Haskell",
            LanguageType::Html => "HTML",
            LanguageType::Java => "Java",
            LanguageType::JavaScript => "JavaScript",
            LanguageType::Json => "JSON",
            LanguageType::Kotlin => "Kotlin",
            LanguageType::Makefile => "Makefile",
            LanguageType::Markdown => "Markdown",
            LanguageType::Python => "Python",
            LanguageType::Ruby => "Ruby",
            LanguageType::Rust => "Rust",
            LanguageType::Sh => "Shell",
            LanguageType::Sql => "SQL",
            LanguageType::Text => "Plain Text",
            LanguageType::Toml => "TOML",
            LanguageType::TypeScript => "TypeScript",
            LanguageType::Xml => "XML",
            LanguageType::Yaml => "YAML",
        }
    }

    /// The display name of the language.
    pub fn name(self) -> (r: &'static str)
        ensures
            r == self.spec_name(),
    {
        match self {
            LanguageType::Bash => "BASH",
            LanguageType::C => "C",
            LanguageType::CHeader => "C Header",
            LanguageType::Cpp => "C++",
            LanguageType::CppHeader => "C++ Header",
            LanguageType::CSharp => "C#",
            LanguageType::Css => "CSS",
            LanguageType::D => "D",
            LanguageType::Dockerfile => "Dockerfile",
            LanguageType::FortranLegacy => "FORTRAN Legacy",
            LanguageType::FortranModern => "FORTRAN Modern",
            LanguageType::Go => "Go",
            LanguageType::Haskell => "Haskell",
            LanguageType::Html => "HTML",
            LanguageType::Java => "Java",
            LanguageType::JavaScript => "JavaScript",
            LanguageType::Json => "JSON",
            LanguageType::Kotlin => "Kotlin",
            LanguageType::Makefile => "Makefile",
            LanguageType::Markdown => "Markdown",
            LanguageType::Python => "Python",
            LanguageType::Ruby => "Ruby",
            LanguageType::Rust => "Rust",
            LanguageType::Sh => "Shell",
            LanguageType::Sql => "SQL",
            LanguageType::Text => "Plain Text",
            LanguageType::Toml => "TOML",
            LanguageType::TypeScript => "TypeScript",
            LanguageType::Xml => "XML",
            LanguageType::Yaml => "YAML",
        }
    }

    pub open spec fn spec_is_literate(self) -> bool {
        self == LanguageType::Markdown || self == LanguageType::Text
    }

    /// Whether the language is documentation first: text counts as comment outside fenced code.
    pub fn is_literate(self) -> (r: bool)
        ensures
            r == self.spec_is_literate(),
    {
        match self {
            LanguageType::Markdown => true,
            LanguageType::Text => true,
            _ => false,
        }
    }

    pub open spec fn spec_allows_nested(self) -> bool {
        self == LanguageType::Haskell || self == LanguageType::Kotlin || self == LanguageType::Rust
    }

    /// Whether the multi-line comments of the language nest.
    pub fn allows_nested(self) -> (r: bool)
        ensures
            r == self.spec_allows_nested(),
    {
        match self {
            LanguageType::Haskell => true,
            LanguageType::Kotlin => true,
            LanguageType::Rust => true,
            _ => false,
        }
    }

    pub open spec fn spec_is_blank(self) -> bool {
        self == LanguageType::Json
    }

    /// Whether the language is data whose lines carry no comments.
    pub(crate) fn _is_blank(self) -> (r: bool)
        ensures
            r == self.spec_is_blank(),
    {
        match self {
            LanguageType::Json => true,
            _ => false,
        }
    }

    pub open spec fn spec_line_comments(self) -> Seq<&'static str> {
        match self {
            LanguageType::Bash => seq!["#"],
            LanguageType::C => seq!["//"],
            LanguageType::CHeader => seq!["//"],
            LanguageType::Cpp => seq!["//"],
            LanguageType::CppHeader => seq!["//"],
            LanguageType::CSharp => seq!["//"],
            LanguageType::Css => seq![],
            LanguageType::D => seq!["//"],
            LanguageType::Dockerfile => seq!["#"],
            LanguageType::FortranLegacy => seq!["c", "C", "!", "*"],
            LanguageType::FortranModern => seq!["!"],
            LanguageType::Go => seq!["//"],
            LanguageType::Haskell => seq!["--"],
            LanguageType::Html => seq![],
            LanguageType::Java => seq!["//"],
            LanguageType::JavaScript => seq!["//"],
            LanguageType::Json => seq![],
            LanguageType::Kotlin => seq!["//"],
            LanguageType::Makefile => seq!["#"],
            LanguageType::Markdown => seq![],
            LanguageType::Python => seq!["#"],
            LanguageType::Ruby => seq!["#"],
            LanguageType::Rust => seq!["//"],
            LanguageType::Sh => seq!["#"],
            LanguageType::Sql => seq!["--"],
            LanguageType::Text => seq![],
            LanguageType::Toml => seq!["#"],
            LanguageType::TypeScript => seq!["//"],
            LanguageType::Xml => seq![],
            LanguageType::Yaml => seq!["#"],
        }
    }

    /// The markers that start a comment running to the end of the line.
    pub fn line_comments(self) -> (r: Vec<&'static str>)
        ensures
            r@ == self.spec_line_comments(),
    {
        match self {
            LanguageType::Bash => vec!["#"],
            LanguageType::C => vec!["//"],
            LanguageType::CHeader => vec!["//"],
            LanguageType::Cpp => vec!["//"],
            LanguageType::CppHeader => vec!["//"],
            LanguageType::CSharp => vec!["//"],
            LanguageType::Css => Vec::new(),
            LanguageType::D => vec!["//"],
            LanguageType::Dockerfile => vec!["#"],
            LanguageType::FortranLegacy => vec!["c", "C", "!", "*"],
            LanguageType::FortranModern => vec!["!"],
            LanguageType::Go => vec!["//"],
            LanguageType::Haskell => vec!["--"],
            LanguageType::Html => Vec::new(),
            LanguageType::Java => vec!["//"],
            LanguageType::JavaScript => vec!["//"],
            LanguageType::Json => Vec::new(),
            LanguageType::Kotlin => vec!["//"],
            LanguageType::Makefile => vec!["#"],
            LanguageType::Markdown => Vec::new(),
            LanguageType::Python => vec!["#"],
            LanguageType::Ruby => vec!["#"],
            LanguageType::Rust => vec!["//"],
            LanguageType::Sh => vec!["#"],
            LanguageType::Sql => vec!["--"],
            LanguageType::Text => Vec::new(),
            LanguageType::Toml => vec!["#"],
            LanguageType::TypeScript => vec!["//"],
            LanguageType::Xml => Vec::new(),
            LanguageType::Yaml => vec!["#"],
        }
    }

    pub open spec fn spec_multi_line_comments(self) -> Seq<(&'static str, &'static str)> {
        match self {
            LanguageType::Bash => seq![],
            LanguageType::C => seq![("/*", "*/")],
            LanguageType::CHeader => seq![("/*", "*/")],
            LanguageType::Cpp => seq![("/*", "*/")],
            LanguageType::CppHeader => seq![("/*", "*/")],
            LanguageType::CSharp => seq![("/*", "*/")],
            LanguageType::Css => seq![("/*", "*/")],
            LanguageType::D => seq![("/*", "*/")],
            LanguageType::Dockerfile => seq![],
            LanguageType::FortranLegacy => seq![],
            LanguageType::FortranModern => seq![],
            LanguageType::Go => seq![("/*", "*/")],
            LanguageType::Haskell => seq![("{-", "-}")],
            LanguageType::Html => seq![("<!--", "-->")],
            LanguageType::Java => seq![("/*", "*/")],
            LanguageType::JavaScript => seq![("/*", "*/")],
            LanguageType::Json => seq![],
            LanguageType::Kotlin => seq![("/*", "*/")],
            LanguageType::Makefile => seq![],
            LanguageType::Markdown => seq![],
            LanguageType::Python => seq![],
            LanguageType::Ruby => seq![("=begin", "=end")],
            LanguageType::Rust => seq![("/*", "*/")],
            LanguageType::Sh => seq![],
            LanguageType::Sql => seq![("/*", "*/")],
            LanguageType::Text => seq![],
            LanguageType::Toml => seq![],
            LanguageType::TypeScript => seq![("/*", "*/")],
            LanguageType::Xml => seq![("<!--", "-->")],
            LanguageType::Yaml => seq![],
        }
    }

    /// The start and end delimiters of multi-line comments.
    pub fn multi_line_comments(self) -> (r: Vec<(&'static str, &'static str)>)
        ensures
            r@ == self.spec_multi_line_comments(),
    {
        match self {
            LanguageType::Bash => Vec::new(),
            LanguageType::C => vec![("/*", "*/")],
            LanguageType::CHeader => vec![("/*", "*/")],
            LanguageType::Cpp => vec![("/*", "*/")],
            LanguageType::CppHeader => vec![("/*", "*/")],
            LanguageType::CSharp => vec![("/*", "*/")],
            LanguageType::Css => vec![("/*", "*/")],
            LanguageType::D => vec![("/*", "*/")],
            LanguageType::Dockerfile => Vec::new(),
            LanguageType::FortranLegacy => Vec::new(),
            LanguageType::FortranModern => Vec::new(),
            LanguageType::Go => vec![("/*", "*/")],
            LanguageType::Haskell => vec![("{-", "-}")],
            LanguageType::Html => vec![("<!--", "-->")],
            LanguageType::Java => vec![("/*", "*/")],
            LanguageType::JavaScript => vec![("/*", "*/")],
            LanguageType::Json => Vec::new(),
            LanguageType::Kotlin => vec![("/*", "*/")],
            LanguageType::Makefile => Vec::new(),
            LanguageType::Markdown => Vec::new(),
            LanguageType::Python => Vec::new(),
            LanguageType::Ruby => vec![("=begin", "=end")],
            LanguageType::Rust => vec![("/*", "*/")],
            LanguageType::Sh => Vec::new(),
            LanguageType::Sql => vec![("/*", "*/")],
            LanguageType::Text => Vec::new(),
            LanguageType::Toml => Vec::new(),
            LanguageType::TypeScript => vec![("/*", "*/")],
            LanguageType::Xml => vec![("<!--", "-->")],
            LanguageType::Yaml => Vec::new(),
        }
    }

    pub open spec fn spec_nested_comments(self) -> Seq<(&'static str, &'static str)> {
        match self {
            LanguageType::Bash => seq![],
            LanguageType::C => seq![],
            LanguageType::CHeader => seq![],
            LanguageType::Cpp => seq![],
            LanguageType::CppHeader => seq![],
            LanguageType::CSharp => seq![],
            LanguageType::Css => seq![],
            LanguageType::D => seq![("/+", "+/")],
            LanguageType::Dockerfile => seq![],
            LanguageType::FortranLegacy => seq![],
            LanguageType::FortranModern => seq![],
            LanguageType::Go => seq![],
            LanguageType::Haskell => seq![],
            LanguageType::Html => seq![],
            LanguageType::Java => seq![],
            LanguageType::JavaScript => seq![],
            LanguageType::Json => seq![],
            LanguageType::Kotlin => seq![],
            LanguageType::Makefile => seq![],
            LanguageType::Markdown => seq![],
            LanguageType::Python => seq![],
            LanguageType::Ruby => seq![],
            LanguageType::Rust => seq![],
            LanguageType::Sh => seq![],
            LanguageType::Sql => seq![],
            LanguageType::Text => seq![],
            LanguageType::Toml => seq![],
            LanguageType::TypeScript => seq![],
            LanguageType::Xml => seq![],
            LanguageType::Yaml => seq![],
        }
    }

    /// The start and end delimiters of comments that always nest.
    pub fn nested_comments(self) -> (r: Vec<(&'static str, &'static str)>)
        ensures
            r@ == self.spec_nested_comments(),
    {
        match self {
            LanguageType::Bash => Vec::new(),
            LanguageType::C => Vec::new(),
            LanguageType::CHeader => Vec::new(),
            LanguageType::Cpp => Vec::new(),
            LanguageType::CppHeader => Vec::new(),
            LanguageType::CSharp => Vec::new(),
            LanguageType::Css => Vec::new(),
            LanguageType::D => vec![("/+", "+/")],
            LanguageType::Dockerfile => Vec::new(),
            LanguageType::FortranLegacy => Vec::new(),
            LanguageType::FortranModern => Vec::new(),
            LanguageType::Go => Vec::new(),
            LanguageType::Haskell => Vec::new(),
            LanguageType::Html => Vec::new(),
            LanguageType::Java => Vec::new(),
            LanguageType::JavaScript => Vec::new(),
            LanguageType::Json => Vec::new(),
            LanguageType::Kotlin => Vec::new(),
            LanguageType::Makefile => Vec::new(),
            LanguageType::Markdown => Vec::new(),
            LanguageType::Python => Vec::new(),
            LanguageType::Ruby => Vec::new(),
            LanguageType::Rust => Vec::new(),
            LanguageType::Sh => Vec::new(),
            LanguageType::Sql => Vec::new(),
            LanguageType::Text => Vec::new(),
            LanguageType::Toml => Vec::new(),
            LanguageType::TypeScript => Vec::new(),
            LanguageType::Xml => Vec::new(),
            LanguageType::Yaml => Vec::new(),
        }
    }

    pub open spec fn spec_quotes(self) -> Seq<(&'static str, &'static str)> {
        match self {
            LanguageType::Bash => seq![("\"", "\""), ("'", "'")],
            LanguageType::C => seq![("\"", "\"")],
            LanguageType::CHeader => seq![("\"", "\"")],
            LanguageType::Cpp => seq![("\"", "\"")],
            LanguageType::CppHeader => seq![("\"", "\"")],
            LanguageType::CSharp => seq![("\"", "\"")],
            LanguageType::Css => seq![("\"", "\""), ("'", "'")],
            LanguageType::D => seq![("\"", "\"")],
            LanguageType::Dockerfile => seq![("\"", "\""), ("'", "'")],
            LanguageType::FortranLegacy => seq![("\"", "\""), ("'", "'")],
            LanguageType::FortranModern => seq![("\"", "\""), ("'", "'")],
            LanguageType::Go => seq![("\"", "\"")],
            LanguageType::Haskell => seq![("\"", "\"")],
            LanguageType::Html => seq![],
            LanguageType::Java => seq![("\"", "\"")],
            LanguageType::JavaScript => seq![("\"", "\""), ("'", "'"), ("`", "`")],
            LanguageType::Json => seq![],
            LanguageType::Kotlin => seq![("\"", "\"")],
            LanguageType::Makefile => seq![],
            LanguageType::Markdown => seq![],
            LanguageType::Python => seq![("\"", "\""), ("'", "'")],
            LanguageType::Ruby => seq![("\"", "\""), ("'", "'")],
            LanguageType::Rust => seq![("\"", "\""), ("#\"", "\"#")],
            LanguageType::Sh => seq![("\"", "\""), ("'", "'")],
            LanguageType::Sql => seq![("'", "'")],
            LanguageType::Text => seq![],
            LanguageType::Toml => seq![("\"", "\""), ("'", "'")],
            LanguageType::TypeScript => seq![("\"", "\""), ("'", "'"), ("`", "`")],
            LanguageType::Xml => seq![],
            LanguageType::Yaml => seq![("\"", "\""), ("'", "'")],
        }
    }

    /// The delimiters of string literals, in which a backslash escapes the next byte.
    pub fn quotes(self) -> (r: Vec<(&'static str, &'static str)>)
        ensures
            r@ == self.spec_quotes(),
    {
        match self {
            LanguageType::Bash => vec![("\"", "\""), ("'", "'")],
            LanguageType::C => vec![("\"", "\"")],
            LanguageType::CHeader => vec![("\"", "\"")],
            LanguageType::Cpp => vec![("\"", "\"")],
            LanguageType::CppHeader => vec![("\"", "\"")],
            LanguageType::CSharp => vec![("\"", "\"")],
            LanguageType::Css => vec![("\"", "\""), ("'", "'")],
            LanguageType::D => vec![("\"", "\"")],
            LanguageType::Dockerfile => vec![("\"", "\""), ("'", "'")],
            LanguageType::FortranLegacy => vec![("\"", "\""), ("'", "'")],
            LanguageType::FortranModern => vec![("\"", "\""), ("'", "'")],
            LanguageType::Go => vec![("\"", "\"")],
            LanguageType::Haskell => vec![("\"", "\"")],
            LanguageType::Html => Vec::new(),
            LanguageType::Java => vec![("\"", "\"")],
            LanguageType::JavaScript => vec![("\"", "\""), ("'", "'"), ("`", "`")],
            LanguageType::Json => Vec::new(),
            LanguageType::Kotlin => vec![("\"", "\"")],
            LanguageType::Makefile => Vec::new(),
            LanguageType::Markdown => Vec::new(),
            LanguageType::Python => vec![("\"", "\""), ("'", "'")],
            LanguageType::Ruby => vec![("\"", "\""), ("'", "'")],
            LanguageType::Rust => vec![("\"", "\""), ("#\"", "\"#")],
            LanguageType::Sh => vec![("\"", "\""), ("'", "'")],
            LanguageType::Sql => vec![("'", "'")],
            LanguageType::Text => Vec::new(),
            LanguageType::Toml => vec![("\"", "\""), ("'", "'")],
            LanguageType::TypeScript => vec![("\"", "\""), ("'", "'"), ("`", "`")],
            LanguageType::Xml => Vec::new(),
            LanguageType::Yaml => vec![("\"", "\""), ("'", "'")],
        }
    }

    pub open spec fn spec_verbatim_quotes(self) -> Seq<(&'static str, &'static str)> {
        match self {
            LanguageType::Bash => seq![],
            LanguageType::C => seq![],
            LanguageType::CHeader => seq![],
            LanguageType::Cpp => seq![("R\"(", ")\"")],
            LanguageType::CppHeader => seq![],
            LanguageType::CSharp => seq![("@\"", "\"")],
            LanguageType::Css => seq![],
            LanguageType::D => seq![("r\"", "\"")],
            LanguageType::Dockerfile => seq![],
            LanguageType::FortranLegacy => seq![],
            LanguageType::FortranModern => seq![],
            LanguageType::Go => seq![("`", "`")],
            LanguageType::Haskell => seq![],
            LanguageType::Html => seq![],
            LanguageType::Java => seq![],
            LanguageType::JavaScript => seq![],
            LanguageType::Json => seq![],
            LanguageType::Kotlin => seq![],
            LanguageType::Makefile => seq![],
            LanguageType::Markdown => seq![],
            LanguageType::Python => seq![],
            LanguageType::Ruby => seq![],
            LanguageType::Rust => seq![("r##\"", "\"##"), ("r#\"", "\"#")],
            LanguageType::Sh => seq![],
            LanguageType::Sql => seq![],
            LanguageType::Text => seq![],
            LanguageType::Toml => seq![],
            LanguageType::TypeScript => seq![],
            LanguageType::Xml => seq![],
            LanguageType::Yaml => seq![],
        }
    }

    /// The delimiters of raw string literals, closed only by their end delimiter.
    pub fn verbatim_quotes(self) -> (r: Vec<(&'static str, &'static str)>)
        ensures
            r@ == self.spec_verbatim_quotes(),
    {
        match self {
            LanguageType::Bash => Vec::new(),
            LanguageType::C => Vec::new(),
            LanguageType::CHeader => Vec::new(),
            LanguageType::Cpp => vec![("R\"(", ")\"")],
            LanguageType::CppHeader => Vec::new(),
            LanguageType::CSharp => vec![("@\"", "\"")],
            LanguageType::Css => Vec::new(),
            LanguageType::D => vec![("r\"", "\"")],
            LanguageType::Dockerfile => Vec::new(),
            LanguageType::FortranLegacy => Vec::new(),
            LanguageType::FortranModern => Vec::new(),
            LanguageType::Go => vec![("`", "`")],
            LanguageType::Haskell => Vec::new(),
            LanguageType::Html => Vec::new(),
            LanguageType::Java => Vec::new(),
            LanguageType::JavaScript => Vec::new(),
            LanguageType::Json => Vec::new(),
            LanguageType::Kotlin => Vec::new(),
            LanguageType::Makefile => Vec::new(),
            LanguageType::Markdown => Vec::new(),
            LanguageType::Python => Vec::new(),
            LanguageType::Ruby => Vec::new(),
            LanguageType::Rust => vec![("r##\"", "\"##"), ("r#\"", "\"#")],
            LanguageType::Sh => Vec::new(),
            LanguageType::Sql => Vec::new(),
            LanguageType::Text => Vec::new(),
            LanguageType::Toml => Vec::new(),
            LanguageType::TypeScript => Vec::new(),
            LanguageType::Xml => Vec::new(),
            LanguageType::Yaml => Vec::new(),
        }
    }

    pub open spec fn spec_doc_quotes(self) -> Seq<(&'static str, &'static str)> {
        match self {
            LanguageType::Bash => seq![],
            LanguageType::C => seq![],
            LanguageType::CHeader => seq![],
            LanguageType::Cpp => seq![],
            LanguageType::CppHeader => seq![],
            LanguageType::CSharp => seq![],
            LanguageType::Css => seq![],
            LanguageType::D => seq![],
            LanguageType::Dockerfile => seq![],
            LanguageType::FortranLegacy => seq![],
            LanguageType::FortranModern => seq![],
            LanguageType::Go => seq![],
            LanguageType::Haskell => seq![],
            LanguageType::Html => seq![],
            LanguageType::Java => seq![],
            LanguageType::JavaScript => seq![],
            LanguageType::Json => seq![],
            LanguageType::Kotlin => seq![("\"\"\"", "\"\"\"")],
            LanguageType::Makefile => seq![],
            LanguageType::Markdown => seq![],
            LanguageType::Python => seq![("\"\"\"", "\"\"\""), ("'''", "'''")],
            LanguageType::Ruby => seq![],
            LanguageType::Rust => seq![],
            LanguageType::Sh => seq![],
            LanguageType::Sql => seq![],
            LanguageType::Text => seq![],
            LanguageType::Toml => seq![("\"\"\"", "\"\"\""), ("'''", "'''")],
            LanguageType::TypeScript => seq![],
            LanguageType::Xml => seq![],
            LanguageType::Yaml => seq![],
        }
    }

    /// The delimiters of documentation strings.
    pub fn doc_quotes(self) -> (r: Vec<(&'static str, &'static str)>)
        ensures
            r@ == self.spec_doc_quotes(),
    {
        match self {
            LanguageType::Bash => Vec::new(),
            LanguageType::C => Vec::new(),
            LanguageType::CHeader => Vec::new(),
            LanguageType::Cpp => Vec::new(),
            LanguageType::CppHeader => Vec::new(),
            LanguageType::CSharp => Vec::new(),
            LanguageType::Css => Vec::new(),
            LanguageType::D => Vec::new(),
            LanguageType::Dockerfile => Vec::new(),
            LanguageType::FortranLegacy => Vec::new(),
            LanguageType::FortranModern => Vec::new(),
            LanguageType::Go => Vec::new(),
            LanguageType::Haskell => Vec::new(),
            LanguageType::Html => Vec::new(),
            LanguageType::Java => Vec::new(),
            LanguageType::JavaScript => Vec::new(),
            LanguageType::Json => Vec::new(),
            LanguageType::Kotlin => vec![("\"\"\"", "\"\"\"")],
            LanguageType::Makefile => Vec::new(),
            LanguageType::Markdown => Vec::new(),
            LanguageType::Python => vec![("\"\"\"", "\"\"\""), ("'''", "'''")],
            LanguageType::Ruby => Vec::new(),
            LanguageType::Rust => Vec::new(),
            LanguageType::Sh => Vec::new(),
            LanguageType::Sql => Vec::new(),
            LanguageType::Text => Vec::new(),
            LanguageType::Toml => vec![("\"\"\"", "\"\"\""), ("'''", "'''")],
            LanguageType::TypeScript => Vec::new(),
            LanguageType::Xml => Vec::new(),
            LanguageType::Yaml => Vec::new(),
        }
    }

    pub open spec fn spec_shebangs(self) -> Seq<&'static str> {
        match self {
            LanguageType::Bash => seq!["#!/bin/bash"],
            LanguageType::C => seq![],
            LanguageType::CHeader => seq![],
            LanguageType::Cpp => seq![],
            LanguageType::CppHeader => seq![],
            LanguageType::CSharp => seq![],
            LanguageType::Css => seq![],
            LanguageType::D => seq![],
            LanguageType::Dockerfile => seq![],
            LanguageType::FortranLegacy => seq![],
            LanguageType::FortranModern => seq![],
            LanguageType::Go => seq![],
            LanguageType::Haskell => seq![],
            LanguageType::Html => seq![],
            LanguageType::Java => seq![],
            LanguageType::JavaScript => seq![],
            LanguageType::Json => seq![],
            LanguageType::Kotlin => seq![],
            LanguageType::Makefile => seq![],
            LanguageType::Markdown => seq![],
            LanguageType::Python => seq![],
            LanguageType::Ruby => seq![],
            LanguageType::Rust => seq![],
            LanguageType::Sh => seq!["#!/bin/sh"],
            LanguageType::Sql => seq![],
            LanguageType::Text => seq![],
            LanguageType::Toml => seq![],
            LanguageType::TypeScript => seq![],
            LanguageType::Xml => seq![],
            LanguageType::Yaml => seq![],
        }
    }

    /// The interpreter lines that identify the language.
    pub fn shebangs(self) -> (r: Vec<&'static str>)
        ensures
            r@ == self.spec_shebangs(),
    {
        match self {
            LanguageType::Bash => vec!["#!/bin/bash"],
            LanguageType::C => Vec::new(),
            LanguageType::CHeader => Vec::new(),
            LanguageType::Cpp => Vec::new(),
            LanguageType::CppHeader => Vec::new(),
            LanguageType::CSharp => Vec::new(),
            LanguageType::Css => Vec::new(),
            LanguageType::D => Vec::new(),
            LanguageType::Dockerfile => Vec::new(),
            LanguageType::FortranLegacy => Vec::new(),
            LanguageType::FortranModern => Vec::new(),
            LanguageType::Go => Vec::new(),
            LanguageType::Haskell => Vec::new(),
            LanguageType::Html => Vec::new(),
            LanguageType::Java => Vec::new(),
            LanguageType::JavaScript => Vec::new(),
            LanguageType::Json => Vec::new(),
            LanguageType::Kotlin => Vec::new(),
            LanguageType::Makefile => Vec::new(),
            LanguageType::Markdown => Vec::new(),
            LanguageType::Python => Vec::new(),
            LanguageType::Ruby => Vec::new(),
            LanguageType::Rust => Vec::new(),
            LanguageType::Sh => vec!["#!/bin/sh"],
            LanguageType::Sql => Vec::new(),
            LanguageType::Text => Vec::new(),
            LanguageType::Toml => Vec::new(),
            LanguageType::TypeScript => Vec::new(),
            LanguageType::Xml => Vec::new(),
            LanguageType::Yaml => Vec::new(),
        }
    }

    pub open spec fn spec_env_hints(self) -> Seq<&'static str> {
        match self {
            LanguageType::Bash => seq!["bash"],
            LanguageType::C => seq![],
            LanguageType::CHeader => seq![],
            LanguageType::Cpp => seq![],
            LanguageType::CppHeader => seq![],
            LanguageType::CSharp => seq![],
            LanguageType::Css => seq![],
            LanguageType::D => seq![],
            LanguageType::Dockerfile => seq![],
            LanguageType::FortranLegacy => seq![],
            LanguageType::FortranModern => seq![],
            LanguageType::Go => seq![],
            LanguageType::Haskell => seq![],
            LanguageType::Html => seq![],
            LanguageType::Java => seq![],
            LanguageType::JavaScript => seq!["node", "nodejs"],
            LanguageType::Json => seq![],
            LanguageType::Kotlin => seq![],
            LanguageType::Makefile => seq![],
            LanguageType::Markdown => seq![],
            LanguageType::Python => seq!["python", "python2", "python3"],
            LanguageType::Ruby => seq!["ruby"],
            LanguageType::Rust => seq![],
            LanguageType::Sh => seq!["sh"],
            LanguageType::Sql => seq![],
            LanguageType::Text => seq![],
            LanguageType::Toml => seq![],
            LanguageType::TypeScript => seq![],
            LanguageType::Xml => seq![],
            LanguageType::Yaml => seq![],
        }
    }

    /// Prefixes of the program named after `#!/usr/bin/env` that identify the language.
    pub fn env_hints(self) -> (r: Vec<&'static str>)
        ensures
            r@ == self.spec_env_hints(),
    {
        match self {
            LanguageType::Bash => vec!["bash"],
            LanguageType::C => Vec::new(),
            LanguageType::CHeader => Vec::new(),
            LanguageType::Cpp => Vec::new(),
            LanguageType::CppHeader => Vec::new(),
            LanguageType::CSharp => Vec::new(),
            LanguageType::Css => Vec::new(),
            LanguageType::D => Vec::new(),
            LanguageType::Dockerfile => Vec::new(),
            LanguageType::FortranLegacy => Vec::new(),
            LanguageType::FortranModern => Vec::new(),
            LanguageType::Go => Vec::new(),
            LanguageType::Haskell => Vec::new(),
            LanguageType::Html => Vec::new(),
            LanguageType::Java => Vec::new(),
            LanguageType::JavaScript => vec!["node", "nodejs"],
            LanguageType::Json => Vec::new(),
            LanguageType::Kotlin => Vec::new(),
            LanguageType::Makefile => Vec::new(),
            LanguageType::Markdown => Vec::new(),
            LanguageType::Python => vec!["python", "python2", "python3"],
            LanguageType::Ruby => vec!["ruby"],
            LanguageType::Rust => Vec::new(),
            LanguageType::Sh => vec!["sh"],
            LanguageType::Sql => Vec::new(),
            LanguageType::Text => Vec::new(),
            LanguageType::Toml => Vec::new(),
            LanguageType::TypeScript => Vec::new(),
            LanguageType::Xml => Vec::new(),
            LanguageType::Yaml => Vec::new(),
        }
    }

    pub open spec fn spec_extensions(self) -> Seq<&'static str> {
        match self {
            LanguageType::Bash => seq!["bash"],
            LanguageType::C => seq!["c", "ec", "pgc"],
            LanguageType::CHeader => seq!["h"],
            LanguageType::Cpp => seq!["cc", "cpp", "cxx", "c++", "pcc", "tpp"],
            LanguageType::CppHeader => seq!["hh", "hpp", "hxx", "inl", "ipp"],
            LanguageType::CSharp => seq!["cs", "csx"],
            LanguageType::Css => seq!["css"],
            LanguageType::D => seq!["d"],
            LanguageType::Dockerfile => seq!["dockerfile", "dockerignore"],
            LanguageType::FortranLegacy => seq!["f", "for", "ftn", "f77", "pfo"],
            LanguageType::FortranModern => seq!["f03", "f08", "f90", "f95"],
            LanguageType::Go => seq!["go"],
            LanguageType::Haskell => seq!["hs"],
            LanguageType::Html => seq!["html", "htm"],
            LanguageType::Java => seq!["java"],
            LanguageType::JavaScript => seq!["cjs", "js", "mjs"],
            LanguageType::Json => seq!["json"],
            LanguageType::Kotlin => seq!["kt", "kts"],
            LanguageType::Makefile => seq!["makefile", "mak", "mk"],
            LanguageType::Markdown => seq!["md", "markdown"],
            LanguageType::Python => seq!["py", "pyw", "pyi"],
            LanguageType::Ruby => seq!["rb"],
            LanguageType::Rust => seq!["rs"],
            LanguageType::Sh => seq!["sh"],
            LanguageType::Sql => seq!["sql"],
            LanguageType::Text => seq!["text", "txt"],
            LanguageType::Toml => seq!["toml"],
            LanguageType::TypeScript => seq!["ts", "mts", "cts"],
            LanguageType::Xml => seq!["xml"],
            LanguageType::Yaml => seq!["yaml", "yml"],
        }
    }

    /// The file extensions of the language, matched case-sensitively.
    pub fn extensions(self) -> (r: Vec<&'static str>)
        ensures
            r@ == self.spec_extensions(),
    {
        match self {
            LanguageType::Bash => vec!["bash"],
            LanguageType::C => vec!["c", "ec", "pgc"],
            LanguageType::CHeader => vec!["h"],
            LanguageType::Cpp => vec!["cc", "cpp", "cxx", "c++", "pcc", "tpp"],
            LanguageType::CppHeader => vec!["hh", "hpp", "hxx", "inl", "ipp"],
            LanguageType::CSharp => vec!["cs", "csx"],
            LanguageType::Css => vec!["css"],
            LanguageType::D => vec!["d"],
            LanguageType::Dockerfile => vec!["dockerfile", "dockerignore"],
            LanguageType::FortranLegacy => vec!["f", "for", "ftn", "f77", "pfo"],
            LanguageType::FortranModern => vec!["f03", "f08", "f90", "f95"],
            LanguageType::Go => vec!["go"],
            LanguageType::Haskell => vec!["hs"],
            LanguageType::Html => vec!["html", "htm"],
            LanguageType::Java => vec!["java"],
            LanguageType::JavaScript => vec!["cjs", "js", "mjs"],
            LanguageType::Json => vec!["json"],
            LanguageType::Kotlin => vec!["kt", "kts"],
            LanguageType::Makefile => vec!["makefile", "mak", "mk"],
            LanguageType::Markdown => vec!["md", "markdown"],
            LanguageType::Python => vec!["py", "pyw", "pyi"],
            LanguageType::Ruby => vec!["rb"],
            LanguageType::Rust => vec!["rs"],
            LanguageType::Sh => vec!["sh"],
            LanguageType::Sql => vec!["sql"],
            LanguageType::Text => vec!["text", "txt"],
            LanguageType::Toml => vec!["toml"],
            LanguageType::TypeScript => vec!["ts", "mts", "cts"],
            LanguageType::Xml => vec!["xml"],
            LanguageType::Yaml => vec!["yaml", "yml"],
        }
    }

    pub open spec fn spec_filenames(self) -> Seq<&'static str> {
        match self {
            LanguageType::Bash => seq![],
            LanguageType::C => seq![],
            LanguageType::CHeader => seq![],
            LanguageType::Cpp => seq![],
            LanguageType::CppHeader => seq![],
            LanguageType::CSharp => seq![],
            LanguageType::Css => seq![],
            LanguageType::D => seq![],
            LanguageType::Dockerfile => seq!["Dockerfile"],
            LanguageType::FortranLegacy => seq![],
            LanguageType::FortranModern => seq![],
            LanguageType::Go => seq![],
            LanguageType::Haskell => seq![],
            LanguageType::Html => seq![],
            LanguageType::Java => seq![],
            LanguageType::JavaScript => seq![],
            LanguageType::Json => seq![],
            LanguageType::Kotlin => seq![],
            LanguageType::Makefile => seq!["Makefile", "makefile", "GNUmakefile"],
            LanguageType::Markdown => seq![],
            LanguageType::Python => seq![],
            LanguageType::Ruby => seq!["Rakefile", "Gemfile"],
            LanguageType::Rust => seq![],
            LanguageType::Sh => seq![],
            LanguageType::Sql => seq![],
            LanguageType::Text => seq![],
            LanguageType::Toml => seq![],
            LanguageType::TypeScript => seq![],
            LanguageType::Xml => seq![],
            LanguageType::Yaml => seq![],
        }
    }

    /// Whole file names that identify the language.
    pub fn filenames(self) -> (r: Vec<&'static str>)
        ensures
            r@ == self.spec_filenames(),
    {
        match self {
            LanguageType::Bash => Vec::new(),
            LanguageType::C => Vec::new(),
            LanguageType::CHeader => Vec::new(),
            LanguageType::Cpp => Vec::new(),
            LanguageType::CppHeader => Vec::new(),
            LanguageType::CSharp => Vec::new(),
            LanguageType::Css => Vec::new(),
            LanguageType::D => Vec::new(),
            LanguageType::Dockerfile => vec!["Dockerfile"],
            LanguageType::FortranLegacy => Vec::new(),
            LanguageType::FortranModern => Vec::new(),
            LanguageType::Go => Vec::new(),
            LanguageType::Haskell => Vec::new(),
            LanguageType::Html => Vec::new(),
            LanguageType::Java => Vec::new(),
            LanguageType::JavaScript => Vec::new(),
            LanguageType::Json => Vec::new(),
            LanguageType::Kotlin => Vec::new(),
            LanguageType::Makefile => vec!["Makefile", "makefile", "GNUmakefile"],
            LanguageType::Markdown => Vec::new(),
            LanguageType::Python => Vec::new(),
            LanguageType::Ruby => vec!["Rakefile", "Gemfile"],
            LanguageType::Rust => Vec::new(),
            LanguageType::Sh => Vec::new(),
            LanguageType::Sql => Vec::new(),
            LanguageType::Text => Vec::new(),
            LanguageType::Toml => Vec::new(),
            LanguageType::TypeScript => Vec::new(),
            LanguageType::Xml => Vec::new(),
            LanguageType::Yaml => Vec::new(),
        }
    }

    pub open spec fn spec_mime_types(self) -> Seq<&'static str> {
        match self {
            LanguageType::Bash => seq![],
            LanguageType::C => seq![],
            LanguageType::CHeader => seq![],
            LanguageType::Cpp => seq![],
            LanguageType::CppHeader => seq![],
            LanguageType::CSharp => seq![],
            LanguageType::Css => seq!["text/css"],
            LanguageType::D => seq![],
            LanguageType::Dockerfile => seq![],
            LanguageType::FortranLegacy => seq![],
            LanguageType::FortranModern => seq![],
            LanguageType::Go => seq![],
            LanguageType::Haskell => seq![],
            LanguageType::Html => seq!["text/html"],
            LanguageType::Java => seq![],
            LanguageType::JavaScript => seq!["application/javascript", "text/javascript"],
            LanguageType::Json => seq!["application/json"],
            LanguageType::Kotlin => seq![],
            LanguageType::Makefile => seq![],
            LanguageType::Markdown => seq!["text/markdown"],
            LanguageType::Python => seq!["text/x-python"],
            LanguageType::Ruby => seq![],
            LanguageType::Rust => seq![],
            LanguageType::Sh => seq![],
            LanguageType::Sql => seq![],
            LanguageType::Text => seq!["text/plain"],
            LanguageType::Toml => seq![],
            LanguageType::TypeScript => seq!["application/typescript"],
            LanguageType::Xml => seq!["text/xml", "application/xml"],
            LanguageType::Yaml => seq![],
        }
    }

    /// The MIME types of the language.
    pub fn mime_types(self) -> (r: Vec<&'static str>)
        ensures
            r@ == self.spec_mime_types(),
    {
        match self {
            LanguageType::Bash => Vec::new(),
            LanguageType::C => Vec::new(),
            LanguageType::CHeader => Vec::new(),
            LanguageType::Cpp => Vec::new(),
            LanguageType::CppHeader => Vec::new(),
            LanguageType::CSharp => Vec::new(),
            LanguageType::Css => vec!["text/css"],
            LanguageType::D => Vec::new(),
            LanguageType::Dockerfile => Vec::new(),
            LanguageType::FortranLegacy => Vec::new(),
            LanguageType::FortranModern => Vec::new(),
            LanguageType::Go => Vec::new(),
            LanguageType::Haskell => Vec::new(),
            LanguageType::Html => vec!["text/html"],
            LanguageType::Java => Vec::new(),
            LanguageType::JavaScript => vec!["application/javascript", "text/javascript"],
            LanguageType::Json => vec!["application/json"],
            LanguageType::Kotlin => Vec::new(),
            LanguageType::Makefile => Vec::new(),
            LanguageType::Markdown => vec!["text/markdown"],
            LanguageType::Python => vec!["text/x-python"],
            LanguageType::Ruby => Vec::new(),
            LanguageType::Rust => Vec::new(),
            LanguageType::Sh => Vec::new(),
            LanguageType::Sql => Vec::new(),
            LanguageType::Text => vec!["text/plain"],
            LanguageType::Toml => Vec::new(),
            LanguageType::TypeScript => vec!["application/typescript"],
            LanguageType::Xml => vec!["text/xml", "application/xml"],
            LanguageType::Yaml => Vec::new(),
        }
    }

    pub open spec fn spec_fences(self) -> Seq<(&'static str, &'static str)> {
        match self {
            LanguageType::Bash => seq![],
            LanguageType::C => seq![],
            LanguageType::CHeader => seq![],
            LanguageType::Cpp => seq![],
            LanguageType::CppHeader => seq![],
            LanguageType::CSharp => seq![],
            LanguageType::Css => seq![],
            LanguageType::D => seq![],
            LanguageType::Dockerfile => seq![],
            LanguageType::FortranLegacy => seq![],
            LanguageType::FortranModern => seq![],
            LanguageType::Go => seq![],
            LanguageType::Haskell => seq![],
            LanguageType::Html => seq![],
            LanguageType::Java => seq![],
            LanguageType::JavaScript => seq![],
            LanguageType::Json => seq![],
            LanguageType::Kotlin => seq![],
            LanguageType::Makefile => seq![],
            LanguageType::Markdown => seq![("```", "```")],
            LanguageType::Python => seq![],
            LanguageType::Ruby => seq![],
            LanguageType::Rust => seq![],
            LanguageType::Sh => seq![],
            LanguageType::Sql => seq![],
            LanguageType::Text => seq![],
            LanguageType::Toml => seq![],
            LanguageType::TypeScript => seq![],
            LanguageType::Xml => seq![],
            LanguageType::Yaml => seq![],
        }
    }

    /// The delimiters of fenced code blocks in a literate language.
    pub fn fences(self) -> (r: Vec<(&'static str, &'static str)>)
        ensures
            r@ == self.spec_fences(),
    {
        match self {
            LanguageType::Bash => Vec::new(),
            LanguageType::C => Vec::new(),
            LanguageType::CHeader => Vec::new(),
            LanguageType::Cpp => Vec::new(),
            LanguageType::CppHeader => Vec::new(),
            LanguageType::CSharp => Vec::new(),
            LanguageType::Css => Vec::new(),
            LanguageType::D => Vec::new(),
            LanguageType::Dockerfile => Vec::new(),
            LanguageType::FortranLegacy => Vec::new(),
            LanguageType::FortranModern => Vec::new(),
            LanguageType::Go => Vec::new(),
            LanguageType::Haskell => Vec::new(),
            LanguageType::Html => Vec::new(),
            LanguageType::Java => Vec::new(),
            LanguageType::JavaScript => Vec::new(),
            LanguageType::Json => Vec::new(),
            LanguageType::Kotlin => Vec::new(),
            LanguageType::Makefile => Vec::new(),
            LanguageType::Markdown => vec![("```", "```")],
            LanguageType::Python => Vec::new(),
            LanguageType::Ruby => Vec::new(),
            LanguageType::Rust => Vec::new(),
            LanguageType::Sh => Vec::new(),
            LanguageType::Sql => Vec::new(),
            LanguageType::Text => Vec::new(),
            LanguageType::Toml => Vec::new(),
            LanguageType::TypeScript => Vec::new(),
            LanguageType::Xml => Vec::new(),
            LanguageType::Yaml => Vec::new(),
        }
    }

    pub open spec fn spec_extra_important_syntax(self) -> Seq<&'static str> {
        match self {
            LanguageType::Bash => seq![],
            LanguageType::C => seq![],
            LanguageType::CHeader => seq![],
            LanguageType::Cpp => seq![],
            LanguageType::CppHeader => seq![],
            LanguageType::CSharp => seq![],
            LanguageType::Css => seq![],
            LanguageType::D => seq![],
            LanguageType::Dockerfile => seq![],
            LanguageType::FortranLegacy => seq![],
            LanguageType::FortranModern => seq![],
            LanguageType::Go => seq![],
            LanguageType::Haskell => seq![],
            LanguageType::Html => seq![],
            LanguageType::Java => seq![],
            LanguageType::JavaScript => seq![],
            LanguageType::Json => seq![],
            LanguageType::Kotlin => seq![],
            LanguageType::Makefile => seq![],
            LanguageType::Markdown => seq![],
            LanguageType::Python => seq![],
            LanguageType::Ruby => seq![],
            LanguageType::Rust => seq!["///", "//!"],
            LanguageType::Sh => seq![],
            LanguageType::Sql => seq![],
            LanguageType::Text => seq![],
            LanguageType::Toml => seq![],
            LanguageType::TypeScript => seq![],
            LanguageType::Xml => seq![],
            LanguageType::Yaml => seq![],
        }
    }

    /// Markers that matter to the classifier besides the string and comment openers.
    pub(crate) fn extra_important_syntax(self) -> (r: Vec<&'static str>)
        ensures
            r@ == self.spec_extra_important_syntax(),
    {
        match self {
            LanguageType::Bash => Vec::new(),
            LanguageType::C => Vec::new(),
            LanguageType::CHeader => Vec::new(),
            LanguageType::Cpp => Vec::new(),
            LanguageType::CppHeader => Vec::new(),
            LanguageType::CSharp => Vec::new(),
            LanguageType::Css => Vec::new(),
            LanguageType::D => Vec::new(),
            LanguageType::Dockerfile => Vec::new(),
            LanguageType::FortranLegacy => Vec::new(),
            LanguageType::FortranModern => Vec::new(),
            LanguageType::Go => Vec::new(),
            LanguageType::Haskell => Vec::new(),
            LanguageType::Html => Vec::new(),
            LanguageType::Java => Vec::new(),
            LanguageType::JavaScript => Vec::new(),
            LanguageType::Json => Vec::new(),
            LanguageType::Kotlin => Vec::new(),
            LanguageType::Makefile => Vec::new(),
            LanguageType::Markdown => Vec::new(),
            LanguageType::Python => Vec::new(),
            LanguageType::Ruby => Vec::new(),
            LanguageType::Rust => vec!["///", "//!"],
            LanguageType::Sh => Vec::new(),
            LanguageType::Sql => Vec::new(),
            LanguageType::Text => Vec::new(),
            LanguageType::Toml => Vec::new(),
            LanguageType::TypeScript => Vec::new(),
            LanguageType::Xml => Vec::new(),
            LanguageType::Yaml => Vec::new(),
        }
    }

    pub open spec fn spec_contexts(self) -> Seq<(&'static str, &'static str, LanguageType)> {
        match self {
            LanguageType::Bash => seq![],
            LanguageType::C => seq![],
            LanguageType::CHeader => seq![],
            LanguageType::Cpp => seq![],
            LanguageType::CppHeader => seq![],
            LanguageType::CSharp => seq![],
            LanguageType::Css => seq![],
            LanguageType::D => seq![],
            LanguageType::Dockerfile => seq![],
            LanguageType::FortranLegacy => seq![],
            LanguageType::FortranModern => seq![],
            LanguageType::Go => seq![],
            LanguageType::Haskell => seq![],
            LanguageType::Html => seq![("<script", "</script>", LanguageType::JavaScript), ("<style", "</style>", LanguageType::Css)],
            LanguageType::Java => seq![],
            LanguageType::JavaScript => seq![],
            LanguageType::Json => seq![],
            LanguageType::Kotlin => seq![],
            LanguageType::Makefile => seq![],
            LanguageType::Markdown => seq![],
            LanguageType::Python => seq![],
            LanguageType::Ruby => seq![],
            LanguageType::Rust => seq![],
            LanguageType::Sh => seq![],
            LanguageType::Sql => seq![],
            LanguageType::Text => seq![],
            LanguageType::Toml => seq![],
            LanguageType::TypeScript => seq![],
            LanguageType::Xml => seq![],
            LanguageType::Yaml => seq![],
        }
    }

    /// Regions written in another language: the opening marker, the closing marker and the embedded language.
    pub fn contexts(self) -> (r: Vec<(&'static str, &'static str, LanguageType)>)
        ensures
            r@ == self.spec_contexts(),
    {
        match self {
            LanguageType::Bash => Vec::new(),
            LanguageType::C => Vec::new(),
            LanguageType::CHeader => Vec::new(),
            LanguageType::Cpp => Vec::new(),
            LanguageType::CppHeader => Vec::new(),
            LanguageType::CSharp => Vec::new(),
            LanguageType::Css => Vec::new(),
            LanguageType::D => Vec::new(),
            LanguageType::Dockerfile => Vec::new(),
            LanguageType::FortranLegacy => Vec::new(),
            LanguageType::FortranModern => Vec::new(),
            LanguageType::Go => Vec::new(),
            LanguageType::Haskell => Vec::new(),
            LanguageType::Html => vec![("<script", "</script>", LanguageType::JavaScript), ("<style", "</style>", LanguageType::Css)],
            LanguageType::Java => Vec::new(),
            LanguageType::JavaScript => Vec::new(),
            LanguageType::Json => Vec::new(),
            LanguageType::Kotlin => Vec::new(),
            LanguageType::Makefile => Vec::new(),
            LanguageType::Markdown => Vec::new(),
            LanguageType::Python => Vec::new(),
            LanguageType::Ruby => Vec::new(),
            LanguageType::Rust => Vec::new(),
            LanguageType::Sh => Vec::new(),
            LanguageType::Sql => Vec::new(),
            LanguageType::Text => Vec::new(),
            LanguageType::Toml => Vec::new(),
            LanguageType::TypeScript => Vec::new(),
            LanguageType::Xml => Vec::new(),
            LanguageType::Yaml => Vec::new(),
        }
    }

    /// Every language of the registry, in table order.
    pub fn all() -> (r: Vec<LanguageType>)
        ensures
            r@ == all_languages(),
    {
        vec![LanguageType::Bash, LanguageType::C, LanguageType::CHeader, LanguageType::Cpp, LanguageType::CppHeader, LanguageType::CSharp, LanguageType::Css, LanguageType::D, LanguageType::Dockerfile, LanguageType::FortranLegacy, LanguageType::FortranModern, LanguageType::Go, LanguageType::Haskell, LanguageType::Html, LanguageType::Java, LanguageType::JavaScript, LanguageType::Json, LanguageType::Kotlin, LanguageType::Makefile, LanguageType::Markdown, LanguageType::Python, LanguageType::Ruby, LanguageType::Rust, LanguageType::Sh, LanguageType::Sql, LanguageType::Text, LanguageType::Toml, LanguageType::TypeScript, LanguageType::Xml, LanguageType::Yaml]
    }

    pub open spec fn spec_is_fortran(self) -> bool {
        self == LanguageType::FortranModern || self == LanguageType::FortranLegacy
    }

    /// Whether the language is one of the two Fortran dialects.
    pub(crate) fn is_fortran(self) -> (r: bool)
        ensures
            r == self.spec_is_fortran(),
    {
        self == LanguageType::FortranModern || self == LanguageType::FortranLegacy
    }

    /// Multi-line comment delimiters of both kinds: the plain ones, then the nesting ones.
    pub(crate) fn any_multi_line_comments(self) -> (r: Vec<(&'static str, &'static str)>)
        ensures
            r@ == self.spec_multi_line_comments() + self.spec_nested_comments(),
    {
        let mut r = self.multi_line_comments();
        let mut nested = self.nested_comments();
        r.append(&mut nested);
        r
    }

    pub open spec fn spec_any_comments(self) -> Seq<&'static str> {
        pair_items(self.spec_multi_line_comments() + self.spec_nested_comments()) + self.spec_line_comments()
    }

    /// Every comment delimiter: start and end of each multi-line pair, then the line markers.
    pub(crate) fn any_comments(self) -> (r: Vec<&'static str>)
        ensures
            r@ == self.spec_any_comments(),
    {
        let pairs = self.any_multi_line_comments();
        let mut r: Vec<&'static str> = Vec::new();
        let mut k: usize = 0;
        while k < pairs.len()
            invariant
                k <= pairs@.len(),
                r@ == pair_items(pairs@.subrange(0, k as int)),
            decreases pairs@.len() - k,
        {
            proof {
                lemma_pair_items_push(pairs@.subrange(0, k as int), pairs@[k as int]);
                assert(pairs@.subrange(0, k + 1) =~= pairs@.subrange(0, k as int).push(pairs@[k as int]));
            }
            r.push(pairs[k].0);
            r.push(pairs[k].1);
            k += 1;
        }
        assert(pairs@.subrange(0, pairs@.len() as int) =~= pairs@);
        let mut line = self.line_comments();
        r.append(&mut line);
        r
    }

    pub open spec fn spec_important_syntax(self) -> Seq<&'static str> {
        firsts(self.spec_quotes()) + firsts(self.spec_doc_quotes()) + firsts(self.spec_multi_line_comments())
            + firsts(self.spec_nested_comments()) + self.spec_extra_important_syntax()
            + context_openers(self.spec_contexts())
    }

    /// The markers whose absence from a line lets the classifier treat it
    /// without looking for strings or comments: string, doc string and
    /// comment openers, the extra markers of the language, and the openers of
    /// embedded regions.
    pub fn important_syntax(self) -> (r: Vec<&'static str>)
        ensures
            r@ == self.spec_important_syntax(),
    {
        let mut r = first_items(&self.quotes());
        let mut d = first_items(&self.doc_quotes());
        r.append(&mut d);
        let mut m = first_items(&self.multi_line_comments());
        r.append(&mut m);
        let mut n = first_items(&self.nested_comments());
        r.append(&mut n);
        let mut e = self.extra_important_syntax();
        r.append(&mut e);
        let ctx = self.contexts();
        let mut k: usize = 0;
        let ghost base = r@;
        while k < ctx.len()
            invariant
                k <= ctx@.len(),
                r@ == base + context_openers(ctx@.subrange(0, k as int)),
            decreases ctx@.len() - k,
        {
            proof {
                assert(ctx@.subrange(0, k + 1).drop_last() =~= ctx@.subrange(0, k as int));
            }
            r.push(ctx[k].0);
            k += 1;
            proof {
                assert(base + context_openers(ctx@.subrange(0, k as int)) =~= r@);
            }
        }
        assert(ctx@.subrange(0, ctx@.len() as int) =~= ctx@);
        r
    }

    /// Every language with its file extensions, in table order.
    pub fn list() -> (r: Vec<(LanguageType, Vec<&'static str>)>)
        ensures
            r@.len() == all_languages().len(),
            forall|k: int|
                0 <= k < r@.len() ==> (#[trigger] r@[k]).0 == all_languages()[k]
                    && r@[k].1@ == all_languages()[k].spec_extensions(),
    {
        let all = LanguageType::all();
        let mut r: Vec<(LanguageType, Vec<&'static str>)> = Vec::new();
        let mut k: usize = 0;
        while k < all.len()
            invariant
                all@ == all_languages(),
                k <= all@.len(),
                r@.len() == k,
                forall|j: int|
                    0 <= j < k ==> (#[trigger] r@[j]).0 == all_languages()[j]
                        && r@[j].1@ == all_languages()[j].spec_extensions(),
            decreases all@.len() - k,
        {
            let l = all[k];
            r.push((l, l.extensions()));
            k += 1;
        }
        r
    }

    /// The language that a file extension identifies, matched case-sensitively.
    pub fn from_file_extension(extension: &str) -> (r: Option<LanguageType>)
        ensures
            r == language_of_extension(bytes_of(extension)),
    {
        find_language(Matcher::Extension, extension.as_bytes())
    }

    /// The language that a MIME type identifies.
    pub fn from_mime(mime: &str) -> (r: Option<LanguageType>)
        ensures
            r == language_of_mime(bytes_of(mime)),
    {
        find_language(Matcher::Mime, mime.as_bytes())
    }

    /// The language that a file's whole name identifies.
    pub fn from_filename(name: &str) -> (r: Option<LanguageType>)
        ensures
            r == first_language(Matcher::Filename, bytes_of(name), 0),
    {
        find_language(Matcher::Filename, name.as_bytes())
    }

    /// The language whose display name, lower-cased, equals `name` lower-cased.
    pub fn from_name(name: &str) -> (r: Option<LanguageType>)
        ensures
            r == language_named(name@, 0),
    {
        let key = lowercase(name);
        let all = LanguageType::all();
        let mut k: usize = 0;
        while k < all.len()
            invariant
                all@ == all_languages(),
                k <= all@.len(),
                key@ == lower_of(name@),
                language_named(name@, 0) == language_named(name@, k as int),
            decreases all@.len() - k,
        {
            let n = lowercase(all[k].name());
            if n == key {
                return Some(all[k]);
            }
            k += 1;
        }
        None
    }

    /// The language that the first line of a file names as its interpreter:
    /// its first word is a known interpreter path, or it is `#!/usr/bin/env`
    /// and the second word starts with a known program name.
    pub fn from_shebang(first_line: &str) -> (r: Option<LanguageType>)
        ensures
            r == language_of_shebang(bytes_of(first_line)),
    {
        shebang_language(first_line.as_bytes())
    }

    /// Resolves a file: by its whole name, else by its extension, else by the
    /// interpreter named on its first line.
    pub fn from_path(path: &str, first_line: &str) -> (r: Option<LanguageType>)
        ensures
            r == language_of_path(bytes_of(path), bytes_of(first_line)),
    {
        let p = path.as_bytes();
        let start = name_start(p);
        let by_name = find_language_in(Matcher::Filename, p, start, p.len());
        if by_name.is_some() {
            return by_name;
        }
        let dot = last_dot(p, start);
        if dot > start {
            let by_ext = find_language_in(Matcher::Extension, p, dot + 1, p.len());
            if by_ext.is_some() {
                return by_ext;
            }
        }
        shebang_language(first_line.as_bytes())
    }
}

pub open spec fn pair_items(ps: Seq<(&'static str, &'static str)>) -> Seq<&'static str>
    decreases ps.len(),
{
    if ps.len() == 0 {
        seq![]
    } else {
        pair_items(ps.drop_last()) + seq![ps.last().0, ps.last().1]
    }
}

proof fn lemma_pair_items_push(ps: Seq<(&'static str, &'static str)>, p: (&'static str, &'static str))
    ensures
        pair_items(ps.push(p)) == pair_items(ps) + seq![p.0, p.1],
{
    assert(ps.push(p).drop_last() =~= ps);
}

pub open spec fn firsts(ps: Seq<(&'static str, &'static str)>) -> Seq<&'static str> {
    ps.map_values(|p: (&'static str, &'static str)| p.0)
}

pub open spec fn context_openers(cs: Seq<(&'static str, &'static str, LanguageType)>) -> Seq<&'static str> {
    cs.map_values(|c: (&'static str, &'static str, LanguageType)| c.0)
}

fn first_items(ps: &Vec<(&'static str, &'static str)>) -> (r: Vec<&'static str>)
    ensures
        r@ == firsts(ps@),
{
    let mut r: Vec<&'static str> = Vec::new();
    let mut k: usize = 0;
    while k < ps.len()
        invariant
            k <= ps@.len(),
            r@ =~= firsts(ps@.subrange(0, k as int)),
        decreases ps@.len() - k,
    {
        r.push(ps[k].0);
        k += 1;
        assert(r@ =~= firsts(ps@.subrange(0, k as int)));
    }
    assert(ps@.subrange(0, ps@.len() as int) =~= ps@);
    r
}

/// What a lookup compares an input with.
pub enum Matcher {
    Extension,
    Filename,
    Mime,
    Shebang,
    EnvHint,
}

/// Some entry of `ss` has exactly the bytes `b`.
pub open spec fn lists(ss: Seq<&'static str>, b: Seq<u8>) -> bool {
    exists|j: int| 0 <= j < ss.len() && bytes_of(#[trigger] ss[j]) == b
}

/// Some entry of `ss` is a prefix of `b`.
pub open spec fn lists_prefix(ss: Seq<&'static str>, b: Seq<u8>) -> bool {
    exists|j: int| 0 <= j < ss.len() && starts_with(b, bytes_of(#[trigger] ss[j]))
}

pub open spec fn entry_matches(l: LanguageType, m: Matcher, b: Seq<u8>) -> bool {
    match m {
        Matcher::Extension => lists(l.spec_extensions(), b),
        Matcher::Filename => lists(l.spec_filenames(), b),
        Matcher::Mime => lists(l.spec_mime_types(), b),
        Matcher::Shebang => lists(l.spec_shebangs(), b),
        Matcher::EnvHint => lists_prefix(l.spec_env_hints(), b),
    }
}

/// The first language of the table, from position `k` on, that `m` matches with `b`.
pub open spec fn first_language(m: Matcher, b: Seq<u8>, k: int) -> Option<LanguageType>
    decreases all_languages().len() - k,
{
    if k < 0 || k >= all_languages().len() {
        None
    } else if entry_matches(all_languages()[k], m, b) {
        Some(all_languages()[k])
    } else {
        first_language(m, b, k + 1)
    }
}

/// The first language of the table, from position `k` on, whose display
/// name lower-cased equals `name` lower-cased.
pub open spec fn language_named(name: Seq<char>, k: int) -> Option<LanguageType>
    decreases all_languages().len() - k,
{
    if k < 0 || k >= all_languages().len() {
        None
    } else if lower_of(all_languages()[k].spec_name()@) == lower_of(name) {
        Some(all_languages()[k])
    } else {
        language_named(name, k + 1)
    }
}

pub open spec fn language_of_extension(e: Seq<u8>) -> Option<LanguageType> {
    first_language(Matcher::Extension, e, 0)
}

pub open spec fn language_of_mime(m: Seq<u8>) -> Option<LanguageType> {
    first_language(Matcher::Mime, m, 0)
}

fn entries(l: LanguageType, m: &Matcher) -> (r: Vec<&'static str>)
    ensures
        *m is Extension ==> r@ == l.spec_extensions(),
        *m is Filename ==> r@ == l.spec_filenames(),
        *m is Mime ==> r@ == l.spec_mime_types(),
        *m is Shebang ==> r@ == l.spec_shebangs(),
        *m is EnvHint ==> r@ == l.spec_env_hints(),
{
    match m {
        Matcher::Extension => l.extensions(),
        Matcher::Filename => l.filenames(),
        Matcher::Mime => l.mime_types(),
        Matcher::Shebang => l.shebangs(),
        Matcher::EnvHint => l.env_hints(),
    }
}

fn language_matches(l: LanguageType, m: &Matcher, b: &[u8]) -> (r: bool)
    ensures
        r == entry_matches(l, *m, b@),
{
    let es = entries(l, m);
    let mut j: usize = 0;
    while j < es.len()
        invariant
            j <= es@.len(),
            *m is Extension ==> es@ == l.spec_extensions(),
            *m is Filename ==> es@ == l.spec_filenames(),
            *m is Mime ==> es@ == l.spec_mime_types(),
            *m is Shebang ==> es@ == l.spec_shebangs(),
            *m is EnvHint ==> es@ == l.spec_env_hints(),
            forall|i: int| 0 <= i < j ==> {
                match *m {
                    Matcher::EnvHint => !starts_with(b@, bytes_of(#[trigger] es@[i])),
                    _ => bytes_of(es@[i]) != b@,
                }
            },
        decreases es@.len() - j,
    {
        let e = es[j].as_bytes();
        let hit = match m {
            Matcher::EnvHint => has_prefix(b, e),
            _ => bytes_eq(e, b),
        };
        if hit {
            return true;
        }
        j += 1;
    }
    proof {
        match *m {
            Matcher::EnvHint => {
                assert(forall|i: int| 0 <= i < es@.len() ==> !starts_with(b@, bytes_of(#[trigger] es@[i])));
            },
            _ => {
                assert(forall|i: int| 0 <= i < es@.len() ==> bytes_of(#[trigger] es@[i]) != b@);
            },
        }
    }
    false
}

/// The first language of the table that `m` matches with `b`.
fn find_language(m: Matcher, b: &[u8]) -> (r: Option<LanguageType>)
    ensures
        r == first_language(m, b@, 0),
{
    let all = LanguageType::all();
    let mut k: usize = 0;
    while k < all.len()
        invariant
            all@ == all_languages(),
            k <= all@.len(),
            first_language(m, b@, 0) == first_language(m, b@, k as int),
        decreases all@.len() - k,
    {
        if language_matches(all[k], &m, b) {
            return Some(all[k]);
        }
        k += 1;
    }
    None
}

/// `find_language` on the bytes `b[from..to]`.
pub(crate) fn find_language_in(m: Matcher, b: &[u8], from: usize, to: usize) -> (r: Option<LanguageType>)
    requires
        from <= to <= b@.len(),
    ensures
        r == first_language(m, b@.subrange(from as int, to as int), 0),
{
    let part = vstd::slice::slice_subrange(b, from, to);
    find_language(m, part)
}

/// Position of the first non-whitespace byte at or after `i`.
pub open spec fn word_start(b: Seq<u8>, i: int) -> int
    decreases b.len() - i,
{
    if i < 0 || i >= b.len() {
        i
    } else if is_ws(b[i]) {
        word_start(b, i + 1)
    } else {
        i
    }
}

/// Position of the first whitespace byte at or after `i`.
pub open spec fn word_end(b: Seq<u8>, i: int) -> int
    decreases b.len() - i,
{
    if i < 0 || i >= b.len() {
        i
    } else if !is_ws(b[i]) {
        word_end(b, i + 1)
    } else {
        i
    }
}

pub open spec fn language_of_shebang(b: Seq<u8>) -> Option<LanguageType> {
    let s1 = word_start(b, 0);
    let e1 = word_end(b, s1);
    let s2 = word_start(b, e1);
    let e2 = word_end(b, s2);
    let first = b.subrange(s1, e1);
    if s1 == e1 {
        None
    } else if first_language(Matcher::Shebang, first, 0) is Some {
        first_language(Matcher::Shebang, first, 0)
    } else if first == bytes_of("#!/usr/bin/env") && s2 < e2 {
        first_language(Matcher::EnvHint, b.subrange(s2, e2), 0)
    } else {
        None
    }
}

fn skip_whitespace(b: &[u8], i: usize) -> (r: usize)
    requires
        i <= b@.len(),
    ensures
        r == word_start(b@, i as int),
        i <= r <= b@.len(),
{
    let mut j = i;
    while j < b.len() && is_whitespace(b[j])
        invariant
            i <= j <= b@.len(),
            word_start(b@, i as int) == word_start(b@, j as int),
        decreases b@.len() - j,
    {
        j += 1;
    }
    j
}

fn skip_word(b: &[u8], i: usize) -> (r: usize)
    requires
        i <= b@.len(),
    ensures
        r == word_end(b@, i as int),
        i <= r <= b@.len(),
{
    let mut j = i;
    while j < b.len() && !is_whitespace(b[j])
        invariant
            i <= j <= b@.len(),
            word_end(b@, i as int) == word_end(b@, j as int),
        decreases b@.len() - j,
    {
        j += 1;
    }
    j
}

pub(crate) fn shebang_language(b: &[u8]) -> (r: Option<LanguageType>)
    ensures
        r == language_of_shebang(b@),
{
    let s1 = skip_whitespace(b, 0);
    let e1 = skip_word(b, s1);
    let s2 = skip_whitespace(b, e1);
    let e2 = skip_word(b, s2);
    if s1 == e1 {
        return None;
    }
    let by_path = find_language_in(Matcher::Shebang, b, s1, e1);
    if by_path.is_some() {
        return by_path;
    }
    let first = vstd::slice::slice_subrange(b, s1, e1);
    if bytes_eq(first, "#!/usr/bin/env".as_bytes()) && s2 < e2 {
        find_language_in(Matcher::EnvHint, b, s2, e2)
    } else {
        None
    }
}

/// Start of the last path component: just after the last `/` before `i`.
pub open spec fn component_start(p: Seq<u8>, i: int) -> int
    decreases i,
{
    if i <= 0 {
        0
    } else if p[i - 1] == 47u8 {
        i
    } else {
        component_start(p, i - 1)
    }
}

/// Position of the last `.` before `i`, at or after `lo`; `lo - 1` if there is none.
pub open spec fn dot_before(p: Seq<u8>, lo: int, i: int) -> int
    decreases i - lo,
{
    if i <= lo {
        lo - 1
    } else if p[i - 1] == 46u8 {
        i - 1
    } else {
        dot_before(p, lo, i - 1)
    }
}

/// The file name of a path: what follows its last `/`.
pub open spec fn file_name(p: Seq<u8>) -> Seq<u8> {
    p.subrange(component_start(p, p.len() as int), p.len() as int)
}

/// The extension of a path: what follows the last `.` of its file name, where
/// that dot is not the name's first byte.
pub open spec fn extension_of(p: Seq<u8>) -> Option<Seq<u8>> {
    let s = component_start(p, p.len() as int);
    let d = dot_before(p, s, p.len() as int);
    if d > s {
        Some(p.subrange(d + 1, p.len() as int))
    } else {
        None
    }
}

pub open spec fn language_of_path(p: Seq<u8>, first_line: Seq<u8>) -> Option<LanguageType> {
    if first_language(Matcher::Filename, file_name(p), 0) is Some {
        first_language(Matcher::Filename, file_name(p), 0)
    } else if extension_of(p) is Some && language_of_extension(extension_of(p)->0) is Some {
        language_of_extension(extension_of(p)->0)
    } else {
        language_of_shebang(first_line)
    }
}

pub(crate) fn name_start(p: &[u8]) -> (r: usize)
    ensures
        r == component_start(p@, p@.len() as int),
        r <= p@.len(),
{
    let mut i = p.len();
    while i > 0 && p[i - 1] != 47u8
        invariant
            i <= p@.len(),
            component_start(p@, p@.len() as int) == component_start(p@, i as int),
        decreases i,
    {
        i -= 1;
    }
    i
}

pub(crate) fn last_dot(p: &[u8], lo: usize) -> (r: usize)
    requires
        lo <= p@.len(),
    ensures
        dot_before(p@, lo as int, p@.len() as int) > lo as int ==> r as int == dot_before(p@, lo as int, p@.len() as int),
        dot_before(p@, lo as int, p@.len() as int) <= lo as int ==> r <= lo,
        r < p@.len() || r <= lo,
{
    let mut i = p.len();
    while i > lo && p[i - 1] != 46u8
        invariant
            lo <= i <= p@.len(),
            dot_before(p@, lo as int, p@.len() as int) == dot_before(p@, lo as int, i as int),
        decreases i,
    {
        i -= 1;
    }
    if i > lo {
        i - 1
    } else {
        lo
    }
}

} // verus!
