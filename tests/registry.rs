use codewalker::analysis::resolve;
use codewalker::language::LanguageType;

#[test]
fn extension_lookup_is_case_sensitive() {
    assert_eq!(LanguageType::from_file_extension("rs"), Some(LanguageType::Rust));
    assert_eq!(LanguageType::from_file_extension("hpp"), Some(LanguageType::CppHeader));
    assert_eq!(LanguageType::from_file_extension("RS"), None);
    assert_eq!(LanguageType::from_file_extension("nope"), None);
}

#[test]
fn mime_lookup() {
    assert_eq!(LanguageType::from_mime("application/javascript"), Some(LanguageType::JavaScript));
    assert_eq!(LanguageType::from_mime("text/html"), Some(LanguageType::Html));
    assert_eq!(LanguageType::from_mime("image/png"), None);
}

#[test]
fn shebang_lookup() {
    assert_eq!(LanguageType::from_shebang("#!/bin/bash"), Some(LanguageType::Bash));
    assert_eq!(LanguageType::from_shebang("  #!/bin/sh -e"), Some(LanguageType::Sh));
    assert_eq!(LanguageType::from_shebang("#!/usr/bin/env python3"), Some(LanguageType::Python));
    assert_eq!(LanguageType::from_shebang("#!/usr/bin/env nodejs"), Some(LanguageType::JavaScript));
    assert_eq!(LanguageType::from_shebang("#!/usr/bin/env"), None);
    assert_eq!(LanguageType::from_shebang("#!/usr/bin/env zzz"), None);
    assert_eq!(LanguageType::from_shebang(""), None);
}

#[test]
fn path_lookup_prefers_filename_then_extension_then_shebang() {
    assert_eq!(LanguageType::from_path("a/b/Makefile", "#!/bin/bash"), Some(LanguageType::Makefile));
    assert_eq!(LanguageType::from_path("src/main.rs", "#!/bin/bash"), Some(LanguageType::Rust));
    assert_eq!(LanguageType::from_path("bin/tool", "#!/bin/bash"), Some(LanguageType::Bash));
    assert_eq!(LanguageType::from_path("x/.bashrc", "#!/bin/sh"), Some(LanguageType::Sh));
    assert_eq!(LanguageType::from_path("x/file.unknown", "#!/usr/bin/env ruby"), Some(LanguageType::Ruby));
    assert_eq!(LanguageType::from_path("x/file.unknown", "nothing"), None);
}

#[test]
fn resolve_reads_the_first_line() {
    assert_eq!(resolve("run", b"#!/usr/bin/env python\nprint(1)\n"), Some(LanguageType::Python));
    assert_eq!(resolve("run", b"print(1)\n#!/bin/bash\n"), None);
}

#[test]
fn names_and_syntax_tables() {
    assert_eq!(LanguageType::Cpp.name(), "C++");
    assert_eq!(LanguageType::Bash.name(), "BASH");
    assert_eq!(LanguageType::Rust.line_comments(), vec!["//"]);
    assert_eq!(LanguageType::Rust.multi_line_comments(), vec![("/*", "*/")]);
    assert!(LanguageType::Rust.allows_nested());
    assert_eq!(LanguageType::D.nested_comments(), vec![("/+", "+/")]);
    assert_eq!(LanguageType::C.quotes(), vec![("\"", "\"")]);
    assert_eq!(LanguageType::CSharp.verbatim_quotes(), vec![("@\"", "\"")]);
    assert_eq!(LanguageType::Python.doc_quotes(), vec![("\"\"\"", "\"\"\""), ("'''", "'''")]);
    assert_eq!(LanguageType::Bash.shebangs(), vec!["#!/bin/bash"]);
    assert!(LanguageType::Markdown.is_literate());
    assert!(!LanguageType::Rust.is_literate());
    assert_eq!(LanguageType::Html.important_syntax(), vec!["<!--", "<script", "<style"]);
    assert_eq!(LanguageType::from_name("c#"), Some(LanguageType::CSharp));
    assert_eq!(LanguageType::from_name("RUST"), Some(LanguageType::Rust));
    assert_eq!(LanguageType::from_name("cobol"), None);
    assert_eq!(LanguageType::from_name("\u{212A}otlin"), Some(LanguageType::Kotlin));
}

#[test]
fn list_covers_every_language() {
    let list = LanguageType::list();
    assert_eq!(list.len(), LanguageType::all().len());
    assert!(list.iter().any(|(l, exts)| *l == LanguageType::Rust && exts == &vec!["rs"]));
}
