use formlogic_core::imports::{parse_import_line, resolve_imports};
use formlogic_core::text::is_white_space;

#[test]
fn test_parse_import_double_quotes() {
    assert_eq!(parse_import_line(r#"import "./cards.logic""#), Some("./cards.logic".to_string()));
}

#[test]
fn test_parse_import_single_quotes() {
    assert_eq!(parse_import_line("import './cards.logic'"), Some("./cards.logic".to_string()));
}

#[test]
fn test_parse_import_with_semicolon() {
    assert_eq!(parse_import_line(r#"import "./cards.logic";"#), Some("./cards.logic".to_string()));
}

#[test]
fn test_parse_not_import() {
    assert_eq!(parse_import_line("let x = 5"), None);
    assert_eq!(parse_import_line("// import './foo'"), None);
    // import with from (ES module style) should NOT match
    assert_eq!(parse_import_line(r#"import { foo } from "./bar""#), None);
}

#[test]
fn test_resolve_basic() {
    let source = "let x = 1\nimport \"./a.logic\"\nlet y = 2\n";
    let result = resolve_imports(source, &|path: &str| {
        if path == "./a.logic" {
            Some("let a = 10".to_string())
        } else {
            None
        }
    });
    assert!(result.contains("let x = 1"));
    assert!(result.contains("let a = 10"));
    assert!(result.contains("let y = 2"));
    assert!(!result.contains("import"));
}

#[test]
fn test_resolve_nested() {
    let source = "import \"./a.logic\"\n";
    let result = resolve_imports(source, &|path: &str| match path {
        "./a.logic" => Some("import \"./b.logic\"\nlet a = 1".to_string()),
        "./b.logic" => Some("let b = 2".to_string()),
        _ => None,
    });
    assert!(result.contains("let b = 2"));
    assert!(result.contains("let a = 1"));
}

#[test]
fn test_resolve_circular() {
    let source = "import \"./a.logic\"\n";
    let result = resolve_imports(source, &|path: &str| match path {
        "./a.logic" => Some("import \"./b.logic\"\nlet a = 1".to_string()),
        "./b.logic" => Some("import \"./a.logic\"\nlet b = 2".to_string()),
        _ => None,
    });
    // Should not infinite loop; both files included once
    assert!(result.contains("let a = 1"));
    assert!(result.contains("let b = 2"));
}

#[test]
fn import_lines_that_are_almost_right() {
    assert_eq!(parse_import_line("import"), None);
    assert_eq!(parse_import_line("importx './a'"), None);
    assert_eq!(parse_import_line("import'./a'"), None);
    assert_eq!(parse_import_line("import './a"), None);
    assert_eq!(parse_import_line("import './a' extra"), None);
    assert_eq!(parse_import_line("import './a';;"), None);
    assert_eq!(parse_import_line("import ./a"), None);
    assert_eq!(parse_import_line("import \t './a'  ;  "), Some("./a".to_string()));
    assert_eq!(parse_import_line("import ''"), Some(String::new()));
}

#[test]
fn text_without_imports_keeps_its_lines() {
    let none = |_: &str| None;
    assert_eq!(resolve_imports("a\nb", &none), "a\nb\n");
    assert_eq!(resolve_imports("a\r\n\nb\r", &none), "a\n\nb\r\n");
    assert_eq!(resolve_imports("", &none), "");
}

#[test]
fn marks_are_stripped_and_missing_files_leave_a_gap() {
    let files = |path: &str| {
        if path == "a" {
            Some("\u{FEFF}one\ntwo".to_string())
        } else {
            None
        }
    };
    assert_eq!(resolve_imports("\u{FEFF}import 'a'\nimport 'b'\nend", &files), "one\ntwo\n\n\nend\n");
}

#[test]
fn a_second_import_is_empty() {
    let files = |_: &str| Some("text".to_string());
    assert_eq!(resolve_imports("import 'a'\n  import \"a\" ;\n", &files), "text\n\n\n");
}

#[test]
fn no_import_is_left_after_resolving() {
    let files = |path: &str| match path {
        "a" => Some("x\nimport 'b'\nimport 'c'\r\n".to_string()),
        "b" => Some("import 'a'\ny".to_string()),
        _ => None,
    };
    let result = resolve_imports("import 'a'\nz", &files);
    assert_eq!(result, "x\n\ny\n\n\n\nz\n");
    for line in result.lines() {
        assert_eq!(parse_import_line(line.trim()), None);
    }
}

#[test]
fn white_space_is_that_of_unicode() {
    for n in 0..=0x10_ffffu32 {
        if let Some(c) = char::from_u32(n) {
            assert_eq!(is_white_space(c), c.is_whitespace(), "{}", n);
        }
    }
}

#[test]
fn resolving_a_resolved_text_returns_it() {
    let files = |path: &str| match path {
        "./a" => Some("let a = 1\nimport \"./b\"".to_string()),
        "./b" => Some("let b = 2".to_string()),
        _ => None,
    };
    let r = resolve_imports("import \"./a\"\nimport \"./none\"\nlet c = 3", &files);
    assert_eq!(r, "let a = 1\nlet b = 2\n\n\n\nlet c = 3\n");
    assert!(r.lines().all(|line| parse_import_line(line.trim()).is_none()));
    assert_eq!(resolve_imports(&r, &files), r);
    assert_eq!(resolve_imports(&r, &|_: &str| Some("other".to_string())), r);
    assert_eq!(resolve_imports("", &files), "");
    // A carriage return at the end of a line is dropped, so this text changes.
    assert_eq!(resolve_imports("x\r\n", &files), "x\n");
}
