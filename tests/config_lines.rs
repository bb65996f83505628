use elfdeps::config::{classify_line, resolve_config, ConfigError, ConfigLine, LineKind};

fn directive(rest: &str) -> String {
    format!("{}{}", "incl", rest)
}

fn line(text: &str, exists: bool) -> ConfigLine {
    ConfigLine { text: text.to_string(), exists, nested: Vec::new() }
}

fn nesting(pattern: &str, nested: Vec<ConfigLine>) -> ConfigLine {
    ConfigLine { text: directive(&format!("ude {}", pattern)), exists: false, nested }
}

#[test]
fn directory_line_is_trimmed() {
    match classify_line("  /usr/lib \t") {
        LineKind::Directory(d) => assert_eq!(d, "/usr/lib"),
        other => panic!("unexpected {:?}", other),
    }
}

#[test]
fn blank_and_comment_lines_are_ignored() {
    assert!(matches!(classify_line(""), LineKind::Ignored));
    assert!(matches!(classify_line("   \t"), LineKind::Ignored));
    assert!(matches!(classify_line("  # a comment"), LineKind::Ignored));
}

#[test]
fn nesting_line_gives_its_pattern() {
    match classify_line(&directive("ude   /etc/ld.so.conf.d/*.conf  ")) {
        LineKind::Nested(p) => assert_eq!(p, "/etc/ld.so.conf.d/*.conf"),
        other => panic!("unexpected {:?}", other),
    }
}

#[test]
fn malformed_nesting_lines_are_directories() {
    let bare = directive("ude");
    match classify_line(&bare) {
        LineKind::Directory(d) => assert_eq!(d, bare),
        other => panic!("unexpected {:?}", other),
    }
    let two = directive("ude a b");
    match classify_line(&two) {
        LineKind::Directory(d) => assert_eq!(d, two),
        other => panic!("unexpected {:?}", other),
    }
    let glued = directive("ude/x");
    assert!(matches!(classify_line(&glued), LineKind::Directory(_)));
}

#[test]
fn plain_config_lists_its_lines_in_order() {
    let lines = vec![line("/lib", true), line("# comment", false), line("", false), line("  /usr/lib  ", true)];
    let paths = resolve_config(&lines).unwrap();
    assert_eq!(paths, vec!["/lib".to_string(), "/usr/lib".to_string()]);
}

#[test]
fn nested_paths_stand_in_place_depth_first() {
    let inner = vec![line("/c", true)];
    let middle = vec![line("/b", true), nesting("/inner/*.conf", inner), line("/d", true)];
    let lines = vec![line("/a", true), nesting("/middle/*.conf", middle), line("/e", true)];
    let paths = resolve_config(&lines).unwrap();
    assert_eq!(paths, vec!["/a", "/b", "/c", "/d", "/e"]);
}

#[test]
fn duplicates_are_kept() {
    let lines = vec![line("/lib", true), line("/lib", true)];
    assert_eq!(resolve_config(&lines).unwrap(), vec!["/lib", "/lib"]);
}

#[test]
fn missing_directory_is_an_error() {
    let lines = vec![line("/lib", true), line(" /nope ", false), line("/usr/lib", true)];
    match resolve_config(&lines) {
        Err(ConfigError::NotADirectory(d)) => assert_eq!(d, "/nope"),
        other => panic!("unexpected {:?}", other),
    }
}

#[test]
fn missing_directory_in_nested_file_is_an_error() {
    let lines = vec![nesting("/x/*", vec![line("/gone", false)]), line("/lib", true)];
    assert!(matches!(resolve_config(&lines), Err(ConfigError::NotADirectory(d)) if d == "/gone"));
}
