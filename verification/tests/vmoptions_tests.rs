use ide_discovery::numbers::parse_port_value;
use ide_discovery::vmoptions::{filter_vmoptions, get_port_file_path, line_kept};

#[test]
fn filter_drops_blank_and_comment_lines() {
    let content = "-Xmx2g\n\n# a comment\n   # indented comment\n  -Dx=1  \n";
    let kept = filter_vmoptions(content);
    assert_eq!(kept, vec!["-Xmx2g".to_string(), "  -Dx=1  ".to_string()]);
}

#[test]
fn filter_keeps_lines_verbatim_in_order() {
    let content = "-Xms128m\n-Xmx750m\n-XX:ReservedCodeCacheSize=512m";
    let kept = filter_vmoptions(content);
    assert_eq!(
        kept,
        vec![
            "-Xms128m".to_string(),
            "-Xmx750m".to_string(),
            "-XX:ReservedCodeCacheSize=512m".to_string(),
        ]
    );
}

#[test]
fn filter_handles_crlf_line_endings() {
    let content = "-Xmx2g\r\n# c\r\n-Dy=2\r\n";
    let kept = filter_vmoptions(content);
    assert_eq!(kept, vec!["-Xmx2g".to_string(), "-Dy=2".to_string()]);
}

#[test]
fn filter_of_empty_content_is_empty() {
    let kept = filter_vmoptions("");
    assert!(kept.is_empty());
}

#[test]
fn filter_of_whitespace_only_content_is_empty() {
    let kept = filter_vmoptions("   \n\t\n  \n");
    assert!(kept.is_empty());
}

#[test]
fn line_kept_matches_trimmed_rule() {
    assert!(line_kept("-Xmx2g"));
    assert!(line_kept("  spaced  "));
    assert!(!line_kept(""));
    assert!(!line_kept("   "));
    assert!(!line_kept("# comment"));
    assert!(!line_kept("   # comment"));
    assert!(line_kept("x# not a comment"));
}

#[test]
fn port_file_path_is_found_after_directive() {
    let opts = vec![
        "-Xmx2g".to_string(),
        "-Dtoolbox.notification.portFile=/tmp/p".to_string(),
    ];
    assert_eq!(get_port_file_path(&opts), Some("/tmp/p".to_string()));
}

#[test]
fn port_file_path_takes_first_directive() {
    let opts = vec![
        "-Dtoolbox.notification.portFile=/tmp/first".to_string(),
        "-Dtoolbox.notification.portFile=/tmp/second".to_string(),
    ];
    assert_eq!(get_port_file_path(&opts), Some("/tmp/first".to_string()));
}

#[test]
fn port_file_path_requires_exact_prefix() {
    let opts = vec![
        " -Dtoolbox.notification.portFile=/tmp/p".to_string(),
        "-Dtoolbox.notification.portfile=/tmp/p".to_string(),
    ];
    assert_eq!(get_port_file_path(&opts), None);
}

#[test]
fn port_file_path_absent_without_directive() {
    let opts = vec!["-Xmx2g".to_string()];
    assert_eq!(get_port_file_path(&opts), None);
    let empty: Vec<String> = Vec::new();
    assert_eq!(get_port_file_path(&empty), None);
}

#[test]
fn port_parses_with_surrounding_whitespace() {
    assert_eq!(parse_port_value("63342\n"), Some(63342));
    assert_eq!(parse_port_value("  80  "), Some(80));
    assert_eq!(parse_port_value("0"), Some(0));
    assert_eq!(parse_port_value("65535"), Some(65535));
}

#[test]
fn port_accepts_leading_plus_sign() {
    assert_eq!(parse_port_value("+123"), Some(123));
}

#[test]
fn port_rejects_out_of_range_values() {
    assert_eq!(parse_port_value("65536"), None);
    assert_eq!(parse_port_value("99999999999999999999"), None);
}

#[test]
fn port_rejects_malformed_text() {
    assert_eq!(parse_port_value(""), None);
    assert_eq!(parse_port_value("   "), None);
    assert_eq!(parse_port_value("+"), None);
    assert_eq!(parse_port_value("12a"), None);
    assert_eq!(parse_port_value("-1"), None);
    assert_eq!(parse_port_value("12 34"), None);
}
