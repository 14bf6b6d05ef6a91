use forge::interpolator::parse_vars;

#[test]
fn test_parse_vars_basic() {
    let spans = parse_vars("{{host}}/api");
    assert_eq!(spans.len(), 1);
    let (start, end, name) = &spans[0];
    assert_eq!(*start, 0);
    assert_eq!(*end, 8); // "{{host}}" is 8 bytes
    assert_eq!(name, "host");
    // Verify the slice matches
    assert_eq!(&"{{host}}/api"[*start..*end], "{{host}}");
}

#[test]
fn test_parse_vars_missing_close() {
    let spans = parse_vars("{{host");
    assert!(spans.is_empty());
}

#[test]
fn test_parse_vars_empty_name() {
    let spans = parse_vars("{{}}rest");
    assert!(spans.is_empty());
}

#[test]
fn test_parse_vars_multiple() {
    let spans = parse_vars("{{scheme}}://{{host}}/path");
    assert_eq!(spans.len(), 2);
    assert_eq!(spans[0].2, "scheme");
    assert_eq!(spans[1].2, "host");
}

#[test]
fn test_parse_vars_no_vars() {
    let spans = parse_vars("https://example.com/api");
    assert!(spans.is_empty());
}

#[test]
fn test_parse_vars_adjacent() {
    let spans = parse_vars("{{a}}{{b}}");
    assert_eq!(spans.len(), 2);
    assert_eq!(spans[0], (0, 5, "a".to_string()));
    assert_eq!(spans[1], (5, 10, "b".to_string()));
}

#[test]
fn test_parse_vars_blank_name_skipped() {
    assert!(parse_vars("{{}}").is_empty());
    assert!(parse_vars("{{  }}").is_empty());
}

#[test]
fn test_parse_vars_unterminated_aborts_scan() {
    // the unclosed marker aborts the scan; later text is never searched
    assert!(parse_vars("{{unterminated").is_empty());
    assert!(parse_vars("{{a}} and {{open").len() == 1);
}

#[test]
fn test_parse_vars_trims_interior() {
    let spans = parse_vars("x{{  name  }}y");
    assert_eq!(spans.len(), 1);
    assert_eq!(spans[0].2, "name");
    assert_eq!(spans[0].0, 1);
    assert_eq!(spans[0].1, 13);
}

#[test]
fn test_parse_vars_empty_input() {
    assert!(parse_vars("").is_empty());
}
