use drasi_server::content::{contains_yaml_anchor_or_alias, is_yaml_content_type};

#[test]
fn yaml_content_types_are_recognised() {
    for ct in [
        "application/yaml",
        "application/x-yaml",
        "text/yaml",
        "text/x-yaml",
        "text/vnd.yaml",
    ] {
        assert!(is_yaml_content_type(ct), "{ct} should be YAML");
    }
}

#[test]
fn yaml_content_types_ignore_parameters_and_case() {
    assert!(is_yaml_content_type("Application/YAML; charset=utf-8"));
    assert!(is_yaml_content_type("  text/yaml ; foo=bar"));
    assert!(is_yaml_content_type("TEXT/VND.YAML"));
}

#[test]
fn non_yaml_content_types_are_rejected() {
    for ct in [
        "application/json",
        "text/plain",
        "application/xml",
        "application/octet-stream",
        "",
    ] {
        assert!(!is_yaml_content_type(ct), "{ct} should not be YAML");
    }
}

#[test]
fn detects_anchors_and_aliases() {
    assert!(contains_yaml_anchor_or_alias("a: &anchor 1\nb: *anchor\n"));
    assert!(contains_yaml_anchor_or_alias("items: [&x 1, *x]"));
    assert!(contains_yaml_anchor_or_alias("- &node\n  k: v"));
    // Plain unquoted scalar starting with `*` is a YAML alias.
    assert!(contains_yaml_anchor_or_alias("ref: *alias"));
}

#[test]
fn does_not_flag_ampersand_or_star_in_plain_scalars() {
    assert!(!contains_yaml_anchor_or_alias("name: Tom & Jerry"));
    assert!(!contains_yaml_anchor_or_alias("company: AT&T"));
    assert!(!contains_yaml_anchor_or_alias("note: see * for footnote"));
    assert!(!contains_yaml_anchor_or_alias("glob: *.log"));
    assert!(!contains_yaml_anchor_or_alias("id: high-temp\nq: MATCH (n)"));
}

#[test]
fn does_not_flag_quoted_or_commented_tokens() {
    assert!(!contains_yaml_anchor_or_alias("query: \"RETURN *\""));
    assert!(!contains_yaml_anchor_or_alias("expr: 'a & b and *c'"));
    assert!(!contains_yaml_anchor_or_alias("k: v  # &anchor *alias here"));
}

#[test]
fn content_type_with_unicode_padding_is_trimmed() {
    assert!(is_yaml_content_type("\u{a0}application/x-yaml\u{3000};q=1"));
    assert!(!is_yaml_content_type("application/yaml+json"));
    assert!(!is_yaml_content_type("application; yaml"));
}

#[test]
fn anchors_after_escaped_quotes_are_found() {
    // '' is an escaped quote inside a single-quoted scalar; the scalar then closes.
    assert!(!contains_yaml_anchor_or_alias("a: 'it''s &x'"));
    assert!(contains_yaml_anchor_or_alias("a: 'it''s' \nb: &x 1"));
    // \" does not close a double-quoted scalar.
    assert!(!contains_yaml_anchor_or_alias("a: \"say \\\" &x\""));
    assert!(contains_yaml_anchor_or_alias("a: \"q\" \nb: *x"));
    // Comment ends at the newline.
    assert!(contains_yaml_anchor_or_alias("# c\n&x: 1"));
    // A tag at the very end has no name byte.
    assert!(!contains_yaml_anchor_or_alias("a: &"));
}
