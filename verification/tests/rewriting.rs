use vm_rs::rewrite::rewrite_config_lines;

fn lines(v: &[&str]) -> Vec<String> {
    v.iter().map(|s| s.to_string()).collect()
}

#[test]
fn rewrites_only_matching_block() {
    let input = lines(&[
        "Host vmrs-script",
        "  Hostname 1.2.3.4",
        "  User dev",
        "Host other",
        "  Hostname 9.9.9.9",
    ]);
    let out = rewrite_config_lines(&input, "vmrs", "5.6.7.8");
    assert_eq!(
        out,
        lines(&[
            "Host vmrs-script",
            "  Hostname 5.6.7.8",
            "  User dev",
            "Host other",
            "  Hostname 9.9.9.9",
        ])
    );
}

#[test]
fn untouched_without_matching_header() {
    let input = lines(&["Host alpha", "  Hostname 1.1.1.1", "# comment", ""]);
    let out = rewrite_config_lines(&input, "vmrs", "2.2.2.2");
    assert_eq!(out, input);
}

#[test]
fn rewrite_twice_equals_once() {
    let input = lines(&[
        "Host vmrs-script",
        "  Hostname 1.2.3.4",
        "Host other",
        "  Hostname 9.9.9.9",
    ]);
    let once = rewrite_config_lines(&input, "vmrs", "5.6.7.8");
    let twice = rewrite_config_lines(&once, "vmrs", "5.6.7.8");
    assert_eq!(twice, once);
}

#[test]
fn preserves_text_after_value() {
    let input = lines(&["Host vmrs", "\tHostname old # keep this"]);
    let out = rewrite_config_lines(&input, "vmrs", "new");
    assert_eq!(out, lines(&["Host vmrs", "\tHostname new # keep this"]));
}

#[test]
fn value_line_before_any_header_untouched() {
    let input = lines(&["Hostname 1.2.3.4", "Host vmrs", "Hostname 2.2.2.2"]);
    let out = rewrite_config_lines(&input, "vmrs", "3.3.3.3");
    assert_eq!(out, lines(&["Hostname 1.2.3.4", "Host vmrs", "Hostname 3.3.3.3"]));
}

#[test]
fn bare_keyword_line_untouched() {
    let input = lines(&["Host vmrs", "Hostname", "Hostname   "]);
    let out = rewrite_config_lines(&input, "vmrs", "x");
    assert_eq!(out, input);
}

#[test]
fn state_resets_on_every_header() {
    let input = lines(&[
        "Host vmrs-a",
        "Hostname x",
        "Host bbb",
        "Hostname y",
        "Host vmrs-b",
        "Hostname z",
    ]);
    let out = rewrite_config_lines(&input, "vmrs", "q");
    assert_eq!(
        out,
        lines(&["Host vmrs-a", "Hostname q", "Host bbb", "Hostname y", "Host vmrs-b", "Hostname q"])
    );
}

#[test]
fn matching_header_line_itself_unchanged() {
    let input = lines(&["Host vmrs-script extra words", "Hostname a"]);
    let out = rewrite_config_lines(&input, "vmrs", "b");
    assert_eq!(out[0], "Host vmrs-script extra words");
    assert_eq!(out[1], "Hostname b");
}
