use infiniloom_cli::truncation::{finish_truncated_output, truncate_to_tokens};

const NOTICE: &str = "\n\n<!-- Output truncated to fit token limit -->\n";

#[test]
fn cuts_after_last_file_tag_in_second_half() {
    let t = "<file>a</file>\n<file>bbbbbbbb</file>\n<file>cc";
    let out = finish_truncated_output(t);
    assert_eq!(out, format!("<file>a</file>\n<file>bbbbbbbb</file>{}", NOTICE));
}

#[test]
fn boundary_in_first_half_is_ignored() {
    let t = "</file>xxxxxxxxxxxxxxxxxxxxxxxxxxxxxxxxxxxxxxxx";
    assert_eq!(finish_truncated_output(t), format!("{}{}", t, NOTICE));
}

#[test]
fn later_markers_are_tried_in_order() {
    let t = "intro\n```\n\ncode code code\n---\ntail";
    // no </file>; the code fence ends at byte 11 of 34, not past the half; the rule does
    assert_eq!(finish_truncated_output(t), format!("intro\n```\n\ncode code code\n---\n{}", NOTICE));
}

#[test]
fn half_is_measured_in_bytes() {
    // the tag ends at byte 9 of 27 (char 9 of 15): not past the half
    let t = "ab</file>日本語日本語";
    assert_eq!(finish_truncated_output(t), format!("{}{}", t, NOTICE));
}

#[test]
fn output_within_the_limit_is_kept() {
    assert_eq!(truncate_to_tokens("short output", 100, 3, "ignored"), "short output");
    assert_eq!(truncate_to_tokens("exact", 5, 5, "ignored"), "exact");
}

#[test]
fn output_over_the_limit_is_cut_at_a_boundary() {
    let truncated = "<file>a</file>\n<file>b</file>\n<file>c";
    assert_eq!(
        truncate_to_tokens("whatever", 10, 11, truncated),
        "<file>a</file>\n<file>b</file>\n\n<!-- Output truncated to fit token limit -->\n"
    );
}
