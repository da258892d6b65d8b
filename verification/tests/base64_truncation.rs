use infiniloom_cli::compression::truncate_base64_content;

#[test]
fn test_truncate_base64_data_uri() {
    let input = "data:image/png;base64,iVBORw0KGgoAAAANSUhEUgAAAAEAAAABCAYAAAAfFcSJAAAADUlEQVR42mNk+M9QDwADhgGAWjR9awAAAABJRU5ErkJggg==";
    let result = truncate_base64_content(input);
    assert!(result.contains("data:image/png;base64,"));
    assert!(result.contains("[BASE64_TRUNCATED]"));
}

#[test]
fn test_truncate_base64_long_string() {
    // Long base64 string with + and / characters
    let input = "A".repeat(150) + "+" + &"B".repeat(100) + "/";
    let result = truncate_base64_content(&input);
    assert!(result.contains("[BASE64_TRUNCATED]") || result.len() == input.len());
}

#[test]
fn test_truncate_base64_no_truncation_short() {
    let input = "SGVsbG8gV29ybGQ="; // "Hello World" in base64
    let result = truncate_base64_content(input);
    // Short strings are not truncated
    assert_eq!(result, input);
}

#[test]
fn test_truncate_base64_preserves_non_base64() {
    let input = "This is regular text without base64";
    let result = truncate_base64_content(input);
    assert_eq!(result, input);
}

#[test]
fn truncate_base64_data_uri_exact_result() {
    let input = "before data:text/plain;base64,SGVsbG8= after";
    let result = truncate_base64_content(input);
    assert_eq!(result, "before data:text/plain;base64,[BASE64_TRUNCATED] after");
}

#[test]
fn truncate_base64_long_run_keeps_first_fifty() {
    let run = "A".repeat(150) + "+" + &"B".repeat(100) + "/";
    let input = format!("x = \"{}\";", run);
    let result = truncate_base64_content(&input);
    let expected = format!("x = \"{}...[BASE64_TRUNCATED]\";", "A".repeat(50));
    assert_eq!(result, expected);
}

#[test]
fn truncate_base64_long_run_without_plus_or_slash_is_kept() {
    let input = "Q".repeat(250);
    let result = truncate_base64_content(&input);
    assert_eq!(result, input);
}
