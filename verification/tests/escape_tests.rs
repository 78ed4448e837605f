use tg_md_escape::tg_escape;

#[test]
fn test_md_escape() {
    assert_eq!(
        tg_escape("Soon you'll get a stats for today, and the overall status can be viewed by the /get_stat command :)"),
        r#"Soon you'll get a stats for today, and the overall status can be viewed by the /get\_stat command :\)"#
    )
}

#[test]
fn test_escape_outside_code_all_specials() {
    // All MarkdownV2 special characters should be escaped outside code (avoid link syntax)
    let input = r#"a_*~`>#+-=|{}.!\x"#;
    let expected = r"a\_\*\~\`\\>\#\+\-\=\|\{\}\.\!\\x";

    assert_eq!(tg_escape(input), expected);
}

#[test]
fn test_inline_code_escapes_only_backtick_and_backslash() {
    // Inside inline code, only ` and \\ are escaped
    let input = r#"Before `a_*~>#+-=|{}.!\` after"#;
    let expected = r#"Before `a_*~>#+-=|{}.!\\` after"#;

    assert_eq!(tg_escape(input), expected);
}

#[test]
fn test_code_block_escapes_only_backtick_and_backslash() {
    // Inside code blocks, only ` and \\ are escaped
    let input = r#"```
a_*[]()~`>#+-=|{}.!\
```"#;
    let expected = r#"
```
a_*[]()~\`>#+-=|{}.!\\
```"#;

    assert_eq!(tg_escape(input), expected);
}

#[test]
fn test_mixed_multiple_inline_code_segments() {
    let input = r#"pre_* `codeA_*` mid_* `codeB_\` post_*"#;
    let expected = r#"pre\_\* `codeA_*` mid\_\* `codeB_\\` post\_\*"#;

    assert_eq!(tg_escape(input), expected);
}

#[test]
fn test_emphasis_around_text_with_inline_code() {
    let input = r#"*start* `inside_*` end_*"#;
    let expected = r#"*start* `inside_*` end\_\*"#;

    assert_eq!(tg_escape(input), expected);
}
