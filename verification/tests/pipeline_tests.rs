use tg_md_escape::coalesce_events;
use tg_md_escape::escape_events;
use tg_md_escape::escape_payload;
use tg_md_escape::events::MdEvent;
use tg_md_escape::tg_escape;

#[test]
fn test_underscore_outside_code_is_escaped() {
    assert_eq!(tg_escape("/get_stat"), r"/get\_stat");
    assert!(tg_escape("/get_stat").contains(r"/get\_stat"));
}

#[test]
fn test_inline_code_span_unchanged() {
    // Backticks are structural; the underscore inside the span is not escaped.
    assert_eq!(tg_escape("`a_b`"), "`a_b`");
}

#[test]
fn test_empty_input_gives_empty_output() {
    assert_eq!(tg_escape(""), "");
}

#[test]
fn test_not_idempotent_double_escapes_backslash() {
    // Re-running the transformation on its own output may double-escape
    // already-escaped sequences: the backslash inserted before the `>` is
    // itself escaped again on the second run.
    let once = tg_escape(r"a_*~`>#+-=|{}.!\x");
    assert_eq!(once, r"a\_\*\~\`\\>\#\+\-\=\|\{\}\.\!\\x");
    let twice = tg_escape(&once);
    assert_eq!(twice, r"a\_\*\~\`\\\\>\#\+\-\=\|\{\}\.\!\\x");
    assert_ne!(twice, once);
}

#[test]
fn test_escape_payload_normal_set() {
    assert_eq!(escape_payload("a_b", false), r"a\_b");
    assert_eq!(escape_payload("end_*", false), r"end\_\*");
    assert_eq!(escape_payload("plain text", false), "plain text");
}

#[test]
fn test_escape_payload_code_set() {
    // Inside code context only the backtick and the backslash are escaped.
    assert_eq!(escape_payload("a_b", true), "a_b");
    assert_eq!(escape_payload(r"a`b\c", true), r"a\`b\\c");
}

#[test]
fn test_escape_payload_single_char_exempt() {
    assert_eq!(escape_payload(")", false), ")");
    assert_eq!(escape_payload("_", false), "_");
    assert_eq!(escape_payload("`", true), "`");
}

#[test]
fn test_escape_payload_empty() {
    assert_eq!(escape_payload("", false), "");
    assert_eq!(escape_payload("", true), "");
}

#[test]
fn test_escape_events_context_switching() {
    let input = vec![
        MdEvent::TextRun(String::from("pre_text")),
        MdEvent::CodeBlockStart,
        MdEvent::TextRun(String::from(r"in_block`x\y")),
        MdEvent::CodeBlockEnd,
        MdEvent::TextRun(String::from("post_text")),
    ];
    let out = escape_events(input);
    assert_eq!(out.len(), 5);
    match &out[0] {
        MdEvent::TextRun(s) => assert_eq!(s, r"pre\_text"),
        _ => panic!("event kind changed"),
    }
    assert!(matches!(out[1], MdEvent::CodeBlockStart));
    match &out[2] {
        // Inside the block only the backtick and the backslash are escaped.
        MdEvent::TextRun(s) => assert_eq!(s, r"in_block\`x\\y"),
        _ => panic!("event kind changed"),
    }
    assert!(matches!(out[3], MdEvent::CodeBlockEnd));
    match &out[4] {
        // The code set no longer applies after the block ends.
        MdEvent::TextRun(s) => assert_eq!(s, r"post\_text"),
        _ => panic!("event kind changed"),
    }
}

#[test]
fn test_escape_events_code_span_always_code_set() {
    let input = vec![
        MdEvent::CodeSpan(String::from("a_*[]")),
        MdEvent::CodeSpan(String::from(r"a`b\")),
    ];
    let out = escape_events(input);
    match &out[0] {
        MdEvent::CodeSpan(s) => assert_eq!(s, "a_*[]"),
        _ => panic!("event kind changed"),
    }
    match &out[1] {
        MdEvent::CodeSpan(s) => assert_eq!(s, r"a\`b\\"),
        _ => panic!("event kind changed"),
    }
}

#[test]
fn test_escape_events_single_char_payload_untouched() {
    let input = vec![
        MdEvent::TextRun(String::from(")")),
        MdEvent::CodeSpan(String::from("`")),
    ];
    let out = escape_events(input);
    match &out[0] {
        MdEvent::TextRun(s) => assert_eq!(s, ")"),
        _ => panic!("event kind changed"),
    }
    match &out[1] {
        MdEvent::CodeSpan(s) => assert_eq!(s, "`"),
        _ => panic!("event kind changed"),
    }
}

#[test]
fn test_escape_events_passes_other_events_through() {
    let input = vec![
        MdEvent::Other,
        MdEvent::TextRun(String::from("mid_dle")),
        MdEvent::Other,
    ];
    let out = escape_events(input);
    assert!(matches!(out[0], MdEvent::Other));
    match &out[1] {
        MdEvent::TextRun(s) => assert_eq!(s, r"mid\_dle"),
        _ => panic!("event kind changed"),
    }
    assert!(matches!(out[2], MdEvent::Other));
}

fn text_of(e: &MdEvent) -> &str {
    match e {
        MdEvent::TextRun(s) => s,
        _ => panic!("expected a text run"),
    }
}

#[test]
fn test_coalesce_joins_adjacent_text_runs() {
    let input = vec![
        MdEvent::TextRun(String::from("a")),
        MdEvent::TextRun(String::from("_")),
        MdEvent::TextRun(String::from("*~")),
    ];
    let out = coalesce_events(input);
    assert_eq!(out.len(), 3);
    assert_eq!(text_of(&out[0]), "");
    assert_eq!(text_of(&out[1]), "");
    assert_eq!(text_of(&out[2]), "a_*~");
}

#[test]
fn test_coalesce_keeps_lone_backtick_apart() {
    let input = vec![
        MdEvent::TextRun(String::from("a")),
        MdEvent::TextRun(String::from("`")),
        MdEvent::TextRun(String::from("b")),
    ];
    let out = coalesce_events(input);
    assert_eq!(text_of(&out[0]), "a");
    assert_eq!(text_of(&out[1]), "`");
    assert_eq!(text_of(&out[2]), "b");
}

#[test]
fn test_coalesce_breaks_at_structural_events() {
    let input = vec![
        MdEvent::TextRun(String::from("a")),
        MdEvent::CodeSpan(String::from("c")),
        MdEvent::TextRun(String::from("b")),
    ];
    let out = coalesce_events(input);
    assert_eq!(text_of(&out[0]), "a");
    match &out[1] {
        MdEvent::CodeSpan(s) => assert_eq!(s, "c"),
        _ => panic!("event kind changed"),
    }
    assert_eq!(text_of(&out[2]), "b");
}

#[test]
fn test_emphasis_survives_as_syntax() {
    // Real emphasis is re-emitted as syntax, not escaped to literal text.
    let out = tg_escape("*bold* and _italic_");
    assert!(out.starts_with("*bold*"));
    assert!(!out.starts_with(r"\*"));
}
