use lupus::format::{classify, replace_formatting};
use lupus::tail::{chat_line, set_lines, update_messages};

const HELLO: &str = "[12:00:00] [Server thread/INFO]: <Alice> hello_world";

fn lines(v: &[&str]) -> Vec<String> {
    v.iter().map(|s| s.to_string()).collect()
}

#[test]
fn short_lines_are_rejected() {
    assert_eq!(classify(""), None);
    assert_eq!(classify("[12:00:00] [Server thread/INFO]: <"), None);
    assert_eq!(classify("[12:00:00] [Server thread/INFO]: <A"), Some("<A".to_string()));
}

#[test]
fn example_chat_line() {
    assert_eq!(chat_line("surv", HELLO), Some("[surv]<Alice> hello\\_world\n".to_string()));
}

#[test]
fn lines_without_bracket_are_rejected() {
    assert_eq!(classify("x12:00:00] [Server thread/INFO]: <Alice> hi"), None);
}

#[test]
fn bodies_of_other_kinds_are_rejected() {
    assert_eq!(classify("[12:00:00] [Server thread/INFO]: Done (3.2s)!"), None);
}

#[test]
fn marker_bodies_are_stripped() {
    assert_eq!(
        classify("[12:00:00] [Server thread/INFO]: §6Server restarting"),
        Some("Server restarting".to_string())
    );
}

#[test]
fn replace_formatting_escapes_and_strips() {
    assert_eq!(replace_formatting("a_b_c"), "a\\_b\\_c");
    assert_eq!(replace_formatting("§aHi"), "§aHi");
    assert_eq!(replace_formatting("§2Hi"), "Hi");
    assert_eq!(replace_formatting("x §1y 5 z"), "x  z");
    assert_eq!(replace_formatting("§1my_name"), "my\\_name");
    assert_eq!(replace_formatting(""), "");
}

#[test]
fn formatted_text_is_clean() {
    let t = classify("[12:00:00] [Server thread/INFO]: <Bob> §4red_text and _x_ §22").unwrap();
    assert!(!t.contains("§4") && !t.contains("§2"));
    let chars: Vec<char> = t.chars().collect();
    for (i, c) in chars.iter().enumerate() {
        if *c == '_' {
            assert!(i > 0 && chars[i - 1] == '\\');
        }
    }
}

#[test]
fn tail_reads_lines_past_cursor() {
    let s = lines(&["[a] no", HELLO, "short", HELLO]);
    let r = update_messages("surv", Some(&s), 1);
    assert_eq!(r.batch, "[surv]<Alice> hello\\_world\n");
    assert_eq!(r.cursor, 3);
    assert!(!r.rotate);
    let r = update_messages("surv", Some(&s), 0);
    assert_eq!(r.batch, "[surv]<Alice> hello\\_world\n[surv]<Alice> hello\\_world\n");
    assert_eq!(r.cursor, 3);
}

#[test]
fn tail_again_yields_nothing() {
    let s = lines(&[HELLO, HELLO, HELLO]);
    let first = update_messages("surv", Some(&s), 0);
    assert!(!first.batch.is_empty());
    let second = update_messages("surv", Some(&s), first.cursor);
    assert_eq!(second.batch, "");
    assert_eq!(second.cursor, first.cursor);
}

#[test]
fn tail_of_absent_stream_is_empty() {
    let r = update_messages("surv", None, 57);
    assert_eq!(r.batch, "");
    assert_eq!(r.cursor, 0);
    assert!(!r.rotate);
}

#[test]
fn tail_at_threshold_rotates() {
    let s = lines(&[HELLO; 2005]);
    let r = update_messages("surv", Some(&s), 2000);
    assert_eq!(r.batch, "");
    assert_eq!(r.cursor, 0);
    assert!(r.rotate);
    let r = update_messages("surv", Some(&s), 1999);
    assert_eq!(r.cursor, 2004);
    assert!(!r.rotate);
    assert_eq!(r.batch.lines().count(), 5);
}

#[test]
fn set_lines_counts() {
    assert_eq!(set_lines(None), 0);
    assert_eq!(set_lines(Some(&lines(&["a", "b"]))), 2);
}

#[test]
fn chat_entry_wraps_text() {
    assert_eq!(lupus::tail::chat_entry("surv", "<Alice> hi"), "[surv]<Alice> hi\n");
    assert_eq!(lupus::tail::chat_entry("", ""), "[]\n");
}
