//! Chat-line classification and formatting.
use regex::Regex;
use vstd::prelude::*;
use vstd::string::*;

verus! {

/// Length of the fixed timestamp/thread header that precedes a chat body.
pub const HEADER_LEN: usize = 33;

/// Shortest raw line that can carry a chat event.
pub const MIN_LINE_LEN: usize = 35;

/// The game's formatting-escape marker.
pub open spec fn is_marker(c: char) -> bool {
    c == '§'
}

pub open spec fn is_ascii_digit(c: char) -> bool {
    '0' <= c && c <= '9'
}

/// A raw line is a chat event: long enough, bracketed, and its body opens with a
/// player name or a formatting marker.
pub open spec fn accepts(raw: Seq<char>) -> bool {
    &&& raw.len() >= MIN_LINE_LEN
    &&& raw[0] == '['
    &&& (raw[HEADER_LEN as int] == '<' || is_marker(raw[HEADER_LEN as int]))
}

/// The message body: everything after the header.
pub open spec fn body(raw: Seq<char>) -> Seq<char> {
    raw.subrange(HEADER_LEN as int, raw.len() as int)
}

/// Every underscore prefixed by a backslash.
pub open spec fn escape_underscores(s: Seq<char>) -> Seq<char>
    decreases s.len(),
{
    if s.len() == 0 {
        Seq::empty()
    } else {
        let c = s.last();
        escape_underscores(s.drop_last()) + if c == '_' {
            seq!['\\', '_']
        } else {
            seq![c]
        }
    }
}

/// No underscore stands without a backslash right before it.
pub open spec fn all_escaped(s: Seq<char>) -> bool {
    forall|i: int| 0 <= i < s.len() && #[trigger] s[i] == '_' ==> i > 0 && s[i - 1] == '\\'
}

/// No formatting marker is directly followed by a digit.
pub open spec fn no_code(s: Seq<char>) -> bool {
    forall|i: int| 0 <= i < s.len() - 1 ==> !(is_marker(#[trigger] s[i]) && is_ascii_digit(s[i + 1]))
}

/// What removing every match of `§.*\d` from `s` leaves.
pub uninterp spec fn strip_codes(s: Seq<char>) -> Seq<char>;

/// The formatted text of a message body.
pub open spec fn formatted(s: Seq<char>) -> Seq<char> {
    strip_codes(escape_underscores(s))
}

/// Relies on regex's `Regex::replace_all` with the pattern `§.*\d` and an empty
/// replacement. A match starts at a marker and, since `.` stops at a newline, exists
/// exactly where a digit follows the marker on its line; it ends at a digit. Hence no
/// kept marker is followed by a digit, and a kept underscore keeps the backslash
/// before it (a match that took the backslash would reach past the underscore).
#[verifier::external_body]
fn strip_codes_exec(s: &str) -> (r: String)
    ensures
        r@ == strip_codes(s@),
        no_code(r@),
        all_escaped(s@) ==> all_escaped(r@),
{
    Regex::new(r"§.*\d").unwrap().replace_all(s, "").into_owned()
}

pub proof fn lemma_escape_all_escaped(s: Seq<char>)
    ensures
        all_escaped(escape_underscores(s)),
    decreases s.len(),
{
    if s.len() > 0 {
        lemma_escape_all_escaped(s.drop_last());
        let p = escape_underscores(s.drop_last());
        let e = escape_underscores(s);
        assert forall|i: int| 0 <= i < e.len() && #[trigger] e[i] == '_' implies i > 0 && e[i - 1] == '\\' by {
            if i < p.len() {
                assert(e[i] == p[i]);
                assert(e[i - 1] == p[i - 1]);
            }
        }
    }
}

/// Escapes underscores, then strips the game's formatting codes.
pub fn replace_formatting(msg: &str) -> (r: String)
    ensures
        r@ == formatted(msg@),
        no_code(r@),
        all_escaped(r@),
{
    let n = msg.unicode_len();
    let mut out = String::new();
    let mut i: usize = 0;
    while i < n
        invariant
            n == msg@.len(),
            i <= n,
            out@ == escape_underscores(msg@.subrange(0, i as int)),
        decreases n - i,
    {
        let c = msg.get_char(i);
        let ghost pre = msg@.subrange(0, i as int);
        assert(msg@.subrange(0, i as int + 1).drop_last() =~= pre);
        if c == '_' {
            proof {
                reveal_strlit("\\_");
            }
            out.append("\\_");
        } else {
            let one = msg.substring_char(i, i + 1);
            assert(one@ =~= seq![c]);
            out.append(one);
        }
        i = i + 1;
    }
    assert(msg@.subrange(0, n as int) =~= msg@);
    proof {
        lemma_escape_all_escaped(msg@);
    }
    strip_codes_exec(out.as_str())
}

/// The chat text of a raw line, or `None` where the line is no chat event.
pub fn classify(raw: &str) -> (r: Option<String>)
    ensures
        r is Some <==> accepts(raw@),
        r matches Some(t) ==> t@ == formatted(body(raw@)),
        r matches Some(t) ==> all_escaped(t@) && no_code(t@),
        raw@.len() < MIN_LINE_LEN ==> r is None,
{
    let n = raw.unicode_len();
    if n < MIN_LINE_LEN {
        return None;
    }
    if raw.get_char(0) != '[' {
        return None;
    }
    let c = raw.get_char(HEADER_LEN);
    if c != '<' && c != '§' {
        return None;
    }
    Some(replace_formatting(raw.substring_char(HEADER_LEN, n)))
}

} // verus!
