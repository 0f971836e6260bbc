//! Incremental tailing of a session's capture stream.
use crate::format::{accepts, body, classify, formatted};
use vstd::prelude::*;
use vstd::string::*;

verus! {

/// A tail that starts at or past this cursor rotates the stream instead.
pub const ROTATION_THRESHOLD: usize = 2000;

/// The batch entry of one raw line: `[name]text` and a newline, or nothing.
pub open spec fn event_of(name: Seq<char>, raw: Seq<char>) -> Seq<char> {
    if accepts(raw) {
        seq!['['] + name + seq![']'] + formatted(body(raw)) + seq!['\n']
    } else {
        Seq::empty()
    }
}

/// The entries of every line whose index exceeds `cursor`, in order.
pub open spec fn batch_of(name: Seq<char>, lines: Seq<Seq<char>>, cursor: int) -> Seq<char>
    decreases lines.len(),
{
    if lines.len() == 0 {
        Seq::empty()
    } else {
        batch_of(name, lines.drop_last(), cursor) + if lines.len() - 1 > cursor {
            event_of(name, lines.last())
        } else {
            Seq::empty()
        }
    }
}

/// The cursor after reading `len` lines: the last index, if it lies past `cursor`.
pub open spec fn advanced(len: int, cursor: int) -> int {
    if len - 1 > cursor {
        len - 1
    } else {
        cursor
    }
}

/// Batch, new cursor and whether the stream is to be rotated, for a stream that is
/// absent (`None`) or holds the given lines.
pub open spec fn tail_result(name: Seq<char>, stream: Option<Seq<Seq<char>>>, cursor: int) -> (
    Seq<char>,
    int,
    bool,
) {
    match stream {
        None => (Seq::empty(), 0, false),
        Some(lines) => if cursor >= ROTATION_THRESHOLD {
            (Seq::empty(), 0, true)
        } else {
            (batch_of(name, lines, cursor), advanced(lines.len() as int, cursor), false)
        },
    }
}

pub open spec fn lines_view(lines: Seq<String>) -> Seq<Seq<char>> {
    lines.map_values(|l: String| l@)
}

pub open spec fn stream_view(stream: Option<&Vec<String>>) -> Option<Seq<Seq<char>>> {
    match stream {
        None => None,
        Some(v) => Some(lines_view(v@)),
    }
}

/// What one tail of a stream yields.
pub struct TailOutcome {
    pub batch: String,
    pub cursor: usize,
    /// The stream is to be deleted and recreated, and the cursor starts over.
    pub rotate: bool,
}

/// `[name]text` and a newline: the batch entry of an event's formatted text.
pub fn chat_entry(server_name: &str, text: &str) -> (r: String)
    ensures
        r@ == seq!['['] + server_name@ + seq![']'] + text@ + seq!['\n'],
{
    proof {
        reveal_strlit("[");
        reveal_strlit("]");
        reveal_strlit("\n");
    }
    let mut out = String::from_str("[");
    out.append(server_name);
    out.append("]");
    out.append(text);
    out.append("\n");
    assert(out@ =~= seq!['['] + server_name@ + seq![']'] + text@ + seq!['\n']);
    out
}

/// The batch entry of one raw line of session `server_name`.
pub fn chat_line(server_name: &str, raw: &str) -> (r: Option<String>)
    ensures
        r is Some <==> accepts(raw@),
        r matches Some(t) ==> t@ == event_of(server_name@, raw@),
{
    match classify(raw) {
        None => None,
        Some(text) => Some(chat_entry(server_name, text.as_str())),
    }
}

/// Reads the lines past `cursor` of a session's stream into one batch.
///
/// An absent stream yields an empty batch and cursor 0. A cursor at or past
/// the rotation threshold drops the batch, resets the cursor to 0 and asks for
/// the stream to be rotated.
pub fn update_messages(server_name: &str, stream: Option<&Vec<String>>, cursor: usize) -> (r: TailOutcome)
    ensures
        (r.batch@, r.cursor as int, r.rotate) == tail_result(server_name@, stream_view(stream), cursor as int),
{
    let lines = match stream {
        None => {
            return TailOutcome { batch: String::new(), cursor: 0, rotate: false };
        },
        Some(v) => v,
    };
    if cursor >= ROTATION_THRESHOLD {
        return TailOutcome { batch: String::new(), cursor: 0, rotate: true };
    }
    let ghost all = lines_view(lines@);
    let mut batch = String::new();
    let mut cur: usize = cursor;
    let mut i: usize = 0;
    while i < lines.len()
        invariant
            all == lines_view(lines@),
            i <= lines.len(),
            batch@ == batch_of(server_name@, all.take(i as int), cursor as int),
            cur as int == if i == 0 { cursor as int } else { advanced(i as int, cursor as int) },
        decreases lines.len() - i,
    {
        assert(all.take(i as int + 1).drop_last() =~= all.take(i as int));
        if i > cur {
            cur = i;
            if let Some(t) = chat_line(server_name, lines[i].as_str()) {
                batch.append(t.as_str());
            }
        }
        i = i + 1;
    }
    assert(all.take(lines.len() as int) =~= all);
    TailOutcome { batch, cursor: cur, rotate: false }
}

/// Counts the lines of a stream; an absent stream counts as empty.
pub fn set_lines(stream: Option<&Vec<String>>) -> (r: usize)
    ensures
        r == match stream {
            None => 0,
            Some(v) => v.len(),
        },
{
    match stream {
        None => 0,
        Some(v) => v.len(),
    }
}

/// Tailing again from the cursor a tail returned, over the same stream, yields an
/// empty batch.
pub proof fn lemma_tail_again_is_empty(name: Seq<char>, stream: Option<Seq<Seq<char>>>, cursor: int)
    requires
        0 <= cursor,
        !tail_result(name, stream, cursor).2,
    ensures
        tail_result(name, stream, tail_result(name, stream, cursor).1).0 == Seq::<char>::empty(),
{
    if let Some(lines) = stream {
        lemma_batch_past_end(name, lines, advanced(lines.len() as int, cursor));
    }
}

pub proof fn lemma_batch_past_end(name: Seq<char>, lines: Seq<Seq<char>>, cursor: int)
    requires
        cursor >= lines.len() - 1,
    ensures
        batch_of(name, lines, cursor) == Seq::<char>::empty(),
    decreases lines.len(),
{
    if lines.len() > 0 {
        lemma_batch_past_end(name, lines.drop_last(), cursor);
        assert(batch_of(name, lines, cursor) =~= Seq::<char>::empty());
    }
}

/// A tail from a cursor at or past the threshold, over an existing stream, returns
/// cursor 0 and an empty batch, and asks for the stream to be rotated.
pub proof fn lemma_rotation_resets(name: Seq<char>, lines: Seq<Seq<char>>, cursor: int)
    requires
        cursor >= ROTATION_THRESHOLD,
    ensures
        tail_result(name, Some(lines), cursor) == (Seq::<char>::empty(), 0int, true),
{
}

} // verus!
