//! Decisions of the relay's periodic loops and of capture-stream setup.
use crate::inject::Session;
use vstd::prelude::*;
use vstd::string::*;

verus! {

pub open spec fn tmp_prefix() -> Seq<char> {
    seq!['/', 't', 'm', 'p', '/']
}

pub open spec fn capture_suffix() -> Seq<char> {
    seq!['-', 'l', 'u', 'p', 'u', 's']
}

/// `/tmp/<name>-lupus`: where a session's capture stream lives.
pub open spec fn capture_path(name: Seq<char>) -> Seq<char> {
    tmp_prefix() + name + capture_suffix()
}

pub open spec fn strings_view(v: Seq<String>) -> Seq<Seq<char>> {
    v.map_values(|s: String| s@)
}

/// `tmux pipe-pane -t <name> "cat > <path>"`, without the program name.
pub open spec fn pipe_pane_args(name: Seq<char>) -> Seq<Seq<char>> {
    seq![
        seq!['p', 'i', 'p', 'e', '-', 'p', 'a', 'n', 'e'],
        seq!['-', 't'],
        name,
        seq!['c', 'a', 't', ' ', '>', ' '] + capture_path(name),
    ]
}

/// The steps that set up a session's capture stream.
pub struct PipePlan {
    /// A stale stream file to delete first.
    pub remove: Option<String>,
    /// Arguments of the `tmux` call that redirects the session's output.
    pub pipe_args: Vec<String>,
}

pub fn pipe_path(server_name: &str) -> (r: String)
    ensures
        r@ == capture_path(server_name@),
{
    proof {
        reveal_strlit("/tmp/");
        reveal_strlit("-lupus");
        assert("/tmp/"@ =~= tmp_prefix());
        assert("-lupus"@ =~= capture_suffix());
    }
    let mut r = String::from_str("/tmp/");
    r.append(server_name);
    r.append("-lupus");
    r
}

/// Plans the redirection of a session's output into its capture stream; with
/// `rm`, an existing stream file is deleted first.
pub fn gen_pipe(server_name: &str, rm: bool, exists: bool) -> (r: PipePlan)
    ensures
        r.remove is Some <==> rm && exists,
        r.remove matches Some(p) ==> p@ == capture_path(server_name@),
        strings_view(r.pipe_args@) == pipe_pane_args(server_name@),
{
    let path = pipe_path(server_name);
    proof {
        reveal_strlit("pipe-pane");
        reveal_strlit("-t");
        reveal_strlit("cat > ");
        assert("pipe-pane"@ =~= pipe_pane_args(server_name@)[0]);
        assert("-t"@ =~= pipe_pane_args(server_name@)[1]);
    }
    let mut redirect = String::from_str("cat > ");
    redirect.append(path.as_str());
    assert(redirect@ =~= pipe_pane_args(server_name@)[3]);
    let mut pipe_args: Vec<String> = Vec::new();
    pipe_args.push(String::from_str("pipe-pane"));
    pipe_args.push(String::from_str("-t"));
    pipe_args.push(String::from_str(server_name));
    pipe_args.push(redirect);
    assert(strings_view(pipe_args@) =~= pipe_pane_args(server_name@));
    let remove = if rm && exists {
        Some(path)
    } else {
        None
    };
    PipePlan { remove, pipe_args }
}

/// A backup is due at `tick` for a positive `interval` when the tick is a later
/// multiple of it.
pub open spec fn due_at(tick: int, interval: int) -> bool {
    interval > 0 && tick % interval == 0 && tick > interval
}

pub fn backup_due(tick: usize, interval: usize) -> (r: bool)
    ensures
        r == due_at(tick as int, interval as int),
{
    interval > 0 && tick % interval == 0 && tick > interval
}

/// A session whose data is to be backed up at `tick`.
pub open spec fn session_due(s: Session, tick: int) -> bool {
    match s.game {
        Some(g) => match (g.backup_interval, g.file_path) {
            (Some(iv), Some(_)) => due_at(tick, iv as int),
            _ => false,
        },
        None => false,
    }
}

/// The indices of the sessions due for a backup, in order.
pub open spec fn due_indices(sessions: Seq<Session>, tick: int) -> Seq<usize>
    decreases sessions.len(),
{
    if sessions.len() == 0 {
        Seq::empty()
    } else {
        let rest = due_indices(sessions.drop_last(), tick);
        if session_due(sessions.last(), tick) {
            rest.push((sessions.len() - 1) as usize)
        } else {
            rest
        }
    }
}

/// The sessions that the maintenance loop backs up at `tick`.
pub fn backups_due(sessions: &Vec<Session>, tick: usize) -> (r: Vec<usize>)
    ensures
        r@ == due_indices(sessions@, tick as int),
{
    let mut out: Vec<usize> = Vec::new();
    let mut i: usize = 0;
    while i < sessions.len()
        invariant
            i <= sessions.len(),
            out@ == due_indices(sessions@.take(i as int), tick as int),
        decreases sessions.len() - i,
    {
        assert(sessions@.take(i as int + 1).drop_last() =~= sessions@.take(i as int));
        let due = match &sessions[i].game {
            Some(g) => match (g.backup_interval, &g.file_path) {
                (Some(iv), Some(_)) => backup_due(tick, iv),
                _ => false,
            },
            None => false,
        };
        if due {
            out.push(i);
        }
        i = i + 1;
    }
    assert(sessions@.take(sessions.len() as int) =~= sessions@);
    out
}

/// The batches joined by newlines.
pub open spec fn joined(parts: Seq<Seq<char>>) -> Seq<char>
    decreases parts.len(),
{
    if parts.len() == 0 {
        Seq::empty()
    } else if parts.len() == 1 {
        parts[0]
    } else {
        joined(parts.drop_last()) + seq!['\n'] + parts.last()
    }
}

/// `MSG ` followed by the session batches joined by newlines: the text of one relay
/// round.
pub fn relay_message(batches: &Vec<String>) -> (r: String)
    ensures
        r@ == seq!['M', 'S', 'G', ' '] + joined(strings_view(batches@)),
{
    proof {
        reveal_strlit("MSG ");
        reveal_strlit("\n");
        assert("MSG "@ =~= seq!['M', 'S', 'G', ' ']);
        assert("\n"@ =~= seq!['\n']);
    }
    let ghost all = strings_view(batches@);
    let mut r = String::from_str("MSG ");
    let mut i: usize = 0;
    while i < batches.len()
        invariant
            all == strings_view(batches@),
            "\n"@ == seq!['\n'],
            i <= batches.len(),
            r@ == seq!['M', 'S', 'G', ' '] + joined(all.take(i as int)),
        decreases batches.len() - i,
    {
        let ghost t = all.take(i as int + 1);
        assert(t.drop_last() =~= all.take(i as int));
        assert(t.last() == batches@[i as int]@);
        assert(t.len() == i + 1);
        let ghost r0 = r@;
        assert(r0 == seq!['M', 'S', 'G', ' '] + joined(t.drop_last()));
        if i > 0 {
            r.append("\n");
            r.append(batches[i].as_str());
            assert(joined(t) == joined(t.drop_last()) + seq!['\n'] + t.last());
            assert(r@ == r0 + seq!['\n'] + t.last());
        } else {
            r.append(batches[i].as_str());
            assert(joined(t) == t[0]);
            assert(joined(all.take(0)) == Seq::<char>::empty());
            assert(r@ == r0 + t.last());
        }
        assert(r@ =~= seq!['M', 'S', 'G', ' '] + joined(all.take(i as int + 1)));
        i = i + 1;
    }
    assert(all.take(batches.len() as int) =~= all);
    r
}

} // verus!
