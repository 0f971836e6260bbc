//! Routing an inbound message to a session: administration protocol or keystrokes.
use vstd::prelude::*;
use vstd::string::*;

verus! {

/// An administration-protocol endpoint.
pub struct Rcon {
    /// Address to connect to; the local host where absent.
    pub ip: Option<String>,
    pub port: u16,
    pub password: String,
}

/// Game-process metadata of a session.
pub struct Game {
    pub file_path: Option<String>,
    /// Maintenance ticks between backups.
    pub backup_interval: Option<usize>,
    pub backup_keep: Option<usize>,
}

pub struct Session {
    pub name: String,
    pub rcon: Option<Rcon>,
    pub game: Option<Game>,
}

/// One command to send over a fresh administration-protocol connection.
pub struct RconCommand {
    pub address: String,
    pub port: u16,
    pub password: String,
    pub command: String,
}

/// What to do with an inbound message for one session.
pub enum Injection {
    Rcon(RconCommand),
    /// Arguments of a `tmux` call that types the message into the session.
    Keys(Vec<String>),
    /// The message cannot be typed safely and is dropped.
    Dropped,
}

pub open spec fn default_address() -> Seq<char> {
    seq!['1', '2', '7', '.', '0', '.', '0', '.', '1']
}

pub open spec fn address_of(rcon: Rcon) -> Seq<char> {
    match rcon.ip {
        Some(ip) => ip@,
        None => default_address(),
    }
}

/// `c` sends `msg` to the endpoint `rcon`.
pub open spec fn command_for(c: RconCommand, rcon: Rcon, msg: Seq<char>) -> bool {
    &&& c.address@ == address_of(rcon)
    &&& c.port == rcon.port
    &&& c.password@ == rcon.password@
    &&& c.command@ == msg
}

/// Printable single-byte characters only.
pub open spec fn printable(s: Seq<char>) -> bool {
    forall|i: int| 0 <= i < s.len() ==> ' ' <= #[trigger] s[i] && s[i] <= '~'
}

pub open spec fn strings_view(v: Seq<String>) -> Seq<Seq<char>> {
    v.map_values(|s: String| s@)
}

/// `tmux send-keys -t <target> <keys> Enter`, without the program name.
pub open spec fn send_keys_args(target: Seq<char>, keys: Seq<char>) -> Seq<Seq<char>> {
    seq![
        seq!['s', 'e', 'n', 'd', '-', 'k', 'e', 'y', 's'],
        seq!['-', 't'],
        target,
        keys,
        seq!['E', 'n', 't', 'e', 'r'],
    ]
}

/// The endpoints of the sessions that have one, in order.
pub open spec fn endpoints(sessions: Seq<Session>) -> Seq<Rcon>
    decreases sessions.len(),
{
    if sessions.len() == 0 {
        Seq::empty()
    } else {
        let rest = endpoints(sessions.drop_last());
        match sessions.last().rcon {
            Some(r) => rest.push(r),
            None => rest,
        }
    }
}

fn copy_text(s: &String) -> (r: String)
    ensures
        r@ == s@,
{
    s.clone()
}

/// Whether every character is printable single-byte.
pub fn is_printable(s: &str) -> (r: bool)
    ensures
        r == printable(s@),
{
    let n = s.unicode_len();
    let mut i: usize = 0;
    while i < n
        invariant
            n == s@.len(),
            i <= n,
            forall|j: int| 0 <= j < i ==> ' ' <= #[trigger] s@[j] && s@[j] <= '~',
        decreases n - i,
    {
        let c = s.get_char(i);
        if c < ' ' || c > '~' {
            return false;
        }
        i = i + 1;
    }
    true
}

/// The command that sends `msg` over a fresh connection to `rcon`.
pub fn rcon_command(rcon: &Rcon, msg: &str) -> (r: RconCommand)
    ensures
        command_for(r, *rcon, msg@),
{
    let address = match &rcon.ip {
        Some(ip) => copy_text(ip),
        None => {
            proof {
                reveal_strlit("127.0.0.1");
                assert("127.0.0.1"@ =~= default_address());
            }
            String::from_str("127.0.0.1")
        },
    };
    RconCommand {
        address,
        port: rcon.port,
        password: copy_text(&rcon.password),
        command: String::from_str(msg),
    }
}

/// One command for each session with an endpoint, in order.
pub fn create_rcon_connections(session: &Vec<Session>, msg: &str) -> (r: Vec<RconCommand>)
    ensures
        r@.len() == endpoints(session@).len(),
        forall|i: int| 0 <= i < r@.len() ==> command_for(#[trigger] r@[i], endpoints(session@)[i], msg@),
{
    let mut out: Vec<RconCommand> = Vec::new();
    let mut i: usize = 0;
    while i < session.len()
        invariant
            i <= session.len(),
            out@.len() == endpoints(session@.take(i as int)).len(),
            forall|j: int| 0 <= j < out@.len() ==> command_for(#[trigger] out@[j], endpoints(session@.take(i as int))[j], msg@),
        decreases session.len() - i,
    {
        assert(session@.take(i as int + 1).drop_last() =~= session@.take(i as int));
        if let Some(rcon) = &session[i].rcon {
            out.push(rcon_command(rcon, msg));
        }
        i = i + 1;
    }
    assert(session@.take(session.len() as int) =~= session@);
    out
}

/// The `tmux` arguments that type `message` into session `server_name` and press
/// enter, or `None` where the message holds a character that is not printable
/// single-byte.
pub fn send_command(server_name: &str, message: &str) -> (r: Option<Vec<String>>)
    ensures
        r is Some <==> printable(message@),
        r matches Some(a) ==> strings_view(a@) == send_keys_args(server_name@, message@),
{
    if !is_printable(message) {
        return None;
    }
    proof {
        reveal_strlit("send-keys");
        reveal_strlit("-t");
        reveal_strlit("Enter");
        assert("send-keys"@ =~= send_keys_args(server_name@, message@)[0]);
        assert("-t"@ =~= send_keys_args(server_name@, message@)[1]);
        assert("Enter"@ =~= send_keys_args(server_name@, message@)[4]);
    }
    let mut a: Vec<String> = Vec::new();
    a.push(String::from_str("send-keys"));
    a.push(String::from_str("-t"));
    a.push(String::from_str(server_name));
    a.push(String::from_str(message));
    a.push(String::from_str("Enter"));
    assert(strings_view(a@) =~= send_keys_args(server_name@, message@));
    Some(a)
}

/// Routes `message` to `session`: its endpoint where it has one, else keystrokes
/// into its terminal session, else nowhere.
pub fn inject(session: &Session, message: &str) -> (r: Injection)
    ensures
        session.rcon matches Some(e) ==> (r matches Injection::Rcon(c) && command_for(c, e, message@)),
        session.rcon is None && printable(message@) ==> (r matches Injection::Keys(a) && strings_view(a@)
            == send_keys_args(session.name@, message@)),
        session.rcon is None && !printable(message@) ==> r is Dropped,
{
    match &session.rcon {
        Some(rcon) => Injection::Rcon(rcon_command(rcon, message)),
        None => match send_command(session.name.as_str(), message) {
            Some(a) => Injection::Keys(a),
            None => Injection::Dropped,
        },
    }
}

} // verus!
