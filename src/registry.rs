//! The set of connected subscribers and broadcasting to them.
use tokio::sync::mpsc::UnboundedSender;
use vstd::prelude::*;
use vstd::string::*;
use warp::ws::Message;

verus! {

/// tokio's unbounded channel sender, carried through opaquely.
#[verifier::external_type_specification]
#[verifier::external_body]
#[verifier::reject_recursive_types(T)]
pub struct ExUnboundedSender<T>(UnboundedSender<T>);

/// warp's websocket message, carried through opaquely.
#[verifier::external_type_specification]
#[verifier::external_body]
pub struct ExMessage(Message);

/// warp's error type, carried through opaquely.
#[verifier::external_type_specification]
#[verifier::external_body]
pub struct ExWarpError(warp::Error);

/// The outbound half of a subscriber's connection.
pub type Outbound = UnboundedSender<Result<Message, warp::Error>>;

/// Relies on tokio's `UnboundedSender::send`, which fails once the receiving half is
/// closed; the text goes out as a warp text message. Whether it fails depends on the
/// channel, so nothing is stated of the result.
#[verifier::external_body]
fn deliver(sender: &Outbound, text: &str) -> (r: bool) {
    sender.send(Ok(Message::text(text))).is_ok()
}

/// Whether two texts hold the same characters.
fn same_text(a: &str, b: &str) -> (r: bool)
    ensures
        r == (a@ == b@),
{
    let n = a.unicode_len();
    if n != b.unicode_len() {
        return false;
    }
    let mut i: usize = 0;
    while i < n
        invariant
            n == a@.len(),
            n == b@.len(),
            i <= n,
            forall|j: int| 0 <= j < i ==> a@[j] == b@[j],
        decreases n - i,
    {
        if a.get_char(i) != b.get_char(i) {
            return false;
        }
        i = i + 1;
    }
    assert(a@ =~= b@);
    true
}

/// The ids whose flag is set, in their order.
pub open spec fn keep(ids: Seq<Seq<char>>, flags: Seq<bool>) -> Seq<Seq<char>>
    decreases ids.len(),
{
    if ids.len() == 0 {
        Seq::empty()
    } else {
        let rest = keep(ids.drop_last(), flags.take(ids.len() - 1));
        if flags[ids.len() - 1] {
            rest.push(ids.last())
        } else {
            rest
        }
    }
}

/// How many flags are unset.
pub open spec fn count_unset(flags: Seq<bool>) -> nat
    decreases flags.len(),
{
    if flags.len() == 0 {
        0
    } else {
        count_unset(flags.drop_last()) + if flags.last() {
            0nat
        } else {
            1nat
        }
    }
}

/// The flags that keep every id but `id`.
pub open spec fn all_but(ids: Seq<Seq<char>>, id: Seq<char>) -> Seq<bool> {
    ids.map_values(|x: Seq<char>| x != id)
}

/// The tag that marks a text as chat output for subscribers.
pub open spec fn chat_out(msg: Seq<char>) -> Seq<char> {
    seq!['C', 'H', 'A', 'T', '_', 'O', 'U', 'T', ' '] + msg
}

pub struct Subscriber {
    pub id: String,
    pub sender: Outbound,
}

/// Subscribers by id, each id at most once.
pub struct Registry {
    subs: Vec<Subscriber>,
}

impl View for Registry {
    type V = Seq<Seq<char>>;

    closed spec fn view(&self) -> Seq<Seq<char>> {
        self.subs@.map_values(|s: Subscriber| s.id@)
    }
}

pub proof fn lemma_keep_facts(ids: Seq<Seq<char>>, flags: Seq<bool>)
    requires
        flags.len() == ids.len(),
    ensures
        keep(ids, flags).len() + count_unset(flags) == ids.len(),
        forall|x: Seq<char>| keep(ids, flags).contains(x) ==> ids.contains(x),
        ids.no_duplicates() ==> keep(ids, flags).no_duplicates(),
    decreases ids.len(),
{
    if ids.len() > 0 {
        let p = ids.drop_last();
        let f = flags.take(ids.len() - 1);
        assert(f =~= flags.drop_last());
        lemma_keep_facts(p, f);
        let k = keep(p, f);
        assert forall|x: Seq<char>| keep(ids, flags).contains(x) implies ids.contains(x) by {
            if k.contains(x) {
                assert(p.contains(x));
                let j = choose|j: int| 0 <= j < p.len() && p[j] == x;
                assert(ids[j] == x);
            } else {
                assert(ids[ids.len() - 1] == x);
            }
        }
        if ids.no_duplicates() {
            assert(p.no_duplicates());
            if flags[ids.len() - 1] {
                assert(!k.contains(ids.last())) by {
                    if k.contains(ids.last()) {
                        assert(p.contains(ids.last()));
                        let j = choose|j: int| 0 <= j < p.len() && p[j] == ids.last();
                        assert(ids[j] == ids[ids.len() - 1]);
                        assert(j != ids.len() - 1);
                    }
                }
                let kk = k.push(ids.last());
                assert forall|a: int, b: int| 0 <= a < kk.len() && 0 <= b < kk.len() && a != b
                    implies kk[a] != kk[b] by {
                    if a < k.len() && b < k.len() {
                    } else if a < k.len() {
                        assert(k.contains(kk[a]));
                    } else {
                        assert(k.contains(kk[b]));
                    }
                }
            }
        }
    }
}

impl Registry {
    pub open spec fn wf(&self) -> bool {
        self@.no_duplicates()
    }

    pub fn new() -> (r: Registry)
        ensures
            r@ == Seq::<Seq<char>>::empty(),
            r.wf(),
    {
        let r = Registry { subs: Vec::new() };
        assert(r@ =~= Seq::<Seq<char>>::empty());
        r
    }

    pub fn len(&self) -> (r: usize)
        ensures
            r == self@.len(),
    {
        self.subs.len()
    }

    pub fn contains(&self, id: &str) -> (r: bool)
        ensures
            r == self@.contains(id@),
    {
        let mut i: usize = 0;
        while i < self.subs.len()
            invariant
                i <= self.subs.len(),
                forall|j: int| 0 <= j < i ==> self@[j] != id@,
            decreases self.subs.len() - i,
        {
            let same = same_text(self.subs[i].id.as_str(), id);
            if same {
                assert(self@[i as int] == id@);
                return true;
            }
            i = i + 1;
        }
        proof {
            if self@.contains(id@) {
                let j = choose|j: int| 0 <= j < self@.len() && self@[j] == id@;
                assert(self@[j] != id@);
            }
        }
        false
    }

    /// Registers a subscriber; an id already present keeps its place and takes the
    /// new channel.
    pub fn add(&mut self, id: String, sender: Outbound)
        requires
            old(self).wf(),
        ensures
            final(self).wf(),
            final(self)@ == if old(self)@.contains(id@) {
                old(self)@
            } else {
                old(self)@.push(id@)
            },
    {
        let mut i: usize = 0;
        while i < self.subs.len()
            invariant
                self@ == old(self)@,
                self.wf(),
                i <= self.subs.len(),
                forall|j: int| 0 <= j < i ==> self@[j] != id@,
            decreases self.subs.len() - i,
        {
            let same = same_text(self.subs[i].id.as_str(), id.as_str());
            if same {
                let ghost before = self@;
                self.subs.set(i, Subscriber { id, sender });
                assert(self@ =~= before);
                assert(old(self)@.contains(id@)) by {
                    assert(old(self)@[i as int] == id@);
                }
                return;
            }
            i = i + 1;
        }
        let ghost before = self@;
        assert(!before.contains(id@)) by {
            if before.contains(id@) {
                let j = choose|j: int| 0 <= j < before.len() && before[j] == id@;
                assert(before[j] != id@);
            }
        }
        self.subs.push(Subscriber { id, sender });
        assert(self@ =~= before.push(id@));
        assert forall|a: int, b: int| 0 <= a < self@.len() && 0 <= b < self@.len() && a != b
            implies self@[a] != self@[b] by {
            if a < before.len() && b < before.len() {
            } else if a < before.len() {
                assert(before.contains(self@[a]));
            } else {
                assert(before.contains(self@[b]));
            }
        }
    }

    /// Keeps the subscribers whose flag is set, in their order.
    fn retain_flagged(&mut self, flags: &Vec<bool>)
        requires
            flags@.len() == old(self)@.len(),
        ensures
            final(self)@ == keep(old(self)@, flags@),
    {
        let mut rest: Vec<Subscriber> = Vec::new();
        std::mem::swap(&mut self.subs, &mut rest);
        let ghost all = rest@.map_values(|s: Subscriber| s.id@);
        assert(all == old(self)@);
        let n = rest.len();
        let mut i: usize = 0;
        assert(self@ =~= Seq::<Seq<char>>::empty());
        while i < n
            invariant
                n == all.len(),
                flags@.len() == n,
                i <= n,
                rest@.len() == n - i,
                forall|j: int| 0 <= j < rest@.len() ==> #[trigger] rest@[j].id@ == all[i + j],
                self@ == keep(all.take(i as int), flags@.take(i as int)),
            decreases n - i,
        {
            let ghost prev = rest@;
            let s = rest.remove(0);
            assert(s.id@ == all[i as int]);
            assert(all.take(i as int + 1).drop_last() =~= all.take(i as int));
            assert(flags@.take(i as int + 1).take(i as int) =~= flags@.take(i as int));
            if flags[i] {
                let ghost before = self@;
                self.subs.push(s);
                assert(self@ =~= before.push(all[i as int]));
            }
            assert forall|j: int| 0 <= j < rest@.len() implies #[trigger] rest@[j].id@ == all[i + 1 + j] by {
                assert(rest@[j].id@ == prev[j + 1].id@);
            }
            i = i + 1;
        }
        assert(all.take(n as int) =~= all);
        assert(flags@.take(n as int) =~= flags@);
    }

    /// Removes the subscriber with this id, if any.
    pub fn remove(&mut self, id: &str)
        requires
            old(self).wf(),
        ensures
            final(self).wf(),
            final(self)@ == keep(old(self)@, all_but(old(self)@, id@)),
            !final(self)@.contains(id@),
    {
        let mut flags: Vec<bool> = Vec::new();
        let mut i: usize = 0;
        while i < self.subs.len()
            invariant
                i <= self.subs.len(),
                flags@ == all_but(self@, id@).take(i as int),
            decreases self.subs.len() - i,
        {
            let other = !same_text(self.subs[i].id.as_str(), id);
            flags.push(other);
            assert(flags@ =~= all_but(self@, id@).take(i as int + 1));
            i = i + 1;
        }
        assert(flags@ =~= all_but(self@, id@));
        proof {
            lemma_keep_facts(self@, flags@);
            lemma_keep_drops_unflagged(self@, flags@, id@);
        }
        self.retain_flagged(&flags);
    }

    /// Sends `text` to every subscriber. Returns, in registry order, whether each
    /// send went through; a subscriber whose send failed is removed, the others stay
    /// in their order.
    pub fn broadcast(&mut self, text: &str) -> (delivered: Vec<bool>)
        requires
            old(self).wf(),
        ensures
            final(self).wf(),
            delivered@.len() == old(self)@.len(),
            final(self)@ == keep(old(self)@, delivered@),
            final(self)@.len() == old(self)@.len() - count_unset(delivered@),
    {
        let mut delivered: Vec<bool> = Vec::new();
        let mut i: usize = 0;
        while i < self.subs.len()
            invariant
                i <= self.subs.len(),
                delivered@.len() == i,
            decreases self.subs.len() - i,
        {
            let ok = deliver(&self.subs[i].sender, text);
            delivered.push(ok);
            i = i + 1;
        }
        proof {
            lemma_keep_facts(self@, delivered@);
        }
        self.retain_flagged(&delivered);
        delivered
    }
}

pub proof fn lemma_keep_drops_unflagged(ids: Seq<Seq<char>>, flags: Seq<bool>, id: Seq<char>)
    requires
        flags == all_but(ids, id),
    ensures
        !keep(ids, flags).contains(id),
    decreases ids.len(),
{
    if ids.len() > 0 {
        let p = ids.drop_last();
        assert(flags.take(ids.len() - 1) =~= all_but(p, id));
        lemma_keep_drops_unflagged(p, flags.take(ids.len() - 1), id);
        let k = keep(p, flags.take(ids.len() - 1));
        if flags[ids.len() - 1] {
            assert(ids.last() != id);
            assert forall|j: int| 0 <= j < k.push(ids.last()).len() implies k.push(ids.last())[j] != id by {
                if j < k.len() {
                    assert(!k.contains(id));
                    assert(k[j] != id);
                }
            }
        }
    }
}

/// Tags `msg` as chat output and broadcasts it to every subscriber.
pub fn send_to_discord(clients: &mut Registry, msg: &str) -> (delivered: Vec<bool>)
    requires
        old(clients).wf(),
    ensures
        final(clients).wf(),
        delivered@.len() == old(clients)@.len(),
        final(clients)@ == keep(old(clients)@, delivered@),
{
    let text = chat_out_text(msg);
    clients.broadcast(text.as_str())
}

/// `CHAT_OUT ` followed by `msg`.
pub fn chat_out_text(msg: &str) -> (r: String)
    ensures
        r@ == chat_out(msg@),
{
    proof {
        reveal_strlit("CHAT_OUT ");
    }
    let mut r = String::from_str("CHAT_OUT ");
    r.append(msg);
    r
}

/// Where exactly one send fails, every other subscriber stays registered: one fewer
/// than before.
pub proof fn lemma_one_failed_send(ids: Seq<Seq<char>>, delivered: Seq<bool>)
    requires
        delivered.len() == ids.len(),
        count_unset(delivered) == 1,
    ensures
        keep(ids, delivered).len() == ids.len() - 1,
{
    lemma_keep_facts(ids, delivered);
}

} // verus!
