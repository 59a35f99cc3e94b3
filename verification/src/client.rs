//! The desktop app's side of the daemon connection: where the daemon
//! listens, and the bookkeeping that matches replies to requests. The
//! socket, the JSON and the UI events are the caller's.
use vstd::prelude::*;
use crate::text::{chars_of, string_of, strip_prefix};
use std::collections::HashSet;
use vstd::std_specs::iter::IteratorSpec;

verus! {

broadcast use vstd::std_specs::hash::group_hash_axioms;

/// Where the daemon listens.
pub enum Endpoint {
    Unix(String),
    Tcp(String),
}

/// The daemon's address: `FANGD_ADDR` when set, else the system socket.
pub fn daemon_addr(env: Option<String>) -> (r: String)
    ensures
        match env {
            Some(a) => r@ == a@,
            None => r@ == "unix:/run/fangd.sock"@,
        },
{
    match env {
        Some(a) => a,
        None => String::from_str("unix:/run/fangd.sock"),
    }
}

/// `unix:PATH` is a Unix socket; otherwise TCP, with an optional `tcp:`.
pub open spec fn endpoint_spec(addr: Seq<char>) -> (bool, Seq<char>) {
    if crate::text::starts_with(addr, "unix:"@) {
        (true, addr.skip("unix:"@.len() as int))
    } else if crate::text::starts_with(addr, "tcp:"@) {
        (false, addr.skip("tcp:"@.len() as int))
    } else {
        (false, addr)
    }
}

pub fn endpoint(addr: &str) -> (r: Endpoint)
    ensures
        match r {
            Endpoint::Unix(p) => endpoint_spec(addr@) == (true, p@),
            Endpoint::Tcp(t) => endpoint_spec(addr@) == (false, t@),
        },
{
    let a = chars_of(addr);
    match strip_prefix(&a, "unix:") {
        Some(path) => Endpoint::Unix(string_of(&path)),
        None => match strip_prefix(&a, "tcp:") {
            Some(target) => Endpoint::Tcp(string_of(&target)),
            None => Endpoint::Tcp(string_of(&a)),
        },
    }
}

/// The requests of one connection: the next id to issue and the ids still
/// awaiting a reply.
pub struct Book {
    pub next_id: u64,
    pub pending: HashSet<u64>,
}

impl Book {
    /// Ids awaiting replies were issued earlier.
    pub open spec fn wf(&self) -> bool {
        forall|x: u64| #[trigger] self.pending@.contains(x) ==> x < self.next_id
    }

    /// A fresh connection: ids start at 1, nothing is pending.
    pub fn new() -> (r: Book)
        ensures
            r.wf(),
            r.next_id == 1,
            r.pending@ == Set::<u64>::empty(),
    {
        Book { next_id: 1, pending: HashSet::new() }
    }

    /// The id for the next request.
    pub fn issue(&mut self) -> (r: u64)
        requires
            old(self).wf(),
            old(self).next_id < u64::MAX,
        ensures
            final(self).wf(),
            r == old(self).next_id,
            final(self).next_id == old(self).next_id + 1,
            final(self).pending@ == old(self).pending@,
            !old(self).pending@.contains(r),
    {
        let id = self.next_id;
        self.next_id = self.next_id + 1;
        id
    }

    /// Record that request `id`, the last one issued, was sent and awaits
    /// its reply.
    pub fn awaiting(&mut self, id: u64)
        requires
            old(self).wf(),
            id < old(self).next_id,
        ensures
            final(self).wf(),
            final(self).next_id == old(self).next_id,
            final(self).pending@ == old(self).pending@.insert(id),
    {
        self.pending.insert(id);
    }

    /// Take the waiter of reply `id`: whether one was waiting; the id no
    /// longer is.
    pub fn settle(&mut self, id: u64) -> (r: bool)
        requires
            old(self).wf(),
        ensures
            final(self).wf(),
            final(self).next_id == old(self).next_id,
            r == old(self).pending@.contains(id),
            final(self).pending@ == old(self).pending@.remove(id),
    {
        self.pending.remove(&id)
    }

    /// Every id still awaiting a reply, each once, leaving none: the
    /// connection is gone and each waiter is told so.
    pub fn drain(&mut self) -> (r: Vec<u64>)
        requires
            old(self).wf(),
        ensures
            final(self).wf(),
            r@.to_set() == old(self).pending@,
            r@.no_duplicates(),
            final(self).pending@ == Set::<u64>::empty(),
            final(self).next_id == old(self).next_id,
    {
        let mut taken: Vec<u64> = Vec::new();
        for id in it: self.pending.iter()
            invariant
                taken@ == it.seq().take(it.index() as int).unref(),
                it.seq() == self.pending.iter().remaining(),
        {
            taken.push(*id);
            proof {
                assert(taken@ =~= it.seq().take(it.index() + 1).unref());
            }
        }
        proof {
            let keys = self.pending.iter().remaining();
            assert(taken@ =~= keys.unref());
        }
        self.pending.clear();
        taken
    }
}

/// What to do with a reply from the daemon.
pub enum ReplyRoute {
    /// Hand it to the waiter of its id.
    Waiter,
    /// Nobody waits; a successful status answer to the connection's own
    /// priming `get_status` is shown as the current status.
    Status,
    /// Drop it.
    Ignore,
}

/// Route a reply: to its waiter if one is pending, else a successful reply
/// that carries a status (it has a `perf_mode`) updates the shown status.
pub fn reply_route(book: &mut Book, id: u64, ok: bool, has_perf_mode: bool) -> (r: ReplyRoute)
    requires
        old(book).wf(),
    ensures
        final(book).wf(),
        final(book).next_id == old(book).next_id,
        old(book).pending@.contains(id) ==> r is Waiter,
        !old(book).pending@.contains(id) ==> (if ok && has_perf_mode {
            r is Status
        } else {
            r is Ignore
        }),
        !final(book).pending@.contains(id),
        final(book).pending@ == old(book).pending@.remove(id),
{
    if book.settle(id) {
        ReplyRoute::Waiter
    } else if ok && has_perf_mode {
        ReplyRoute::Status
    } else {
        ReplyRoute::Ignore
    }
}

} // verus!
