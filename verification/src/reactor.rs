//! The reactor: the process-wide registry that turns kernel readiness into
//! task wakes.
//!
//! The registry keeps one waiter per direction per file descriptor
//! (re-registration displaces the earlier waiter), and a drain-then-close set
//! of descriptors whose owning stream is gone. A background loop, run by the
//! embedding program, sweeps the closing set, builds a poll plan from the
//! registered descriptors, calls the OS, and dispatches the readiness it
//! reports back through [`Reactor::dispatch`].
//!
//! The waker itself is any type `W` the embedding chooses; the reactor only
//! stores and hands back such values, so everything it does is verified
//! against a map model: file descriptor to waiter, per direction.

use vstd::prelude::*;

use crate::sock::spec_would_block;
use crate::sock::would_block;

verus! {

/// No file descriptor occurs twice among the entries.
pub open spec fn fds_unique<W>(s: Seq<(i32, W)>) -> bool {
    forall|i: int, j: int|
        0 <= i < j < s.len() ==> (#[trigger] s[i]).0 != (#[trigger] s[j]).0
}

/// Some entry carries this file descriptor.
pub open spec fn has_fd<W>(s: Seq<(i32, W)>, fd: i32) -> bool {
    exists|k: int| 0 <= k < s.len() && (#[trigger] s[k]).0 == fd
}

/// The map a sequence of (descriptor, waiter) entries stands for; a later
/// entry for the same descriptor supersedes an earlier one.
pub open spec fn fd_map<W>(s: Seq<(i32, W)>) -> Map<i32, W>
    decreases s.len(),
{
    if s.len() == 0 {
        Map::empty()
    } else {
        fd_map(s.drop_last()).insert(s.last().0, s.last().1)
    }
}

/// The map has a key exactly when some entry carries it.
pub proof fn lemma_fd_map_dom<W>(s: Seq<(i32, W)>)
    ensures
        forall|fd: i32| #[trigger] fd_map(s).contains_key(fd) <==> has_fd(s, fd),
    decreases s.len(),
{
    if s.len() > 0 {
        let dl = s.drop_last();
        lemma_fd_map_dom(dl);
        assert(fd_map(s) == fd_map(dl).insert(s.last().0, s.last().1));
        assert forall|fd: i32| #[trigger] fd_map(s).contains_key(fd) implies has_fd(s, fd) by {
            if fd == s.last().0 {
                assert((s[s.len() - 1]).0 == fd);
            } else {
                assert(fd_map(dl).contains_key(fd));
                let k = choose|k: int| 0 <= k < dl.len() && (#[trigger] dl[k]).0 == fd;
                assert((s[k]).0 == fd);
            }
        }
        assert forall|fd: i32| has_fd(s, fd) implies #[trigger] fd_map(s).contains_key(fd) by {
            let k = choose|k: int| 0 <= k < s.len() && (#[trigger] s[k]).0 == fd;
            if k == s.len() - 1 {
                assert(fd == s.last().0);
            } else {
                assert((dl[k]).0 == fd);
                assert(has_fd(dl, fd));
                assert(fd_map(dl).contains_key(fd));
            }
        }
    }
}

/// Appending a fresh entry inserts it into the map.
pub proof fn lemma_fd_map_push<W>(s: Seq<(i32, W)>, fd: i32, w: W)
    ensures
        fd_map(s.push((fd, w))) == fd_map(s).insert(fd, w),
{
    assert(s.push((fd, w)).drop_last() =~= s);
}

/// Appending a descriptor no entry carries keeps the entries duplicate-free.
pub proof fn lemma_unique_push<W>(s: Seq<(i32, W)>, fd: i32, w: W)
    requires
        fds_unique(s),
        !has_fd(s, fd),
    ensures
        fds_unique(s.push((fd, w))),
{
    let t = s.push((fd, w));
    assert forall|i: int, j: int| 0 <= i < j < t.len() implies (#[trigger] t[i]).0 != (
    #[trigger] t[j]).0 by {
        if j == s.len() {
            if (t[i]).0 == fd {
                assert(0 <= i < s.len() && (s[i]).0 == fd);
                assert(has_fd(s, fd));
            }
        }
    }
}

/// Removing the entry at `i` removes its descriptor from the map, provided
/// the entries are duplicate-free; the entry's waiter is the mapped value.
pub proof fn lemma_fd_map_remove<W>(s: Seq<(i32, W)>, i: int)
    requires
        fds_unique(s),
        0 <= i < s.len(),
    ensures
        fds_unique(s.remove(i)),
        fd_map(s).contains_key((s[i]).0),
        fd_map(s)[(s[i]).0] == (s[i]).1,
        fd_map(s.remove(i)) == fd_map(s).remove((s[i]).0),
    decreases s.len(),
{
    let fd = (s[i]).0;
    let dl = s.drop_last();
    assert(fds_unique(dl)) by {
        assert forall|a: int, b: int| 0 <= a < b < dl.len() implies (#[trigger] dl[a]).0 != (
        #[trigger] dl[b]).0 by {
            assert(dl[a] == s[a] && dl[b] == s[b]);
        }
    }
    assert forall|a: int, b: int| 0 <= a < b < s.remove(i).len() implies (
    #[trigger] s.remove(i)[a]).0 != (#[trigger] s.remove(i)[b]).0 by {
        let a2 = if a < i { a } else { a + 1 };
        let b2 = if b < i { b } else { b + 1 };
        assert(s.remove(i)[a] == s[a2] && s.remove(i)[b] == s[b2]);
    }
    lemma_fd_map_dom(s);
    lemma_fd_map_dom(dl);
    if i == s.len() - 1 {
        assert(s.remove(i) =~= dl);
        assert(!has_fd(dl, fd)) by {
            if has_fd(dl, fd) {
                let k = choose|k: int| 0 <= k < dl.len() && (#[trigger] dl[k]).0 == fd;
                assert((s[k]).0 == (s[i]).0);
            }
        }
        assert(!fd_map(dl).contains_key(fd));
        assert(fd_map(s) == fd_map(dl).insert(fd, (s[i]).1));
        assert(fd_map(s.remove(i)) =~= fd_map(s).remove(fd));
    } else {
        let v = s.last();
        lemma_fd_map_remove(dl, i);
        assert((dl[i]) == s[i]);
        assert(v.0 != fd) by {
            assert((s[i]).0 != (s[s.len() - 1]).0);
        }
        assert(s.remove(i) =~= dl.remove(i).push(v));
        lemma_fd_map_push(dl.remove(i), v.0, v.1);
        assert(fd_map(s) == fd_map(dl).insert(v.0, v.1));
        assert(fd_map(dl).remove(fd).insert(v.0, v.1) =~= fd_map(dl).insert(v.0, v.1).remove(fd));
        assert(fd_map(s.remove(i)) == fd_map(s).remove(fd));
        assert(fd_map(s)[fd] == fd_map(dl)[fd]);
    }
}

/// Find the index of the entry carrying `fd`, if any.
fn find_fd<W>(v: &Vec<(i32, W)>, fd: i32) -> (r: Option<usize>)
    ensures
        match r {
            Some(i) => i < v@.len() && (v@[i as int]).0 == fd,
            None => !has_fd(v@, fd),
        },
{
    let n = v.len();
    let mut i: usize = 0;
    while i < n
        invariant
            n == v@.len(),
            i <= n,
            forall|k: int| 0 <= k < i ==> (#[trigger] v@[k]).0 != fd,
        decreases n - i,
    {
        if v[i].0 == fd {
            return Some(i);
        }
        i = i + 1;
    }
    None
}

/// Remove and return the waiter registered for `fd`, if any.
fn take_waiter<W>(v: &mut Vec<(i32, W)>, fd: i32) -> (r: Option<W>)
    requires
        fds_unique(old(v)@),
    ensures
        fds_unique(final(v)@),
        fd_map(final(v)@) =~= fd_map(old(v)@).remove(fd),
        !has_fd(final(v)@, fd),
        match r {
            Some(w) => {
                &&& fd_map(old(v)@).contains_key(fd)
                &&& w == fd_map(old(v)@)[fd]
            },
            None => {
                &&& !fd_map(old(v)@).contains_key(fd)
                &&& final(v)@ == old(v)@
            },
        },
{
    match find_fd(v, fd) {
        Some(i) => {
            proof {
                lemma_fd_map_remove(v@, i as int);
            }
            let p = v.remove(i);
            proof {
                lemma_fd_map_dom(v@);
            }
            Some(p.1)
        },
        None => {
            proof {
                lemma_fd_map_dom(v@);
                assert(fd_map(v@).remove(fd) =~= fd_map(v@));
            }
            None
        },
    }
}

/// Install `w` as the sole waiter for `fd`, displacing (and dropping) any
/// waiter registered for it before.
fn put_waiter<W>(v: &mut Vec<(i32, W)>, fd: i32, w: W)
    requires
        fds_unique(old(v)@),
    ensures
        fds_unique(final(v)@),
        fd_map(final(v)@) == fd_map(old(v)@).insert(fd, w),
{
    let ghost m0 = fd_map(old(v)@);
    let _displaced = take_waiter(v, fd);
    proof {
        lemma_unique_push(v@, fd, w);
        lemma_fd_map_push(v@, fd, w);
    }
    v.push((fd, w));
    proof {
        assert(fd_map(v@) =~= m0.insert(fd, w));
    }
}

/// Removing one occurrence from a duplicate-free sequence removes the element
/// from the set it stands for.
proof fn lemma_remove_to_set(s: Seq<i32>, i: int)
    requires
        s.no_duplicates(),
        0 <= i < s.len(),
    ensures
        s.remove(i).no_duplicates(),
        s.remove(i).to_set() =~= s.to_set().remove(s[i]),
{
    let t = s.remove(i);
    assert forall|a: int, b: int|
        0 <= a < b < t.len() implies #[trigger] t[a] != #[trigger] t[b] by {
        let a2 = if a < i { a } else { a + 1 };
        let b2 = if b < i { b } else { b + 1 };
        assert(t[a] == s[a2] && t[b] == s[b2]);
    }
    assert forall|y: i32| #[trigger] t.to_set().contains(y) implies s.to_set().remove(
        s[i],
    ).contains(y) by {
        let k = choose|k: int| 0 <= k < t.len() && t[k] == y;
        let k2 = if k < i { k } else { k + 1 };
        assert(s[k2] == y);
        assert(y != s[i]);
    }
    assert forall|y: i32| s.to_set().remove(s[i]).contains(y) implies #[trigger] t.to_set()
        .contains(y) by {
        let k = choose|k: int| 0 <= k < s.len() && s[k] == y;
        assert(k != i);
        let k2 = if k < i { k } else { k - 1 };
        assert(t[k2] == y);
    }
}

/// A sequence's set gains exactly the pushed element.
proof fn lemma_push_to_set(s: Seq<i32>, x: i32)
    ensures
        s.push(x).to_set() =~= s.to_set().insert(x),
{
    let t = s.push(x);
    assert forall|y: i32| #[trigger] t.to_set().contains(y) implies s.to_set().insert(x).contains(
        y,
    ) by {
        let k = choose|k: int| 0 <= k < t.len() && t[k] == y;
        if k < s.len() {
            assert(s[k] == y);
        }
    }
    assert forall|y: i32| s.to_set().insert(x).contains(y) implies #[trigger] t.to_set().contains(
        y,
    ) by {
        if y == x {
            assert(t[s.len() as int] == y);
        } else {
            let k = choose|k: int| 0 <= k < s.len() && s[k] == y;
            assert(t[k] == y);
        }
    }
}

/// Whether `v` holds `x`.
fn vec_has(v: &Vec<i32>, x: i32) -> (r: bool)
    ensures
        r == v@.contains(x),
{
    let n = v.len();
    let mut i: usize = 0;
    while i < n
        invariant
            n == v@.len(),
            i <= n,
            forall|k: int| 0 <= k < i ==> v@[k] != x,
        decreases n - i,
    {
        if v[i] == x {
            return true;
        }
        i = i + 1;
    }
    proof {
        if v@.contains(x) {
            let k = choose|k: int| 0 <= k < v@.len() && v@[k] == x;
        }
    }
    false
}

/// The reactor's registry: the read and write waiter maps and the set of
/// descriptors waiting to be drained and closed.
///
/// The waiter type `W` is whatever capability the embedding wakes tasks with;
/// the reactor never looks inside it.
pub struct Reactor<W> {
    reads: Vec<(i32, W)>,
    writes: Vec<(i32, W)>,
    closing: Vec<i32>,
}

/// One entry of a poll plan: a descriptor and the direction to watch it for.
#[derive(PartialEq, Eq, Structural, Debug)]
pub struct PollEntry {
    /// The descriptor to hand to the OS readiness call.
    pub fd: i32,
    /// True to request writable events for it, false readable ones.
    pub wants_write: bool,
}

impl<W> Reactor<W> {
    /// The read-waiter entries, in registration order.
    pub closed spec fn read_entries(self) -> Seq<(i32, W)> {
        self.reads@
    }

    /// The write-waiter entries, in registration order.
    pub closed spec fn write_entries(self) -> Seq<(i32, W)> {
        self.writes@
    }

    /// The read-waiter map: descriptor to the sole waiter awaiting readability.
    pub open spec fn read_waiters(self) -> Map<i32, W> {
        fd_map(self.read_entries())
    }

    /// The write-waiter map: descriptor to the sole waiter awaiting writability.
    pub open spec fn write_waiters(self) -> Map<i32, W> {
        fd_map(self.write_entries())
    }

    /// The descriptors enrolled for drain-then-close, in enrollment order.
    pub closed spec fn closing_entries(self) -> Seq<i32> {
        self.closing@
    }

    /// The set of descriptors enrolled for drain-then-close.
    pub open spec fn closing_set(self) -> Set<i32> {
        self.closing_entries().to_set()
    }

    /// The registry is well formed: no descriptor occurs twice in a
    /// direction's entries, nor twice in the closing set's entries.
    pub open spec fn wf(self) -> bool {
        &&& fds_unique(self.read_entries())
        &&& fds_unique(self.write_entries())
        &&& self.closing_entries().no_duplicates()
    }

    /// Law: at most one waker per descriptor per direction — two read-waiter
    /// entries carrying the same descriptor are one and the same entry (and
    /// likewise for write waiters, by [`Self::lemma_single_write_waiter`]).
    pub proof fn lemma_single_read_waiter(self, i: int, j: int)
        requires
            self.wf(),
            0 <= i < self.read_entries().len(),
            0 <= j < self.read_entries().len(),
            (self.read_entries()[i]).0 == (self.read_entries()[j]).0,
        ensures
            i == j,
    {
    }

    /// Law: at most one waker per descriptor in the write direction.
    pub proof fn lemma_single_write_waiter(self, i: int, j: int)
        requires
            self.wf(),
            0 <= i < self.write_entries().len(),
            0 <= j < self.write_entries().len(),
            (self.write_entries()[i]).0 == (self.write_entries()[j]).0,
        ensures
            i == j,
    {
    }

    /// A fresh registry: nothing registered, nothing closing.
    pub fn new() -> (r: Reactor<W>)
        ensures
            r.wf(),
            r.read_waiters() == Map::<i32, W>::empty(),
            r.write_waiters() == Map::<i32, W>::empty(),
            r.closing_set() == Set::<i32>::empty(),
    {
        let r = Reactor { reads: Vec::new(), writes: Vec::new(), closing: Vec::new() };
        proof {
            assert(r.closing_set() =~= Set::<i32>::empty());
        }
        r
    }

    /// Install `w` as the sole read-awaiter for `fd`; a waiter registered
    /// earlier for the same descriptor is displaced and dropped.
    pub fn register_read(&mut self, fd: i32, w: W)
        requires
            old(self).wf(),
        ensures
            final(self).wf(),
            final(self).read_waiters() == old(self).read_waiters().insert(fd, w),
            final(self).write_entries() == old(self).write_entries(),
            final(self).closing_entries() == old(self).closing_entries(),
    {
        put_waiter(&mut self.reads, fd, w);
    }

    /// Install `w` as the sole write-awaiter for `fd`; a waiter registered
    /// earlier for the same descriptor is displaced and dropped.
    pub fn register_write(&mut self, fd: i32, w: W)
        requires
            old(self).wf(),
        ensures
            final(self).wf(),
            final(self).write_waiters() == old(self).write_waiters().insert(fd, w),
            final(self).read_entries() == old(self).read_entries(),
            final(self).closing_entries() == old(self).closing_entries(),
    {
        put_waiter(&mut self.writes, fd, w);
    }

    /// Remove and return the read waiter for `fd`, if one is registered; an
    /// absent entry is a no-op, so dispatching after the waiter map changed
    /// underneath the poll is harmless.
    pub fn take_read_waiter(&mut self, fd: i32) -> (r: Option<W>)
        requires
            old(self).wf(),
        ensures
            final(self).wf(),
            final(self).read_waiters() =~= old(self).read_waiters().remove(fd),
            final(self).write_entries() == old(self).write_entries(),
            final(self).closing_entries() == old(self).closing_entries(),
            match r {
                Some(w) => old(self).read_waiters().contains_key(fd) && w == old(
                    self,
                ).read_waiters()[fd],
                None => !old(self).read_waiters().contains_key(fd),
            },
    {
        take_waiter(&mut self.reads, fd)
    }

    /// Remove and return the write waiter for `fd`, if one is registered.
    pub fn take_write_waiter(&mut self, fd: i32) -> (r: Option<W>)
        requires
            old(self).wf(),
        ensures
            final(self).wf(),
            final(self).write_waiters() =~= old(self).write_waiters().remove(fd),
            final(self).read_entries() == old(self).read_entries(),
            final(self).closing_entries() == old(self).closing_entries(),
            match r {
                Some(w) => old(self).write_waiters().contains_key(fd) && w == old(
                    self,
                ).write_waiters()[fd],
                None => !old(self).write_waiters().contains_key(fd),
            },
    {
        take_waiter(&mut self.writes, fd)
    }

    /// Dispatch the readiness the OS reported for one polled descriptor: on
    /// any non-zero event mask, consume and hand back the waiters of both
    /// directions, to be woken by the caller. Waking is edge-triggered: the
    /// waiter is consumed, and a task that suspends again must re-register.
    ///
    /// If one descriptor has both a read and a write waiter and became ready,
    /// both are handed back in the same iteration.
    pub fn dispatch(&mut self, fd: i32, revents: i16) -> (r: (Option<W>, Option<W>))
        requires
            old(self).wf(),
        ensures
            final(self).wf(),
            final(self).closing_entries() == old(self).closing_entries(),
            revents == 0 ==> *final(self) == *old(self) && r == (None::<W>, None::<W>),
            revents != 0 ==> {
                &&& final(self).read_waiters() =~= old(self).read_waiters().remove(fd)
                &&& final(self).write_waiters() =~= old(self).write_waiters().remove(fd)
                &&& match r.0 {
                    Some(w) => old(self).read_waiters().contains_key(fd) && w == old(
                        self,
                    ).read_waiters()[fd],
                    None => !old(self).read_waiters().contains_key(fd),
                }
                &&& match r.1 {
                    Some(w) => old(self).write_waiters().contains_key(fd) && w == old(
                        self,
                    ).write_waiters()[fd],
                    None => !old(self).write_waiters().contains_key(fd),
                }
            },
    {
        if revents == 0 {
            (None, None)
        } else {
            let rw = self.take_read_waiter(fd);
            let ww = self.take_write_waiter(fd);
            (rw, ww)
        }
    }

    /// A stream is being dropped: remove its waiters in both directions and
    /// enroll the descriptor for drain-then-close, all in one step, so that by
    /// the time the background loop can close it no waiter remains.
    pub fn mark_closing(&mut self, fd: i32)
        requires
            old(self).wf(),
        ensures
            final(self).wf(),
            final(self).read_waiters() =~= old(self).read_waiters().remove(fd),
            final(self).write_waiters() =~= old(self).write_waiters().remove(fd),
            final(self).closing_set() =~= old(self).closing_set().insert(fd),
    {
        let _ = take_waiter(&mut self.reads, fd);
        let _ = take_waiter(&mut self.writes, fd);
        if !vec_has(&self.closing, fd) {
            proof {
                lemma_push_to_set(self.closing@, fd);
            }
            self.closing.push(fd);
        } else {
            proof {
                assert(self.closing@.to_set() =~= self.closing@.to_set().insert(fd));
            }
        }
    }

    /// The descriptor has been closed: take it out of the closing set.
    pub fn finish_close(&mut self, fd: i32)
        requires
            old(self).wf(),
        ensures
            final(self).wf(),
            final(self).read_entries() == old(self).read_entries(),
            final(self).write_entries() == old(self).write_entries(),
            final(self).closing_set() =~= old(self).closing_set().remove(fd),
    {
        let n = self.closing.len();
        let mut i: usize = 0;
        while i < n
            invariant
                n == self.closing@.len(),
                i <= n,
                forall|k: int| 0 <= k < i ==> self.closing@[k] != fd,
                old(self).wf(),
                *self == *old(self),
            decreases n - i,
        {
            if self.closing[i] == fd {
                proof {
                    lemma_remove_to_set(self.closing@, i as int);
                }
                self.closing.remove(i);
                return ;
            }
            i = i + 1;
        }
        proof {
            if self.closing@.to_set().contains(fd) {
                let k = choose|k: int| 0 <= k < self.closing@.len() && self.closing@[k] == fd;
            }
            assert(self.closing@.to_set() =~= self.closing@.to_set().remove(fd));
        }
    }

    /// The closing set, as a list for the sweep to walk.
    pub fn closing_snapshot(&self) -> (r: Vec<i32>)
        ensures
            r@ == self.closing_entries(),
    {
        let n = self.closing.len();
        let mut out: Vec<i32> = Vec::new();
        let mut i: usize = 0;
        while i < n
            invariant
                n == self.closing@.len(),
                i <= n,
                out@ == self.closing@.subrange(0, i as int),
            decreases n - i,
        {
            out.push(self.closing[i]);
            proof {
                assert(out@ =~= self.closing@.subrange(0, i + 1));
            }
            i = i + 1;
        }
        proof {
            assert(self.closing@.subrange(0, n as int) =~= self.closing@);
        }
        out
    }

    /// How many waiters are registered over both directions; the background
    /// loop idles (sleeps instead of polling) exactly when this is zero.
    pub fn waiter_count(&self) -> (r: usize)
        requires
            self.read_entries().len() + self.write_entries().len() <= usize::MAX,
        ensures
            r == self.read_entries().len() + self.write_entries().len(),
            r == 0 ==> self.read_waiters() =~= Map::<i32, W>::empty() && self.write_waiters()
                =~= Map::<i32, W>::empty(),
    {
        self.reads.len() + self.writes.len()
    }

    /// The poll plan: one entry asking for readability per read waiter, then
    /// one asking for writability per write waiter, mirroring the entry order
    /// of the two maps.
    pub fn poll_plan(&self) -> (r: Vec<PollEntry>)
        ensures
            r@.len() == self.read_entries().len() + self.write_entries().len(),
            forall|k: int|
                0 <= k < self.read_entries().len() ==> r@[k] == (PollEntry {
                    fd: (#[trigger] self.read_entries()[k]).0,
                    wants_write: false,
                }),
            forall|k: int|
                0 <= k < self.write_entries().len() ==> r@[k + self.read_entries().len()] == (
                PollEntry { fd: (#[trigger] self.write_entries()[k]).0, wants_write: true }),
    {
        let mut out: Vec<PollEntry> = Vec::new();
        let nr = self.reads.len();
        let mut i: usize = 0;
        while i < nr
            invariant
                nr == self.reads@.len(),
                i <= nr,
                out@.len() == i,
                forall|k: int|
                    0 <= k < i ==> out@[k] == (PollEntry {
                        fd: (#[trigger] self.reads@[k]).0,
                        wants_write: false,
                    }),
            decreases nr - i,
        {
            out.push(PollEntry { fd: self.reads[i].0, wants_write: false });
            i = i + 1;
        }
        let nw = self.writes.len();
        let mut j: usize = 0;
        while j < nw
            invariant
                nr == self.reads@.len(),
                nw == self.writes@.len(),
                j <= nw,
                out@.len() == nr + j,
                forall|k: int|
                    0 <= k < nr ==> out@[k] == (PollEntry {
                        fd: (#[trigger] self.reads@[k]).0,
                        wants_write: false,
                    }),
                forall|k: int|
                    0 <= k < j ==> out@[k + nr] == (PollEntry {
                        fd: (#[trigger] self.writes@[k]).0,
                        wants_write: true,
                    }),
            decreases nw - j,
        {
            out.push(PollEntry { fd: self.writes[j].0, wants_write: true });
            j = j + 1;
        }
        out
    }
}

/// What the drain-close sweep does with one enrolled descriptor, given the
/// result of one non-blocking read into a discard buffer.
#[derive(PartialEq, Eq, Structural, Debug)]
pub enum DrainAction {
    /// In-flight bytes arrived, or the peer is merely slow: keep the
    /// descriptor enrolled and try again on the next sweep.
    KeepOpen,
    /// The peer finished (EOF) or failed hard: close the descriptor now and
    /// take it out of the closing set.
    CloseNow,
}

/// Decide one drain-close probe: positive counts keep draining, would-block
/// waits for the next sweep, and EOF or any hard error closes at once.
pub fn drain_action(bytes_read: isize, errno: i32, eagain: i32, ewouldblock: i32) -> (r:
    DrainAction)
    ensures
        bytes_read > 0 ==> r == DrainAction::KeepOpen,
        bytes_read == 0 ==> r == DrainAction::CloseNow,
        bytes_read < 0 && spec_would_block(errno, eagain, ewouldblock) ==> r
            == DrainAction::KeepOpen,
        bytes_read < 0 && !spec_would_block(errno, eagain, ewouldblock) ==> r
            == DrainAction::CloseNow,
{
    if bytes_read > 0 {
        DrainAction::KeepOpen
    } else if bytes_read < 0 && would_block(errno, eagain, ewouldblock) {
        DrainAction::KeepOpen
    } else {
        DrainAction::CloseNow
    }
}

/// How the background loop reacts to the return of one OS `poll` call.
#[derive(PartialEq, Eq, Structural, Debug)]
pub enum PollVerdict {
    /// The poll failed for a reason other than an interrupting signal: a
    /// programming bug such as a bad descriptor; the process must abort.
    Fatal,
    /// The poll was interrupted by a signal: loop again.
    Retry,
    /// The poll timed out with no descriptor ready: loop again.
    Quiet,
    /// Some descriptors are ready: dispatch their entries.
    Dispatch,
}

/// Classify the return of the readiness call: negative is fatal unless the
/// error is an interrupt; zero means the timeout elapsed; positive means
/// readiness to dispatch.
pub fn poll_verdict(rc: i32, errno: i32, eintr: i32) -> (r: PollVerdict)
    ensures
        rc < 0 && errno == eintr ==> r == PollVerdict::Retry,
        rc < 0 && errno != eintr ==> r == PollVerdict::Fatal,
        rc == 0 ==> r == PollVerdict::Quiet,
        rc > 0 ==> r == PollVerdict::Dispatch,
{
    if rc < 0 {
        if errno == eintr {
            PollVerdict::Retry
        } else {
            PollVerdict::Fatal
        }
    } else if rc == 0 {
        PollVerdict::Quiet
    } else {
        PollVerdict::Dispatch
    }
}

} // verus!
