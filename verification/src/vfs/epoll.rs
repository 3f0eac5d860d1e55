//! Epoll instances: an interest list keyed by descriptor, and the ready
//! events a wait reports.

use vstd::prelude::*;
use crate::abi::{
    EEXIST, EINVAL, ENOENT, EPOLL_CTL_ADD, EPOLL_CTL_DEL, EPOLL_CTL_MOD, EPOLLERR, EPOLLHUP, EPOLLIN,
    EPOLLOUT, S_IFREG,
};
use crate::vfs::pipe::InodePollFlags;
use crate::vfs::ramfs::Stat;

verus! {

/// An epoll event: the event bits and the user's datum.
#[derive(Debug, Clone, Copy, PartialEq, Eq, Structural)]
pub struct EpollEvent {
    pub events: u32,
    pub data: u64,
}

/// The interests are sorted by descriptor, each descriptor once.
pub open spec fn sorted_interests(s: Seq<(i32, EpollEvent)>) -> bool {
    forall|i: int, j: int| 0 <= i < j < s.len() ==> s[i].0 < s[j].0
}

/// The interests as a map from descriptor to event.
pub open spec fn interest_map(s: Seq<(i32, EpollEvent)>) -> Map<i32, EpollEvent> {
    Map::new(|fd: i32| exists|i: int| 0 <= i < s.len() && s[i].0 == fd,
        |fd: i32| s[choose|i: int| 0 <= i < s.len() && s[i].0 == fd].1)
}

/// The events that fire for `interest` on a file with readiness `p`:
/// input and output only when asked for, hang-up and error always.
pub open spec fn triggered(interest: EpollEvent, p: InodePollFlags) -> u32 {
    (if interest.events & EPOLLIN != 0 && p.readable { EPOLLIN } else { 0 })
        | (if interest.events & EPOLLOUT != 0 && p.writable { EPOLLOUT } else { 0 })
        | (if p.hangup { EPOLLHUP } else { 0 })
        | (if p.error { EPOLLERR } else { 0 })
}

/// The ready events from interest `i` on, at most `limit` of them, in
/// descriptor order; `polls[i]` is the readiness of the file behind
/// interest `i`, `None` when the descriptor is no longer open.
pub open spec fn ready_events(ints: Seq<(i32, EpollEvent)>, polls: Seq<Option<InodePollFlags>>, i: int, limit: int) -> Seq<EpollEvent>
    decreases ints.len() - i,
{
    if i < 0 || i >= ints.len() || limit <= 0 {
        Seq::empty()
    } else {
        match polls[i] {
            Some(p) => if triggered(ints[i].1, p) != 0 {
                seq![EpollEvent { events: triggered(ints[i].1, p), data: ints[i].1.data }]
                    + ready_events(ints, polls, i + 1, limit - 1)
            } else {
                ready_events(ints, polls, i + 1, limit)
            },
            None => ready_events(ints, polls, i + 1, limit),
        }
    }
}

/// The bits of a fired event: input and output exactly when the interest
/// asks for them and the file is ready for them; hang-up and error exactly
/// when the file reports them, asked for or not.
pub proof fn lemma_triggered_bits(interest: EpollEvent, p: InodePollFlags)
    ensures
        (triggered(interest, p) & EPOLLIN != 0) == (interest.events & EPOLLIN != 0 && p.readable),
        (triggered(interest, p) & EPOLLOUT != 0) == (interest.events & EPOLLOUT != 0 && p.writable),
        (triggered(interest, p) & EPOLLHUP != 0) == p.hangup,
        (triggered(interest, p) & EPOLLERR != 0) == p.error,
{
    let a: u32 = if interest.events & EPOLLIN != 0 && p.readable { 1 } else { 0 };
    let b: u32 = if interest.events & EPOLLOUT != 0 && p.writable { 4 } else { 0 };
    let c: u32 = if p.hangup { 16 } else { 0 };
    let d: u32 = if p.error { 8 } else { 0 };
    assert(triggered(interest, p) == a | b | c | d);
    assert((a == 0 || a == 1) && (b == 0 || b == 4) && (c == 0 || c == 16) && (d == 0 || d == 8) ==> {
        &&& ((a | b | c | d) & 1 != 0) == (a == 1)
        &&& ((a | b | c | d) & 4 != 0) == (b == 4)
        &&& ((a | b | c | d) & 16 != 0) == (c == 16)
        &&& ((a | b | c | d) & 8 != 0) == (d == 8)
    }) by (bit_vector);
}

/// A wait that may report every interest reports each interest whose file
/// fires some event, with those event bits and the interest's datum.
pub proof fn lemma_ready_reports_fired(ints: Seq<(i32, EpollEvent)>, polls: Seq<Option<InodePollFlags>>, from: int, limit: int, i: int)
    requires
        0 <= from <= i < ints.len(),
        limit >= ints.len() - from,
        polls[i] is Some,
        triggered(ints[i].1, polls[i]->Some_0) != 0,
    ensures
        ready_events(ints, polls, from, limit).contains(
            EpollEvent { events: triggered(ints[i].1, polls[i]->Some_0), data: ints[i].1.data }),
    decreases i - from,
{
    let e = EpollEvent { events: triggered(ints[i].1, polls[i]->Some_0), data: ints[i].1.data };
    if from == i {
        assert(ready_events(ints, polls, from, limit)[0] == e);
    } else {
        let fired = polls[from] matches Some(p) && triggered(ints[from].1, p) != 0;
        let next_limit = if fired { limit - 1 } else { limit };
        lemma_ready_reports_fired(ints, polls, from + 1, next_limit, i);
        let rest = ready_events(ints, polls, from + 1, next_limit);
        let k = choose|k: int| 0 <= k < rest.len() && rest[k] == e;
        if fired {
            let head = seq![EpollEvent { events: triggered(ints[from].1, polls[from]->Some_0), data: ints[from].1.data }];
            assert(ready_events(ints, polls, from, limit) == head + rest);
            assert((head + rest)[k + 1] == e);
        } else {
            assert(ready_events(ints, polls, from, limit) == rest);
        }
    }
}

/// At most `limit` events are ready.
pub proof fn lemma_ready_len(ints: Seq<(i32, EpollEvent)>, polls: Seq<Option<InodePollFlags>>, i: int, limit: int)
    ensures
        ready_events(ints, polls, i, limit).len() <= if limit > 0 { limit } else { 0 },
    decreases ints.len() - i,
{
    if !(i < 0 || i >= ints.len() || limit <= 0) {
        lemma_ready_len(ints, polls, i + 1, limit - 1);
        lemma_ready_len(ints, polls, i + 1, limit);
    }
}

/// What `ctl(op, fd, _)` returns on interest list `before`.
pub open spec fn ctl_result(before: Seq<(i32, EpollEvent)>, op: i32, fd: i32) -> Result<(), i32> {
    let present = interest_map(before).contains_key(fd);
    if op == EPOLL_CTL_ADD {
        if present { Err(EEXIST) } else { Ok(()) }
    } else if op == EPOLL_CTL_MOD || op == EPOLL_CTL_DEL {
        if present { Ok(()) } else { Err(ENOENT) }
    } else {
        Err(EINVAL)
    }
}

/// `ctl(op, fd, event)` took interest list `before` to `after` with result
/// `r`: `EPOLL_CTL_ADD` adds `fd` (`EEXIST` if present), `EPOLL_CTL_MOD`
/// replaces its event (`ENOENT` if absent), `EPOLL_CTL_DEL` removes it
/// (`ENOENT` if absent); any other `op` is `EINVAL`; a failure changes
/// nothing.
pub open spec fn ctl_outcome(before: Seq<(i32, EpollEvent)>, after: Seq<(i32, EpollEvent)>, op: i32, fd: i32,
    event: EpollEvent, r: Result<(), i32>) -> bool {
    let present = interest_map(before).contains_key(fd);
    if op == EPOLL_CTL_ADD {
        if present {
            r == Err::<(), i32>(EEXIST) && after == before
        } else {
            r is Ok && interest_map(after) == interest_map(before).insert(fd, event)
        }
    } else if op == EPOLL_CTL_MOD {
        if present {
            r is Ok && interest_map(after) == interest_map(before).insert(fd, event)
        } else {
            r == Err::<(), i32>(ENOENT) && after == before
        }
    } else if op == EPOLL_CTL_DEL {
        if present {
            r is Ok && interest_map(after) == interest_map(before).remove(fd)
        } else {
            r == Err::<(), i32>(ENOENT) && after == before
        }
    } else {
        r == Err::<(), i32>(EINVAL) && after == before
    }
}

/// An epoll instance.
pub struct EpollInstance {
    interests: Vec<(i32, EpollEvent)>,
}

impl EpollInstance {
    /// The interest list, by descriptor.
    pub closed spec fn view(&self) -> Seq<(i32, EpollEvent)> {
        self.interests@
    }

    /// The interest list is sorted with unique descriptors.
    #[verifier::type_invariant]
    spec fn sorted(&self) -> bool {
        sorted_interests(self.interests@)
    }

    /// An instance with no interests.
    pub fn new() -> (r: Self)
        ensures
            r@ == Seq::<(i32, EpollEvent)>::empty(),
    {
        EpollInstance { interests: Vec::new() }
    }

    fn position(&self, fd: i32) -> (r: (usize, bool))
        requires
            sorted_interests(self@),
        ensures
            r.0 <= self@.len(),
            forall|i: int| 0 <= i < r.0 ==> #[trigger] self@[i].0 < fd,
            r.1 <==> (r.0 < self@.len() && self@[r.0 as int].0 == fd),
            r.0 < self@.len() ==> self@[r.0 as int].0 >= fd,
    {
        let mut i: usize = 0;
        while i < self.interests.len()
            invariant
                i <= self@.len(),
                forall|j: int| 0 <= j < i ==> #[trigger] self@[j].0 < fd,
            decreases self@.len() - i,
        {
            let f = self.interests[i].0;
            if f >= fd {
                return (i, f == fd);
            }
            i += 1;
        }
        (i, false)
    }

    /// Changes the interest list. `EPOLL_CTL_ADD` adds `fd` (`EEXIST` if
    /// present), `EPOLL_CTL_MOD` replaces its event (`ENOENT` if absent),
    /// `EPOLL_CTL_DEL` removes it (`ENOENT` if absent); any other `op` is
    /// `EINVAL`. A failed call changes nothing.
    pub fn ctl(&mut self, op: i32, fd: i32, event: EpollEvent) -> (r: Result<(), i32>)
        ensures
            r == ctl_result(old(self)@, op, fd),
            ctl_outcome(old(self)@, final(self)@, op, fd, event, r),
    {
        proof {
            use_type_invariant(&*self);
        }
        let (pos, found) = self.position(fd);
        proof {
            if found {
                assert(interest_map(self@).contains_key(fd));
            } else {
                assert(!interest_map(self@).contains_key(fd)) by {
                    if exists|i: int| 0 <= i < self@.len() && self@[i].0 == fd {
                        let i = choose|i: int| 0 <= i < self@.len() && self@[i].0 == fd;
                        if i >= pos {
                            if i > pos {
                                assert(self@[pos as int].0 < self@[i].0);
                            }
                        }
                    }
                }
            }
        }
        if op == EPOLL_CTL_ADD {
            if found {
                return Err(EEXIST);
            }
            proof {
                lemma_insert_at(self@, pos as int, fd, event);
            }
            let mut v: Vec<(i32, EpollEvent)> = Vec::new();
            std::mem::swap(&mut v, &mut self.interests);
            v.insert(pos, (fd, event));
            self.interests = v;
            Ok(())
        } else if op == EPOLL_CTL_MOD {
            if !found {
                return Err(ENOENT);
            }
            proof {
                lemma_set_at(self@, pos as int, fd, event);
            }
            let mut v: Vec<(i32, EpollEvent)> = Vec::new();
            std::mem::swap(&mut v, &mut self.interests);
            v.set(pos, (fd, event));
            self.interests = v;
            Ok(())
        } else if op == EPOLL_CTL_DEL {
            if !found {
                return Err(ENOENT);
            }
            proof {
                lemma_remove_at(self@, pos as int, fd);
            }
            let mut v: Vec<(i32, EpollEvent)> = Vec::new();
            std::mem::swap(&mut v, &mut self.interests);
            let _ = v.remove(pos);
            self.interests = v;
            Ok(())
        } else {
            Err(EINVAL)
        }
    }

    /// The descriptors of the interest list, in order (the files whose
    /// readiness a wait needs).
    pub fn interest_fds(&self) -> (r: Vec<i32>)
        ensures
            r@.len() == self@.len(),
            forall|i: int| 0 <= i < self@.len() ==> #[trigger] r@[i] == self@[i].0,
    {
        let mut out: Vec<i32> = Vec::new();
        let mut i: usize = 0;
        while i < self.interests.len()
            invariant
                i <= self@.len(),
                out@.len() == i,
                forall|j: int| 0 <= j < i ==> #[trigger] out@[j] == self@[j].0,
            decreases self@.len() - i,
        {
            out.push(self.interests[i].0);
            i += 1;
        }
        out
    }

    /// Collects ready events into `events`: `EINVAL` when `maxevents` is
    /// zero or `events` is empty; otherwise, in descriptor order, each
    /// interest whose file is open (`polls[i]`) and fires adds an event,
    /// until `min(maxevents, events.len())` are found. Returns the count;
    /// the found events fill the front of `events`.
    pub fn wait(&self, polls: &Vec<Option<InodePollFlags>>, events: &mut Vec<EpollEvent>, maxevents: usize)
        -> (r: Result<usize, i32>)
        requires
            polls@.len() == self@.len(),
        ensures
            final(events)@.len() == old(events)@.len(),
            (maxevents == 0 || old(events)@.len() == 0) ==> r == Err::<usize, i32>(EINVAL) && final(events)@ == old(events)@,
            !(maxevents == 0 || old(events)@.len() == 0) ==> {
                let limit = if maxevents < old(events)@.len() { maxevents as int } else { old(events)@.len() as int };
                let found = ready_events(self@, polls@, 0, limit);
                &&& r == Ok::<usize, i32>(found.len() as usize)
                &&& final(events)@.subrange(0, found.len() as int) == found
                &&& final(events)@.subrange(found.len() as int, old(events)@.len() as int)
                    == old(events)@.subrange(found.len() as int, old(events)@.len() as int)
            },
    {
        if maxevents == 0 || events.len() == 0 {
            return Err(EINVAL);
        }
        let limit: usize = if maxevents < events.len() { maxevents } else { events.len() };
        let ghost e0 = events@;
        let mut ready: usize = 0;
        let mut i: usize = 0;
        proof {
            lemma_ready_len(self@, polls@, 0, limit as int);
        }
        while i < self.interests.len()
            invariant
                i <= self@.len(),
                polls@.len() == self@.len(),
                limit <= e0.len(),
                limit > 0,
                ready <= limit,
                events@.len() == e0.len(),
                ready_events(self@, polls@, 0, limit as int)
                    == events@.subrange(0, ready as int) + ready_events(self@, polls@, i as int, limit - ready),
                events@.subrange(ready as int, e0.len() as int) == e0.subrange(ready as int, e0.len() as int),
            ensures
                i <= self@.len(),
                ready <= limit,
                events@.len() == e0.len(),
                ready_events(self@, polls@, 0, limit as int)
                    == events@.subrange(0, ready as int) + ready_events(self@, polls@, i as int, limit - ready),
                events@.subrange(ready as int, e0.len() as int) == e0.subrange(ready as int, e0.len() as int),
                i == self@.len() || ready == limit,
            decreases self@.len() - i,
        {
            if ready >= limit {
                break;
            }
            let interest = self.interests[i].1;
            match polls[i] {
                Some(p) => {
                    let t: u32 = (if (interest.events & EPOLLIN) != 0 && p.readable { EPOLLIN } else { 0 })
                        | (if (interest.events & EPOLLOUT) != 0 && p.writable { EPOLLOUT } else { 0 })
                        | (if p.hangup { EPOLLHUP } else { 0 })
                        | (if p.error { EPOLLERR } else { 0 });
                    if t != 0 {
                        let ghost before = events@;
                        events.set(ready, EpollEvent { events: t, data: interest.data });
                        proof {
                            assert(events@.subrange(0, ready as int + 1) =~= before.subrange(0, ready as int).push(
                                EpollEvent { events: t, data: interest.data }));
                            assert(events@.subrange(ready as int + 1, e0.len() as int) =~= e0.subrange(ready as int + 1, e0.len() as int)) by {
                                assert forall|j: int| ready + 1 <= j < e0.len() implies events@[j] == e0[j] by {
                                    assert(before.subrange(ready as int, e0.len() as int)[j - ready] == e0.subrange(ready as int, e0.len() as int)[j - ready]);
                                }
                            }
                            assert(ready_events(self@, polls@, i as int, limit - ready) =~= seq![EpollEvent { events: t, data: interest.data }]
                                + ready_events(self@, polls@, i as int + 1, limit - ready - 1));
                            assert(events@.subrange(0, ready as int + 1) + ready_events(self@, polls@, i as int + 1, limit - (ready + 1))
                                =~= before.subrange(0, ready as int) + ready_events(self@, polls@, i as int, limit - ready));
                        }
                        ready += 1;
                    }
                },
                None => {},
            }
            i += 1;
        }
        proof {
            if i < self@.len() {
                assert(ready == limit);
            }
            assert(ready_events(self@, polls@, i as int, limit - ready) =~= Seq::<EpollEvent>::empty());
        }
        Ok(ready)
    }
}

proof fn lemma_insert_at(s: Seq<(i32, EpollEvent)>, pos: int, fd: i32, e: EpollEvent)
    requires
        sorted_interests(s),
        0 <= pos <= s.len(),
        forall|i: int| 0 <= i < pos ==> #[trigger] s[i].0 < fd,
        pos < s.len() ==> s[pos].0 > fd,
    ensures
        sorted_interests(s.insert(pos, (fd, e))),
        interest_map(s.insert(pos, (fd, e))) == interest_map(s).insert(fd, e),
{
    let t = s.insert(pos, (fd, e));
    assert forall|i: int, j: int| 0 <= i < j < t.len() implies t[i].0 < t[j].0 by {
        if j == pos {
        } else if i == pos {
            assert(s[j - 1].0 >= s[pos].0 || j - 1 == pos);
        }
    }
    lemma_map_of_sorted(t);
    lemma_map_of_sorted(s);
    assert(interest_map(t) =~= interest_map(s).insert(fd, e)) by {
        assert forall|k: i32| interest_map(t).contains_key(k) <==> interest_map(s).insert(fd, e).contains_key(k) by {
            if interest_map(s).contains_key(k) {
                let i = choose|i: int| 0 <= i < s.len() && s[i].0 == k;
                if i < pos { assert(t[i].0 == k); } else { assert(t[i + 1].0 == k); }
            }
            if interest_map(t).contains_key(k) && k != fd {
                let i = choose|i: int| 0 <= i < t.len() && t[i].0 == k;
                if i < pos { assert(s[i].0 == k); } else if i > pos { assert(s[i - 1].0 == k); }
            }
            if k == fd {
                assert(t[pos].0 == fd);
            }
        }
        assert forall|k: i32| #[trigger] interest_map(t).contains_key(k) implies interest_map(t)[k] == interest_map(s).insert(fd, e)[k] by {
            if k == fd {
                assert(t[pos].0 == fd);
            } else {
                let i = choose|i: int| 0 <= i < t.len() && t[i].0 == k;
                if i < pos { assert(s[i].0 == k); } else { assert(s[i - 1].0 == k); }
            }
        }
    }
}

proof fn lemma_set_at(s: Seq<(i32, EpollEvent)>, pos: int, fd: i32, e: EpollEvent)
    requires
        sorted_interests(s),
        0 <= pos < s.len(),
        s[pos].0 == fd,
    ensures
        sorted_interests(s.update(pos, (fd, e))),
        interest_map(s.update(pos, (fd, e))) == interest_map(s).insert(fd, e),
{
    let t = s.update(pos, (fd, e));
    lemma_map_of_sorted(t);
    lemma_map_of_sorted(s);
    assert(interest_map(t) =~= interest_map(s).insert(fd, e)) by {
        assert forall|k: i32| interest_map(t).contains_key(k) <==> interest_map(s).insert(fd, e).contains_key(k) by {
            if interest_map(s).contains_key(k) {
                let i = choose|i: int| 0 <= i < s.len() && s[i].0 == k;
                assert(t[i].0 == k);
            }
            if interest_map(t).contains_key(k) {
                let i = choose|i: int| 0 <= i < t.len() && t[i].0 == k;
                assert(s[i].0 == k);
            }
        }
        assert forall|k: i32| #[trigger] interest_map(t).contains_key(k) implies interest_map(t)[k] == interest_map(s).insert(fd, e)[k] by {
            if k == fd {
                assert(t[pos].0 == fd);
            } else {
                let i = choose|i: int| 0 <= i < t.len() && t[i].0 == k;
                assert(s[i].0 == k);
            }
        }
    }
}

proof fn lemma_remove_at(s: Seq<(i32, EpollEvent)>, pos: int, fd: i32)
    requires
        sorted_interests(s),
        0 <= pos < s.len(),
        s[pos].0 == fd,
    ensures
        sorted_interests(s.remove(pos)),
        interest_map(s.remove(pos)) == interest_map(s).remove(fd),
{
    let t = s.remove(pos);
    lemma_map_of_sorted(t);
    lemma_map_of_sorted(s);
    assert(interest_map(t) =~= interest_map(s).remove(fd)) by {
        assert forall|k: i32| interest_map(t).contains_key(k) <==> interest_map(s).remove(fd).contains_key(k) by {
            if interest_map(s).contains_key(k) && k != fd {
                let i = choose|i: int| 0 <= i < s.len() && s[i].0 == k;
                if i < pos { assert(t[i].0 == k); } else { assert(t[i - 1].0 == k); }
            }
            if interest_map(t).contains_key(k) {
                let i = choose|i: int| 0 <= i < t.len() && t[i].0 == k;
                if i < pos { assert(s[i].0 == k); } else { assert(s[i + 1].0 == k); }
            }
        }
        assert forall|k: i32| #[trigger] interest_map(t).contains_key(k) implies interest_map(t)[k] == interest_map(s).remove(fd)[k] by {
            let i = choose|i: int| 0 <= i < t.len() && t[i].0 == k;
            if i < pos { assert(s[i].0 == k); } else { assert(s[i + 1].0 == k); }
        }
    }
}

/// In a sorted list, the entry found for a descriptor is its only entry.
proof fn lemma_map_of_sorted(s: Seq<(i32, EpollEvent)>)
    requires
        sorted_interests(s),
    ensures
        forall|i: int| 0 <= i < s.len() ==> #[trigger] interest_map(s)[s[i].0] == s[i].1 && interest_map(s).contains_key(s[i].0),
{
    assert forall|i: int| 0 <= i < s.len() implies #[trigger] interest_map(s)[s[i].0] == s[i].1 && interest_map(s).contains_key(s[i].0) by {
        let k = s[i].0;
        assert(exists|j: int| 0 <= j < s.len() && s[j].0 == k);
        let c = choose|j: int| 0 <= j < s.len() && s[j].0 == k;
        if c < i {
            assert(s[c].0 < s[i].0);
        } else if c > i {
            assert(s[i].0 < s[c].0);
        }
    }
}

/// What `fstat` reports for an epoll instance: a regular file, mode 0600.
pub fn epoll_stat() -> (r: Stat)
    ensures
        r == (Stat { st_mode: S_IFREG | 0o600, st_uid: 0, st_gid: 0, st_size: 0 }),
{
    Stat { st_mode: S_IFREG | 0o600, st_uid: 0, st_gid: 0, st_size: 0 }
}

} // verus!
