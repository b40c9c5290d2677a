//! The room registry: the source of truth for the room -> members relation.
//!
//! Rooms are created implicitly on first join and are indistinguishable from
//! absent rooms once their member set is empty. All operations are idempotent
//! and never fail.

use vstd::prelude::*;

verus! {

/// One room's membership: its externally supplied identifier and the ids of
/// the live connections that currently belong to it.
pub struct RoomEntry {
    pub id: String,
    pub members: Vec<u64>,
}

/// Mapping from room identifier to the set of member connection ids.
/// The registry exclusively owns this relation; a connection's own room
/// bookkeeping is best-effort and never authoritative.
pub struct RoomRegistry {
    pub rooms: Vec<RoomEntry>,
}

impl RoomRegistry {
    /// Well-formedness: room identifiers are distinct and no connection is
    /// recorded twice in the same room.
    pub open spec fn wf(self) -> bool {
        &&& forall|i: int, j: int|
            0 <= i < j < self.rooms@.len() ==> self.rooms@[i].id@ != self.rooms@[j].id@
        &&& forall|i: int|
            0 <= i < self.rooms@.len() ==> (#[trigger] self.rooms@[i].members@).no_duplicates()
    }

    pub open spec fn has_room(self, r: Seq<char>) -> bool {
        exists|i: int| 0 <= i < self.rooms@.len() && (#[trigger] self.rooms@[i].id@) == r
    }

    pub open spec fn room_index(self, r: Seq<char>) -> int {
        choose|i: int| 0 <= i < self.rooms@.len() && (#[trigger] self.rooms@[i].id@) == r
    }

    /// The member set of room `r`; empty when the room does not exist.
    pub open spec fn members(self, r: Seq<char>) -> Set<u64> {
        if self.has_room(r) {
            self.rooms@[self.room_index(r)].members@.to_set()
        } else {
            Set::<u64>::empty()
        }
    }

    /// In a well-formed registry, a position whose identifier is `r` is the
    /// unique position the model reads the member set from.
    pub proof fn lemma_index(self, r: Seq<char>, p: int)
        requires
            self.wf(),
            0 <= p < self.rooms@.len(),
            self.rooms@[p].id@ == r,
        ensures
            self.has_room(r),
            self.room_index(r) == p,
            self.members(r) == self.rooms@[p].members@.to_set(),
    {
        assert(self.has_room(r));
        let q = self.room_index(r);
        assert(0 <= q < self.rooms@.len() && self.rooms@[q].id@ == r);
        if q != p {
            if q < p {
                assert(self.rooms@[q].id@ != self.rooms@[p].id@);
            } else {
                assert(self.rooms@[p].id@ != self.rooms@[q].id@);
            }
        }
    }

    /// Every member set the model can hand out is finite.
    pub proof fn lemma_members_finite(self, r: Seq<char>)
        ensures
            self.members(r).finite(),
    {
        broadcast use vstd::seq_lib::seq_to_set_is_finite;

    }

    fn find_room(&self, room: &String) -> (found: Option<usize>)
        ensures
            match found {
                Some(p) => p < self.rooms@.len() && self.rooms@[p as int].id@ == room@,
                None => forall|i: int|
                    0 <= i < self.rooms@.len() ==> (#[trigger] self.rooms@[i].id@) != room@,
            },
    {
        let mut k: usize = 0;
        while k < self.rooms.len()
            invariant
                k <= self.rooms@.len(),
                forall|i: int| 0 <= i < k ==> (#[trigger] self.rooms@[i].id@) != room@,
            decreases self.rooms@.len() - k,
        {
            if self.rooms[k].id == *room {
                return Some(k);
            }
            k += 1;
        }
        None
    }

    /// Idempotent join: afterwards `c` is a member of `room`, no other room
    /// changes, and joining never fails.
    pub fn join(&mut self, c: u64, room: &String)
        requires
            old(self).wf(),
        ensures
            final(self).wf(),
            final(self).members(room@) == old(self).members(room@).insert(c),
            forall|r: Seq<char>| r != room@ ==> final(self).members(r) == old(self).members(r),
    {
        broadcast use vstd::prelude::Seq::lemma_push_to_set_commute;

        match self.find_room(room) {
            Some(p) => {
                proof {
                    old(self).lemma_index(room@, p as int);
                }
                let already = contains_member(&self.rooms[p].members, c);
                if already {
                    proof {
                        assert(old(self).members(room@).contains(c));
                        assert(old(self).members(room@).insert(c) =~= old(self).members(
                            room@,
                        ));
                    }
                } else {
                    let ghost before = self.rooms@;
                    let entry = &mut self.rooms[p];
                    entry.members.push(c);
                    proof {
                        let after = self.rooms@;
                        assert(after == before.update(p as int, after[p as int]));
                        assert(after[p as int].id@ == room@);
                        assert(after[p as int].members@ == before[p as int].members@.push(c));
                        assert forall|i: int|
                            0 <= i < after.len() && i != p implies after[i]
                            == before[i] by {}
                        assert(after[p as int].members@.no_duplicates()) by {
                            let m = before[p as int].members@;
                            assert(!m.contains(c));
                            assert forall|i: int, j: int|
                                0 <= i < m.push(c).len() && 0 <= j < m.push(c).len() && i
                                    != j implies m.push(c)[i] != m.push(c)[j] by {
                                if i < m.len() && j < m.len() {
                                } else if i == m.len() {
                                    assert(m.push(c)[j] == m[j]);
                                    assert(m[j] != c) by {
                                        if m[j] == c {
                                            assert(m.contains(c));
                                        }
                                    }
                                } else {
                                    assert(m.push(c)[i] == m[i]);
                                    assert(m[i] != c) by {
                                        if m[i] == c {
                                            assert(m.contains(c));
                                        }
                                    }
                                }
                            }
                        }
                        assert(self.wf());
                        self.lemma_index(room@, p as int);
                        assert(self.members(room@) == old(self).members(room@).insert(c));
                        lemma_members_outside_update(*old(self), *self, p as int);
                    }
                }
            },
            None => {
                let ghost before = *self;
                let mut ms: Vec<u64> = Vec::new();
                ms.push(c);
                let entry = RoomEntry { id: room.clone(), members: ms };
                self.rooms.push(entry);
                proof {
                    let p = before.rooms@.len() as int;
                    assert(self.rooms@ == before.rooms@.push(self.rooms@[p]));
                    assert(self.rooms@[p].id@ == room@);
                    assert(self.rooms@[p].members@ == Seq::<u64>::empty().push(c));
                    assert(self.rooms@[p].members@.no_duplicates());
                    assert(self.wf());
                    self.lemma_index(room@, p);
                    assert(!before.has_room(room@));
                    assert(self.rooms@[p].members@.to_set() =~= Set::<u64>::empty().insert(
                        c,
                    )) by {
                        assert(self.rooms@[p].members@[0] == c);
                        assert forall|x: u64|
                            self.rooms@[p].members@.to_set().contains(x) implies x
                            == c by {}
                    }
                    assert(self.members(room@) == old(self).members(room@).insert(c));
                    assert forall|r: Seq<char>| r != room@ implies self.members(r)
                        == before.members(r) by {
                        lemma_members_after_new_room(before, *self, r, p);
                    }
                }
            },
        }
    }

    /// Idempotent removal: afterwards `c` is not a member of `room`; no
    /// other room changes; removing a non-member is a no-op.
    pub fn leave(&mut self, c: u64, room: &String)
        requires
            old(self).wf(),
        ensures
            final(self).wf(),
            final(self).members(room@) == old(self).members(room@).remove(c),
            forall|r: Seq<char>| r != room@ ==> final(self).members(r) == old(self).members(r),
    {
        match self.find_room(room) {
            Some(p) => {
                proof {
                    old(self).lemma_index(room@, p as int);
                }
                let ghost before = self.rooms@;
                let entry = &mut self.rooms[p];
                let trimmed = without(&entry.members, c);
                entry.members = trimmed;
                proof {
                    let after = self.rooms@;
                    assert(after == before.update(p as int, after[p as int]));
                    assert(after[p as int].id@ == room@);
                    assert forall|i: int|
                        0 <= i < after.len() && i != p implies after[i] == before[i] by {}
                    assert(self.wf());
                    self.lemma_index(room@, p as int);
                    assert(self.members(room@) == old(self).members(room@).remove(c));
                    lemma_members_outside_update(*old(self), *self, p as int);
                }
            },
            None => {
                proof {
                    assert(!old(self).has_room(room@));
                    assert(Set::<u64>::empty().remove(c) =~= Set::<u64>::empty());
                }
            },
        }
    }

    /// A snapshot of the current members of `room`, each exactly once.
    pub fn members_of(&self, room: &String) -> (m: Vec<u64>)
        requires
            self.wf(),
        ensures
            m@.no_duplicates(),
            m@.to_set() == self.members(room@),
    {
        match self.find_room(room) {
            Some(p) => {
                proof {
                    self.lemma_index(room@, p as int);
                }
                let mut out: Vec<u64> = Vec::new();
                let n = self.rooms[p].members.len();
                let mut k: usize = 0;
                while k < n
                    invariant
                        k <= n,
                        p < self.rooms@.len(),
                        n == self.rooms@[p as int].members@.len(),
                        out@ == self.rooms@[p as int].members@.subrange(0, k as int),
                    decreases n - k,
                {
                    let x = self.rooms[p].members[k];
                    out.push(x);
                    proof {
                        assert(out@ =~= self.rooms@[p as int].members@.subrange(
                            0,
                            k as int + 1,
                        ));
                    }
                    k += 1;
                }
                proof {
                    assert(out@ =~= self.rooms@[p as int].members@);
                }
                out
            },
            None => {
                proof {
                    assert(Seq::<u64>::empty().to_set() =~= Set::<u64>::empty());
                }
                Vec::new()
            },
        }
    }

    /// The live member count of `room`: the size of `members_of(room)`.
    pub fn count(&self, room: &String) -> (n: usize)
        requires
            self.wf(),
        ensures
            n == self.members(room@).len(),
    {
        match self.find_room(room) {
            Some(p) => {
                proof {
                    self.lemma_index(room@, p as int);
                    self.rooms@[p as int].members@.unique_seq_to_set();
                }
                self.rooms[p].members.len()
            },
            None => {
                proof {
                    assert(Set::<u64>::empty().len() == 0);
                }
                0
            },
        }
    }

    /// Remove connection `c` from every room at once, as a transport-level
    /// disconnect requires: afterwards no room has `c` as a member.
    pub fn remove_all(&mut self, c: u64)
        requires
            old(self).wf(),
        ensures
            final(self).wf(),
            forall|r: Seq<char>|
                #[trigger] final(self).members(r) == old(self).members(r).remove(c),
    {
        let n = self.rooms.len();
        let mut k: usize = 0;
        while k < n
            invariant
                k <= n,
                n == self.rooms@.len(),
                self.rooms@.len() == old(self).rooms@.len(),
                forall|i: int|
                    0 <= i < n ==> (#[trigger] self.rooms@[i].id@) == old(self).rooms@[i].id@,
                forall|i: int|
                    0 <= i < k ==> (#[trigger] self.rooms@[i].members@).to_set() == old(
                        self,
                    ).rooms@[i].members@.to_set().remove(c),
                forall|i: int|
                    k <= i < n ==> (#[trigger] self.rooms@[i].members@) == old(
                        self,
                    ).rooms@[i].members@,
                forall|i: int|
                    0 <= i < n ==> (#[trigger] self.rooms@[i].members@).no_duplicates(),
            decreases n - k,
        {
            let entry = &mut self.rooms[k];
            let trimmed = without(&entry.members, c);
            entry.members = trimmed;
            k += 1;
        }
        proof {
            assert(self.wf());
            assert forall|r: Seq<char>| #[trigger] self.members(r) == old(self).members(r).remove(
                c,
            ) by {
                if old(self).has_room(r) {
                    let q = old(self).room_index(r);
                    assert(0 <= q < old(self).rooms@.len() && old(self).rooms@[q].id@ == r);
                    old(self).lemma_index(r, q);
                    self.lemma_index(r, q);
                } else {
                    assert(!self.has_room(r)) by {
                        if self.has_room(r) {
                            let q = self.room_index(r);
                            assert(0 <= q < self.rooms@.len() && self.rooms@[q].id@ == r);
                            assert(old(self).rooms@[q].id@ == r);
                        }
                    }
                    assert(Set::<u64>::empty().remove(c) =~= Set::<u64>::empty());
                }
            }
        }
    }
}

/// After a join, the joined connection is a member of the room and the
/// room's member count is at least one. The hypotheses are exactly what
/// `RoomRegistry::join` ensures of the registry before and after the call.
pub proof fn lemma_join_establishes_membership(
    before: RoomRegistry,
    after: RoomRegistry,
    c: u64,
    r: Seq<char>,
)
    requires
        after.members(r) == before.members(r).insert(c),
    ensures
        after.members(r).contains(c),
        after.members(r).len() >= 1,
{
    after.lemma_members_finite(r);
    if after.members(r).len() == 0 {
        after.members(r).lemma_len0_is_empty();
        assert(!after.members(r).contains(c));
    }
}

/// Join is idempotent: a second join of the same connection to the same
/// room leaves the room's member set, and hence its size, unchanged. The
/// hypotheses are what two successive calls of `RoomRegistry::join` ensure.
pub proof fn lemma_join_idempotent(
    first: RoomRegistry,
    second: RoomRegistry,
    third: RoomRegistry,
    c: u64,
    r: Seq<char>,
)
    requires
        second.members(r) == first.members(r).insert(c),
        third.members(r) == second.members(r).insert(c),
    ensures
        third.members(r) == second.members(r),
        third.members(r).len() == second.members(r).len(),
{
    assert(first.members(r).insert(c).insert(c) =~= first.members(r).insert(c));
}

/// When two registries carry the same identifiers at the same positions and
/// differ at most in the member list at position `p`, every room other than
/// the one at `p` reads the same member set from both.
proof fn lemma_members_outside_update(before: RoomRegistry, after: RoomRegistry, p: int)
    requires
        before.wf(),
        after.wf(),
        before.rooms@.len() == after.rooms@.len(),
        0 <= p < before.rooms@.len(),
        forall|i: int|
            0 <= i < before.rooms@.len() ==> (#[trigger] after.rooms@[i].id@) == before.rooms@[i].id@,
        forall|i: int|
            0 <= i < before.rooms@.len() && i != p ==> (#[trigger] after.rooms@[i].members@)
                == before.rooms@[i].members@,
    ensures
        forall|r: Seq<char>|
            r != before.rooms@[p].id@ ==> after.members(r) == before.members(r),
{
    assert forall|r: Seq<char>| r != before.rooms@[p].id@ implies after.members(r)
        == before.members(r) by {
        if before.has_room(r) {
            let q = before.room_index(r);
            assert(0 <= q < before.rooms@.len() && before.rooms@[q].id@ == r);
            before.lemma_index(r, q);
            after.lemma_index(r, q);
        } else {
            assert(!after.has_room(r)) by {
                if after.has_room(r) {
                    let q = after.room_index(r);
                    assert(0 <= q < after.rooms@.len() && after.rooms@[q].id@ == r);
                    assert(before.rooms@[q].id@ == r);
                }
            }
        }
    }
}

/// When a registry grows by one entry at position `p` (the old length), every
/// room other than the new entry's reads the same member set as before.
proof fn lemma_members_after_new_room(
    before: RoomRegistry,
    after: RoomRegistry,
    r: Seq<char>,
    p: int,
)
    requires
        before.wf(),
        after.wf(),
        after.rooms@.len() == before.rooms@.len() + 1,
        p == before.rooms@.len(),
        forall|i: int|
            0 <= i < before.rooms@.len() ==> (#[trigger] after.rooms@[i]) == before.rooms@[i],
        r != after.rooms@[p].id@,
    ensures
        after.members(r) == before.members(r),
{
    if before.has_room(r) {
        let q = before.room_index(r);
        assert(0 <= q < before.rooms@.len() && before.rooms@[q].id@ == r);
        before.lemma_index(r, q);
        after.lemma_index(r, q);
    } else {
        assert(!after.has_room(r)) by {
            if after.has_room(r) {
                let q = after.room_index(r);
                assert(0 <= q < after.rooms@.len() && after.rooms@[q].id@ == r);
                assert(q != p);
                assert(before.rooms@[q].id@ == r);
            }
        }
    }
}

/// Does `v` hold `c`?
pub(crate) fn contains_member(v: &Vec<u64>, c: u64) -> (b: bool)
    ensures
        b == v@.contains(c),
{
    let mut k: usize = 0;
    while k < v.len()
        invariant
            k <= v@.len(),
            forall|i: int| 0 <= i < k ==> v@[i] != c,
        decreases v@.len() - k,
    {
        if v[k] == c {
            return true;
        }
        k += 1;
    }
    false
}

/// A copy of `v` with every occurrence of `c` left out; order of the other
/// elements is preserved.
pub(crate) fn without(v: &Vec<u64>, c: u64) -> (out: Vec<u64>)
    requires
        v@.no_duplicates(),
    ensures
        out@.no_duplicates(),
        out@.to_set() == v@.to_set().remove(c),
        !out@.contains(c),
    {
    broadcast use vstd::prelude::Seq::lemma_push_to_set_commute;

    let mut out: Vec<u64> = Vec::new();
    let mut k: usize = 0;
    proof {
        assert(v@.subrange(0, 0).to_set() =~= Set::<u64>::empty());
        assert(Seq::<u64>::empty().to_set() =~= Set::<u64>::empty());
        assert(Set::<u64>::empty().remove(c) =~= Set::<u64>::empty());
    }
    while k < v.len()
        invariant
            k <= v@.len(),
            v@.no_duplicates(),
            out@.no_duplicates(),
            out@.to_set() == v@.subrange(0, k as int).to_set().remove(c),
            !out@.contains(c),
        decreases v@.len() - k,
    {
        let ghost pre = v@.subrange(0, k as int);
        let ghost post = v@.subrange(0, k as int + 1);
        proof {
            assert(post =~= pre.push(v@[k as int]));
        }
        let x = v[k];
        if x != c {
            proof {
                pre.lemma_push_to_set_commute(x);
                assert(post.to_set() == pre.to_set().insert(x));
                assert(!pre.to_set().contains(x)) by {
                    if pre.to_set().contains(x) {
                        let i = choose|i: int| 0 <= i < pre.len() && pre[i] == x;
                        assert(v@[i] == v@[k as int]);
                    }
                }
                assert(!out@.contains(x)) by {
                    if out@.contains(x) {
                        assert(out@.to_set().contains(x));
                        assert(pre.to_set().contains(x));
                    }
                }
                assert(out@.push(x).no_duplicates()) by {
                    let m = out@;
                    assert forall|i: int, j: int|
                        0 <= i < m.push(x).len() && 0 <= j < m.push(x).len() && i
                            != j implies m.push(x)[i] != m.push(x)[j] by {
                        if i < m.len() && j < m.len() {
                        } else if i == m.len() {
                            assert(m.push(x)[j] == m[j]);
                            assert(m[j] != x) by {
                                if m[j] == x {
                                    assert(m.contains(x));
                                }
                            }
                        } else {
                            assert(m.push(x)[i] == m[i]);
                            assert(m[i] != x) by {
                                if m[i] == x {
                                    assert(m.contains(x));
                                }
                            }
                        }
                    }
                }
                assert(pre.to_set().remove(c).insert(x) =~= pre.to_set().insert(x).remove(
                    c,
                ));
            }
            let ghost out0 = out@;
            out.push(x);
            proof {
                out0.lemma_push_to_set_commute(x);
                assert(out@.to_set() == out0.to_set().insert(x));
                assert(!out@.contains(c)) by {
                    if out@.contains(c) {
                        let i = choose|i: int| 0 <= i < out@.len() && out@[i] == c;
                        if i < out0.len() {
                            assert(out0.contains(c));
                        }
                    }
                }
            }
        } else {
            proof {
                pre.lemma_push_to_set_commute(c);
                assert(post.to_set() == pre.to_set().insert(c));
                assert(pre.to_set().remove(c) =~= pre.to_set().insert(c).remove(c));
            }
        }
        k += 1;
    }
    proof {
        assert(v@.subrange(0, v@.len() as int) =~= v@);
    }
    out
}

} // verus!
