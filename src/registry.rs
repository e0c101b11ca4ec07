//! The connection registry: one pooled entry per connection id, built at most
//! once however many callers ask for it at the same time.
use vstd::prelude::*;

verus! {

/// What a caller that asks for an id is told to do.
#[derive(Debug, Clone, Copy, PartialEq, Eq, Structural)]
pub enum Claim {
    /// The entry exists: use it.
    Ready,
    /// Nobody builds the entry yet: this caller builds it, then completes or
    /// abandons the claim.
    Build,
    /// Another caller is building the entry: wait for it, then ask again.
    Wait,
}

/// The claim that a request for `id` gets, and the ids being built afterwards.
pub open spec fn claim(entries: Set<Seq<char>>, building: Set<Seq<char>>, id: Seq<char>) -> (Set<
    Seq<char>,
>, Claim) {
    if entries.contains(id) {
        (building, Claim::Ready)
    } else if building.contains(id) {
        (building, Claim::Wait)
    } else {
        (building.insert(id), Claim::Build)
    }
}

/// How many of `n` successive requests for `id`, with nothing completed in
/// between, are told to build.
pub open spec fn builds_among(entries: Set<Seq<char>>, building: Set<Seq<char>>, id: Seq<char>, n: nat) -> nat
    decreases n,
{
    if n == 0 {
        0
    } else {
        let (next, c) = claim(entries, building, id);
        (if c == Claim::Build {
            1nat
        } else {
            0nat
        }) + builds_among(entries, next, id, (n - 1) as nat)
    }
}

/// Single flight: of any number `n >= 1` of requests for an id that has no
/// entry and that nobody builds, exactly one is told to build.
pub proof fn lemma_single_flight(entries: Set<Seq<char>>, building: Set<Seq<char>>, id: Seq<char>, n: nat)
    requires
        n >= 1,
        !entries.contains(id),
        !building.contains(id),
    ensures
        builds_among(entries, building, id, n) == 1,
{
    lemma_no_more_builds(entries, building.insert(id), id, (n - 1) as nat);
}

proof fn lemma_no_more_builds(entries: Set<Seq<char>>, building: Set<Seq<char>>, id: Seq<char>, n: nat)
    requires
        building.contains(id),
    ensures
        builds_among(entries, building, id, n) == 0,
    decreases n,
{
    if n > 0 {
        lemma_no_more_builds(entries, building, id, (n - 1) as nat);
    }
}

/// Removing one element of a sequence of distinct strings removes exactly its
/// text from the set of texts.
proof fn lemma_remove_unique(s: Seq<String>, i: int)
    requires
        0 <= i < s.len(),
        forall|a: int, b: int| 0 <= a < b < s.len() ==> s[a]@ != s[b]@,
    ensures
        forall|a: int, b: int| 0 <= a < b < s.remove(i).len() ==> s.remove(i)[a]@ != s.remove(i)[b]@,
        texts(s.remove(i)) == texts(s).remove(s[i]@),
{
    let r = s.remove(i);
    assert forall|a: int, b: int| 0 <= a < b < r.len() implies r[a]@ != r[b]@ by {
        let a0 = if a < i { a } else { a + 1 };
        let b0 = if b < i { b } else { b + 1 };
        assert(r[a] == s[a0]);
        assert(r[b] == s[b0]);
    }
    assert forall|k: Seq<char>| texts(r).contains(k) == texts(s).remove(s[i]@).contains(k) by {
        if exists|a: int| 0 <= a < r.len() && r[a]@ == k {
            let a = choose|a: int| 0 <= a < r.len() && r[a]@ == k;
            let a0 = if a < i { a } else { a + 1 };
            assert(r[a] == s[a0]);
            if a0 < i {
                assert(s[a0]@ != s[i]@);
            } else {
                assert(s[i]@ != s[a0]@);
            }
        }
        if k != s[i]@ && exists|a: int| 0 <= a < s.len() && s[a]@ == k {
            let a0 = choose|a: int| 0 <= a < s.len() && s[a]@ == k;
            let a = if a0 < i { a0 } else { a0 - 1 };
            assert(r[a] == s[a0]);
        }
    }
    assert(texts(r) =~= texts(s).remove(s[i]@));
}

/// The texts of a sequence of strings.
pub open spec fn texts(s: Seq<String>) -> Set<Seq<char>> {
    Set::new(|k: Seq<char>| exists|a: int| 0 <= a < s.len() && s[a]@ == k)
}

/// The pool: each id maps to one handle; `building` holds the ids whose entry
/// a caller is building.
pub struct ConnectionRegistry<H> {
    entries: Vec<(String, H)>,
    building: Vec<String>,
}

impl<H> ConnectionRegistry<H> {
    pub closed spec fn entry_keys(&self) -> Set<Seq<char>> {
        Set::new(|k: Seq<char>| exists|i: int| 0 <= i < self.entries@.len() && self.entries@[i].0@ == k)
    }

    pub closed spec fn building_keys(&self) -> Set<Seq<char>> {
        texts(self.building@)
    }

    /// The handle stored for `k`, if any.
    pub closed spec fn entry(&self, k: Seq<char>) -> Option<H> {
        if exists|i: int| 0 <= i < self.entries@.len() && self.entries@[i].0@ == k {
            let i = choose|i: int| 0 <= i < self.entries@.len() && self.entries@[i].0@ == k;
            Some(self.entries@[i].1)
        } else {
            None
        }
    }

    /// Each id has at most one entry.
    pub closed spec fn wf(&self) -> bool {
        &&& forall|i: int, j: int|
            0 <= i < j < self.entries@.len() ==> self.entries@[i].0@ != self.entries@[j].0@
        &&& forall|i: int, j: int|
            0 <= i < j < self.building@.len() ==> self.building@[i]@ != self.building@[j]@
    }

    pub fn new() -> (r: Self)
        ensures
            r.wf(),
            r.entry_keys() == Set::<Seq<char>>::empty(),
            r.building_keys() == Set::<Seq<char>>::empty(),
    {
        let r = ConnectionRegistry { entries: Vec::new(), building: Vec::new() };
        assert(r.entry_keys() =~= Set::<Seq<char>>::empty());
        assert(r.building_keys() =~= Set::<Seq<char>>::empty());
        r
    }

    fn find_entry(&self, id: &str) -> (r: Option<usize>)
        ensures
            match r {
                Some(i) => i < self.entries@.len() && self.entries@[i as int].0@ == id@,
                None => forall|i: int| 0 <= i < self.entries@.len() ==> self.entries@[i].0@ != id@,
            },
    {
        let key = id.to_owned();
        let mut i: usize = 0;
        while i < self.entries.len()
            invariant
                key@ == id@,
                i <= self.entries@.len(),
                forall|j: int| 0 <= j < i ==> self.entries@[j].0@ != id@,
            decreases self.entries@.len() - i,
        {
            if self.entries[i].0 == key {
                return Some(i);
            }
            i = i + 1;
        }
        None
    }

    fn find_building(&self, id: &str) -> (r: Option<usize>)
        ensures
            match r {
                Some(i) => i < self.building@.len() && self.building@[i as int]@ == id@,
                None => forall|i: int| 0 <= i < self.building@.len() ==> self.building@[i]@ != id@,
            },
    {
        let key = id.to_owned();
        let mut i: usize = 0;
        while i < self.building.len()
            invariant
                key@ == id@,
                i <= self.building@.len(),
                forall|j: int| 0 <= j < i ==> self.building@[j]@ != id@,
            decreases self.building@.len() - i,
        {
            if self.building[i] == key {
                return Some(i);
            }
            i = i + 1;
        }
        None
    }

    /// The handle stored for `id`: a shared borrow, no new connection.
    pub fn get(&self, id: &str) -> (r: Option<&H>)
        requires
            self.wf(),
        ensures
            match r {
                Some(h) => self.entry(id@) == Some(*h),
                None => self.entry(id@) is None,
            },
    {
        match self.find_entry(id) {
            Some(i) => {
                proof {
                    let j = choose|j: int|
                        0 <= j < self.entries@.len() && self.entries@[j].0@ == id@;
                    if j != i {
                        assert(self.entries@[j].0@ != self.entries@[i as int].0@);
                    }
                }
                Some(&self.entries[i].1)
            },
            None => None,
        }
    }

    /// Answers a request for `id`: `Ready` where the entry exists, `Wait` where
    /// another caller builds it, and otherwise `Build`, recording that this
    /// caller now builds it.
    pub fn begin(&mut self, id: &str) -> (r: Claim)
        requires
            old(self).wf(),
        ensures
            final(self).wf(),
            (final(self).building_keys(), r) == claim(old(self).entry_keys(), old(self).building_keys(), id@),
            final(self).entry_keys() == old(self).entry_keys(),
            forall|k: Seq<char>| #[trigger] final(self).entry(k) == old(self).entry(k),
    {
        if self.find_entry(id).is_some() {
            assert(self.entry_keys().contains(id@));
            return Claim::Ready;
        }
        assert(!self.entry_keys().contains(id@));
        if self.find_building(id).is_some() {
            assert(self.building_keys().contains(id@));
            return Claim::Wait;
        }
        let ghost before = self.building_keys();
        self.building.push(id.to_owned());
        proof {
            assert forall|k: Seq<char>| self.building_keys().contains(k) == before.insert(id@).contains(k) by {
                if k == id@ {
                    assert(self.building@[self.building@.len() - 1]@ == k);
                }
                if before.contains(k) {
                    let i = choose|i: int| 0 <= i < old(self).building@.len() && old(self).building@[i]@ == k;
                    assert(self.building@[i]@ == k);
                }
                if self.building_keys().contains(k) && k != id@ {
                    let i = choose|i: int| 0 <= i < self.building@.len() && self.building@[i]@ == k;
                    assert(old(self).building@[i]@ == k);
                }
            }
            assert(self.building_keys() =~= before.insert(id@));
            assert(self.entries@ == old(self).entries@);
            assert(self.entry_keys() =~= old(self).entry_keys());
            assert forall|k: Seq<char>| #[trigger] self.entry(k) == old(self).entry(k) by {}
        }
        Claim::Build
    }

    /// Stores the handle that a `Build` claim produced and ends the claim.
    pub fn complete(&mut self, id: &str, handle: H)
        requires
            old(self).wf(),
        ensures
            final(self).wf(),
            final(self).entry(id@) == Some(handle),
            final(self).entry_keys() == old(self).entry_keys().insert(id@),
            final(self).building_keys() == old(self).building_keys().remove(id@),
            forall|k: Seq<char>| k != id@ ==> #[trigger] final(self).entry(k) == old(self).entry(k),
    {
        self.abandon(id);
        let ghost mid = *self;
        match self.find_entry(id) {
            Some(i) => {
                let key = id.to_owned();
                self.entries.set(i, (key, handle));
                proof {
                    assert(self.entries@ == mid.entries@.update(i as int, (key, handle)));
                    self.lemma_keys_update(mid, i as int);
                }
            },
            None => {
                self.entries.push((id.to_owned(), handle));
                proof {
                    assert(self.entries@.subrange(0, mid.entries@.len() as int) =~= mid.entries@);
                    self.lemma_keys_push(mid);
                }
            },
        }
    }

    /// Ends a `Build` claim whose build failed; the entries stay as they are.
    pub fn abandon(&mut self, id: &str)
        requires
            old(self).wf(),
        ensures
            final(self).wf(),
            final(self).entry_keys() == old(self).entry_keys(),
            final(self).building_keys() == old(self).building_keys().remove(id@),
            forall|k: Seq<char>| #[trigger] final(self).entry(k) == old(self).entry(k),
    {
        match self.find_building(id) {
            Some(i) => {
                let ghost before = self.building@;
                let ghost old_keys = self.building_keys();
                self.building.remove(i);
                proof {
                    lemma_remove_unique(before, i as int);
                    assert(self.building_keys() =~= old_keys.remove(id@));
                    assert(self.entries@ == old(self).entries@);
                    assert(self.entry_keys() =~= old(self).entry_keys());
                    assert forall|k: Seq<char>| #[trigger] self.entry(k) == old(self).entry(k) by {}
                }
            },
            None => {
                assert(!self.building_keys().contains(id@));
                assert(self.building_keys() =~= old(self).building_keys().remove(id@));
            },
        }
    }

    /// Takes the entry of `id` out of the pool and hands it to the caller,
    /// who shuts down what it owns.
    pub fn remove(&mut self, id: &str) -> (r: Option<H>)
        requires
            old(self).wf(),
        ensures
            final(self).wf(),
            r == old(self).entry(id@),
            final(self).entry(id@) is None,
            final(self).entry_keys() == old(self).entry_keys().remove(id@),
            final(self).building_keys() == old(self).building_keys(),
            forall|k: Seq<char>| k != id@ ==> #[trigger] final(self).entry(k) == old(self).entry(k),
    {
        match self.find_entry(id) {
            Some(i) => {
                let ghost before = *self;
                let (_, h) = self.entries.remove(i);
                proof {
                    before.lemma_entry_at(i as int);
                    self.lemma_keys_remove(before, i as int);
                }
                Some(h)
            },
            None => {
                assert(!self.entry_keys().contains(id@));
                None
            },
        }
    }

    proof fn lemma_entry_at(&self, i: int)
        requires
            self.wf(),
            0 <= i < self.entries@.len(),
        ensures
            self.entry(self.entries@[i].0@) == Some(self.entries@[i].1),
            self.entry_keys().contains(self.entries@[i].0@),
    {
        let k = self.entries@[i].0@;
        let j = choose|j: int| 0 <= j < self.entries@.len() && self.entries@[j].0@ == k;
        if j != i {
            if j < i {
                assert(self.entries@[j].0@ != self.entries@[i].0@);
            } else {
                assert(self.entries@[i].0@ != self.entries@[j].0@);
            }
        }
    }

    proof fn lemma_keys_update(&self, before: Self, i: int)
        requires
            before.wf(),
            0 <= i < before.entries@.len(),
            self.entries@ == before.entries@.update(i, self.entries@[i]),
            self.entries@[i].0@ == before.entries@[i].0@,
            self.building@ == before.building@,
        ensures
            self.wf(),
            self.entry(self.entries@[i].0@) == Some(self.entries@[i].1),
            self.entry_keys() == before.entry_keys(),
            self.building_keys() == before.building_keys(),
            forall|k: Seq<char>| k != self.entries@[i].0@ ==> #[trigger] self.entry(k) == before.entry(k),
    {
        assert forall|a: int, b: int| 0 <= a < b < self.entries@.len() implies self.entries@[a].0@ != self.entries@[b].0@ by {
            assert(self.entries@[a].0@ == before.entries@[a].0@);
            assert(self.entries@[b].0@ == before.entries@[b].0@);
        }
        assert forall|k: Seq<char>| self.entry_keys().contains(k) == before.entry_keys().contains(k) by {
            if self.entry_keys().contains(k) {
                let a = choose|a: int| 0 <= a < self.entries@.len() && self.entries@[a].0@ == k;
                assert(before.entries@[a].0@ == k);
            }
            if before.entry_keys().contains(k) {
                let a = choose|a: int| 0 <= a < before.entries@.len() && before.entries@[a].0@ == k;
                assert(self.entries@[a].0@ == k);
            }
        }
        assert(self.entry_keys() =~= before.entry_keys());
        assert(self.building_keys() =~= before.building_keys());
        self.lemma_entry_at(i);
        assert forall|k: Seq<char>| k != self.entries@[i].0@ implies #[trigger] self.entry(k) == before.entry(k) by {
            if before.entry_keys().contains(k) {
                let j = choose|j: int| 0 <= j < before.entries@.len() && before.entries@[j].0@ == k;
                before.lemma_entry_at(j);
                self.lemma_entry_at(j);
            }
        }
    }

    proof fn lemma_keys_push(&self, before: Self)
        requires
            before.wf(),
            self.entries@.len() == before.entries@.len() + 1,
            self.entries@.subrange(0, before.entries@.len() as int) == before.entries@,
            !before.entry_keys().contains(self.entries@.last().0@),
            self.building@ == before.building@,
        ensures
            self.wf(),
            self.entry(self.entries@.last().0@) == Some(self.entries@.last().1),
            self.entry_keys() == before.entry_keys().insert(self.entries@.last().0@),
            self.building_keys() == before.building_keys(),
            forall|k: Seq<char>| k != self.entries@.last().0@ ==> #[trigger] self.entry(k) == before.entry(k),
    {
        let n = before.entries@.len() as int;
        assert forall|i: int| 0 <= i < n implies self.entries@[i] == before.entries@[i] by {
            assert(self.entries@.subrange(0, n)[i] == self.entries@[i]);
        }
        assert forall|i: int, j: int| 0 <= i < j < self.entries@.len() implies self.entries@[i].0@ != self.entries@[j].0@ by {
            if j == n {
                assert(before.entry_keys().contains(before.entries@[i].0@));
            }
        }
        assert forall|k: Seq<char>| self.entry_keys().contains(k) == before.entry_keys().insert(self.entries@.last().0@).contains(k) by {
            if self.entry_keys().contains(k) {
                let i = choose|i: int| 0 <= i < self.entries@.len() && self.entries@[i].0@ == k;
                if i < n {
                    assert(before.entries@[i].0@ == k);
                }
            }
            if before.entry_keys().contains(k) {
                let i = choose|i: int| 0 <= i < before.entries@.len() && before.entries@[i].0@ == k;
                assert(self.entries@[i].0@ == k);
            }
        }
        assert(self.entry_keys() =~= before.entry_keys().insert(self.entries@.last().0@));
        assert(self.building_keys() =~= before.building_keys());
        self.lemma_entry_at(n);
        assert forall|k: Seq<char>| k != self.entries@.last().0@ implies #[trigger] self.entry(k) == before.entry(k) by {
            if before.entry_keys().contains(k) {
                let j = choose|j: int| 0 <= j < before.entries@.len() && before.entries@[j].0@ == k;
                before.lemma_entry_at(j);
                self.lemma_entry_at(j);
            } else {
                assert(!self.entry_keys().contains(k));
            }
        }
    }

    proof fn lemma_keys_remove(&self, before: Self, i: int)
        requires
            before.wf(),
            0 <= i < before.entries@.len(),
            self.entries@ == before.entries@.remove(i),
            self.building@ == before.building@,
        ensures
            self.wf(),
            self.entry(before.entries@[i].0@) is None,
            self.entry_keys() == before.entry_keys().remove(before.entries@[i].0@),
            self.building_keys() == before.building_keys(),
            forall|k: Seq<char>| k != before.entries@[i].0@ ==> #[trigger] self.entry(k) == before.entry(k),
    {
        let id = before.entries@[i].0@;
        assert forall|a: int, b: int| 0 <= a < b < self.entries@.len() implies self.entries@[a].0@ != self.entries@[b].0@ by {
            let a0 = if a < i { a } else { a + 1 };
            let b0 = if b < i { b } else { b + 1 };
            assert(self.entries@[a] == before.entries@[a0]);
            assert(self.entries@[b] == before.entries@[b0]);
        }
        assert forall|k: Seq<char>| self.entry_keys().contains(k) == before.entry_keys().remove(id).contains(k) by {
            if self.entry_keys().contains(k) {
                let a = choose|a: int| 0 <= a < self.entries@.len() && self.entries@[a].0@ == k;
                let a0 = if a < i { a } else { a + 1 };
                assert(self.entries@[a] == before.entries@[a0]);
                assert(before.entry_keys().contains(k));
                if a0 < i {
                    assert(before.entries@[a0].0@ != before.entries@[i].0@);
                } else {
                    assert(before.entries@[i].0@ != before.entries@[a0].0@);
                }
            }
            if before.entry_keys().remove(id).contains(k) {
                let a0 = choose|a: int| 0 <= a < before.entries@.len() && before.entries@[a].0@ == k;
                assert(a0 != i);
                let a = if a0 < i { a0 } else { a0 - 1 };
                assert(self.entries@[a] == before.entries@[a0]);
            }
        }
        assert(self.entry_keys() =~= before.entry_keys().remove(id));
        assert(self.building_keys() =~= before.building_keys());
        assert forall|k: Seq<char>| k != id implies #[trigger] self.entry(k) == before.entry(k) by {
            if self.entry_keys().contains(k) {
                let a = choose|a: int| 0 <= a < self.entries@.len() && self.entries@[a].0@ == k;
                let a0 = if a < i { a } else { a + 1 };
                assert(self.entries@[a] == before.entries@[a0]);
                self.lemma_entry_at(a);
                before.lemma_entry_at(a0);
            } else {
                assert(!before.entry_keys().contains(k));
            }
        }
        assert(!self.entry_keys().contains(id));
    }
}

} // verus!
