//! A generational map: an unordered bag of items, each reached through a
//! small copyable `Handle`.  Lookups and removals are constant time; a
//! handle to a removed item stays invalid, even after its slot is reused,
//! because every slot carries a generation number that grows on reuse.
use vstd::prelude::*;

verus! {

/// A small, easy-to-copy handle referring to a location in a `GenMap`.
#[derive(Debug, Copy, Clone, PartialOrd, Ord, PartialEq, Eq, Hash, Structural)]
pub struct Handle {
    pub gen: usize,
    pub idx: usize,
}

/// The contents of a slot in a `GenMap`.
#[derive(Debug, Clone)]
pub enum Slot<T> {
    /// Just the item.
    Occupied { itm: T },
    /// The location of the next free slot in the freelist.
    Empty { next_free: Option<usize> },
}

/// A collection of `T`s referred to by `Handle`s.
#[derive(Clone)]
pub struct GenMap<T> {
    /// The `usize` is the generation number of the slot.
    slots: Vec<(usize, Slot<T>)>,
    /// `None` means no free slots.
    freelist_head: Option<usize>,
    /// Number of elements.
    count: usize,
    /// The free slots, in the order in which the freelist links them.
    free: Ghost<Seq<usize>>,
}

impl<T> View for GenMap<T> {
    type V = Map<Handle, T>;

    /// The live items, keyed by the handle that reaches each of them.
    closed spec fn view(&self) -> Map<Handle, T> {
        Map::new(|h: Handle| self.spec_live(h), |h: Handle| self.spec_item(h.idx as int))
    }
}

impl<T> GenMap<T> {
    /// Number of slots, occupied or free.
    pub closed spec fn spec_slot_count(&self) -> nat {
        self.slots@.len()
    }

    /// Generation number currently stored in slot `idx`.
    pub closed spec fn spec_gen(&self, idx: int) -> usize {
        self.slots@[idx].0
    }

    /// Whether slot `idx` holds an item.
    pub closed spec fn spec_occupied(&self, idx: int) -> bool {
        self.slots@[idx].1 is Occupied
    }

    closed spec fn spec_item(&self, idx: int) -> T {
        self.slots@[idx].1->itm
    }

    /// `h` reaches a live item.
    pub closed spec fn spec_live(&self, h: Handle) -> bool {
        &&& h.idx < self.slots@.len()
        &&& self.spec_occupied(h.idx as int)
        &&& self.spec_gen(h.idx as int) == h.gen
    }

    /// `h` can never again reach an item of this map: its slot exists and
    /// has either moved on to a later generation or is free at `h`'s own.
    pub closed spec fn spec_stale(&self, h: Handle) -> bool {
        &&& h.idx < self.slots@.len()
        &&& (h.gen < self.spec_gen(h.idx as int) || (h.gen == self.spec_gen(h.idx as int)
            && !self.spec_occupied(h.idx as int)))
    }

    /// Number of items, as counted by the map.
    pub closed spec fn spec_count(&self) -> nat {
        self.count as nat
    }

    /// The next insertion cannot overflow the item count or the generation
    /// of the slot that the freelist hands out next.
    pub closed spec fn can_insert(&self) -> bool {
        &&& self.count < usize::MAX
        &&& (self.freelist_head matches Some(i) ==> i < self.slots@.len() && self.spec_gen(
            i as int,
        ) < usize::MAX)
    }

    /// The handle that the next insertion returns: the first free slot with
    /// its generation one higher, or else a new slot at the end with
    /// generation 1.
    pub closed spec fn spec_next_handle(&self) -> Handle {
        match self.freelist_head {
            Some(i) => Handle { gen: (self.slots@[i as int].0 + 1) as usize, idx: i },
            None => Handle { gen: 1, idx: self.slots@.len() as usize },
        }
    }

    /// The handles that the next `n` insertions return, in order: those of
    /// the free slots in freelist order, each with its generation one
    /// higher, then new slots at the end with generation 1.
    pub closed spec fn spec_next_handles(&self, n: nat) -> Seq<Handle> {
        Seq::new(
            n,
            |k: int|
                if k < self.free@.len() {
                    Handle { gen: (self.slots@[self.free@[k] as int].0 + 1) as usize, idx: self.free@[k] }
                } else {
                    Handle { gen: 1, idx: (self.slots@.len() + (k - self.free@.len())) as usize }
                },
        )
    }

    /// There are `n` of the next `n` handles.
    pub proof fn lemma_next_handles_len(&self, n: nat)
        ensures
            self.spec_next_handles(n).len() == n,
    {
    }

    /// The next `m` handles begin the next `n`, for `m <= n`.
    pub proof fn lemma_next_handles_prefix(&self, m: nat, n: nat)
        requires
            m <= n,
        ensures
            self.spec_next_handles(m) == self.spec_next_handles(n).subrange(0, m as int),
    {
        assert(self.spec_next_handles(m) =~= self.spec_next_handles(n).subrange(0, m as int));
    }

    /// The next `n` insertions overflow neither the item count nor the
    /// generation of any slot that the freelist hands out to them.
    pub closed spec fn can_insert_many(&self, n: nat) -> bool {
        &&& self.count + n <= usize::MAX
        &&& forall|k: int|
            0 <= k < self.free@.len() && k < n ==> self.spec_gen(#[trigger] self.free@[k] as int)
                < usize::MAX
    }

    /// Room for several insertions is room for the next one.
    pub proof fn lemma_can_insert_many(&self, n: nat)
        requires
            self.wf(),
            self.can_insert_many(n),
            n >= 1,
        ensures
            self.can_insert(),
    {
        if self.free@.len() > 0 {
            assert(self.spec_gen(self.free@[0] as int) < usize::MAX);
        }
    }

    /// Whether the next `n` insertions overflow no counter.
    pub fn has_room_for(&self, n: usize) -> (res: bool)
        requires
            self.wf(),
        ensures
            res == self.can_insert_many(n as nat),
    {
        if self.count > usize::MAX - n {
            return false;
        }
        let ghost free = self.free@;
        let mut cur = self.freelist_head;
        let mut k: usize = 0;
        while k < n
            invariant
                self.wf(),
                free == self.free@,
                self.count + n <= usize::MAX,
                k <= n,
                cur == (if k < free.len() {
                    Some(free[k as int])
                } else {
                    None::<usize>
                }),
                forall|j: int| 0 <= j < free.len() && j < k ==> self.spec_gen(#[trigger] free[j] as int) < usize::MAX,
            decreases n - k,
        {
            match cur {
                None => {
                    assert forall|j: int| 0 <= j < free.len() && j < n implies self.spec_gen(#[trigger] free[j] as int) < usize::MAX by {
                        assert(j < k);
                    }
                    return true;
                },
                Some(i) => {
                    assert(free[k as int] < self.slots@.len());
                    if self.slots[i].0 == usize::MAX {
                        return false;
                    }
                    assert(self.slots@[free[k as int] as int].1 == (Slot::<T>::Empty { next_free: Self::next_of(free, k as int) }));
                    cur = match &self.slots[i].1 {
                        Slot::Empty { next_free } => *next_free,
                        Slot::Occupied { .. } => None,
                    };
                    k = k + 1;
                },
            }
        }
        true
    }

    spec fn next_of(free: Seq<usize>, k: int) -> Option<usize> {
        if k + 1 < free.len() {
            Some(free[k + 1])
        } else {
            None
        }
    }

    /// The freelist threads exactly the free slots, without repetition,
    /// and the item count is the number of occupied slots.
    pub closed spec fn wf(&self) -> bool {
        let free = self.free@;
        &&& forall|k: int| 0 <= k < free.len() ==> #[trigger] free[k] < self.slots@.len()
        &&& forall|k: int|
            0 <= k < free.len() ==> self.slots@[#[trigger] free[k] as int].1 == (Slot::<T>::Empty {
                next_free: Self::next_of(free, k),
            })
        &&& free.no_duplicates()
        &&& forall|i: int|
            0 <= i < self.slots@.len() && !((#[trigger] self.slots@[i]).1 is Occupied)
                ==> free.contains(i as usize)
        &&& self.freelist_head == (if free.len() > 0 {
            Some(free[0])
        } else {
            None::<usize>
        })
        &&& self.count + free.len() == self.slots@.len()
    }

    /// Create a new empty `GenMap` with enough memory to accommodate
    /// the given number of items without reallocating.
    pub fn with_capacity(capacity: usize) -> (res: Self)
        ensures
            res.wf(),
            res@ == Map::<Handle, T>::empty(),
            res.spec_count() == 0,
            res.spec_slot_count() == 0,
            res.can_insert(),
            forall|n: nat| n <= usize::MAX ==> #[trigger] res.can_insert_many(n),
    {
        let res = GenMap {
            slots: Vec::with_capacity(capacity),
            freelist_head: None,
            count: 0,
            free: Ghost(Seq::empty()),
        };
        assert(res@ =~= Map::<Handle, T>::empty());
        res
    }
    /// Returns a reference to the item if the handle is valid,
    /// or `None` otherwise.
    pub fn get(&self, h: Handle) -> (res: Option<&T>)
        requires
            self.wf(),
        ensures
            res matches Some(x) ==> self@.contains_key(h) && *x == self@[h],
            res is None ==> !self@.contains_key(h),
    {
        if h.idx < self.slots.len() {
            let s = &self.slots[h.idx];
            match &s.1 {
                Slot::Occupied { itm } => {
                    if s.0 == h.gen {
                        Some(itm)
                    } else {
                        None
                    }
                },
                Slot::Empty { .. } => None,
            }
        } else {
            None
        }
    }

    /// Insert the element into the map and return a handle referring to it.
    pub fn insert(&mut self, itm: T) -> (h: Handle)
        requires
            old(self).wf(),
            old(self).can_insert(),
        ensures
            final(self).wf(),
            h == old(self).spec_next_handle(),
            h == old(self).spec_next_handles(1)[0],
            forall|n: nat| #[trigger]
                final(self).spec_next_handles(n) == old(self).spec_next_handles(n + 1).drop_first(),
            !old(self)@.contains_key(h),
            final(self)@ == old(self)@.insert(h, itm),
            final(self).spec_count() == old(self).spec_count() + 1,
            forall|g: Handle| old(self).spec_stale(g) ==> #[trigger] final(self).spec_stale(g),
            final(self).spec_slot_count() >= old(self).spec_slot_count(),
            forall|n: nat| #[trigger]
                old(self).can_insert_many(n) && n >= 1 ==> final(self).can_insert_many((n - 1) as nat),
    {
        self.count = self.count + 1;
        match self.freelist_head {
            Some(i) => {
                let ghost free = self.free@;
                assert(free[0] == i);
                let gen = self.slots[i].0;
                let next = match &self.slots[i].1 {
                    Slot::Empty { next_free } => *next_free,
                    Slot::Occupied { .. } => None,
                };
                self.freelist_head = next;
                let new_gen = gen + 1;
                self.slots.set(i, (new_gen, Slot::Occupied { itm }));
                proof {
                    self.free@ = free.drop_first();
                    assert forall|k: int| 0 <= k < self.free@.len() implies self.slots@[#[trigger] self.free@[k] as int].1
                        == (Slot::<T>::Empty { next_free: Self::next_of(self.free@, k) }) by {
                        assert(self.free@[k] == free[k + 1]);
                        assert(free[k + 1] != free[0]);
                    }
                    assert forall|j: int| 0 <= j < self.slots@.len() && !((#[trigger] self.slots@[j]).1 is Occupied)
                        implies self.free@.contains(j as usize) by {
                        assert(self.slots.len() == self.slots@.len());
                        let ju = j as usize;
                        assert(ju as int == j);
                        assert(ju != i);
                        assert(free.contains(ju));
                        let k = choose|k: int| 0 <= k < free.len() && free[k] == ju;
                        assert(k != 0);
                        assert(self.free@[k - 1] == ju);
                    }
                }
                let h = Handle { gen: new_gen, idx: i };
                assert(self@ =~= old(self)@.insert(h, itm));
                h
            },
            None => {
                let idx = self.slots.len();
                self.slots.push((1, Slot::Occupied { itm }));
                let h = Handle { gen: 1, idx };
                assert(self@ =~= old(self)@.insert(h, itm));
                h
            },
        }
    }
    /// Removes the referenced item from the map, returning it.
    /// Returns `None` if the handle is stale.
    #[verifier::rlimit(40)]
    pub fn remove(&mut self, h: Handle) -> (res: Option<T>)
        requires
            old(self).wf(),
        ensures
            final(self).wf(),
            res matches Some(x) ==> old(self)@.contains_key(h) && x == old(self)@[h],
            res is None ==> !old(self)@.contains_key(h),
            final(self)@ == old(self)@.remove(h),
            old(self)@.contains_key(h) ==> final(self).spec_count() + 1 == old(self).spec_count(),
            !old(self)@.contains_key(h) ==> final(self).spec_count() == old(self).spec_count(),
            old(self)@.contains_key(h) ==> final(self).spec_stale(h),
            forall|g: Handle| old(self).spec_stale(g) ==> #[trigger] final(self).spec_stale(g),
            final(self).spec_slot_count() == old(self).spec_slot_count(),
    {
        if h.idx >= self.slots.len() {
            return None;
        }
        let live = match &self.slots[h.idx].1 {
            Slot::Occupied { .. } => self.slots[h.idx].0 == h.gen,
            Slot::Empty { .. } => false,
        };
        if !live {
            assert(self@ =~= old(self)@.remove(h));
            return None;
        }
        proof {
            self.lemma_count_is_len();
            assert(self@.contains_key(h));
            vstd::set::axiom_set_remove_len(self@.dom(), h);
        }
        self.count = self.count - 1;
        let gen = self.slots[h.idx].0;
        let mut old_contents = (gen, Slot::Empty { next_free: self.freelist_head });
        core::mem::swap(&mut self.slots[h.idx], &mut old_contents);
        self.freelist_head = Some(h.idx);
        proof {
            let free = self.free@;
            self.free@ = seq![h.idx].add(free);
            assert(!free.contains(h.idx));
            assert forall|k: int| 0 <= k < self.free@.len() implies self.slots@[#[trigger] self.free@[k] as int].1
                == (Slot::<T>::Empty { next_free: Self::next_of(self.free@, k) }) by {
                if k > 0 {
                    assert(self.free@[k] == free[k - 1]);
                }
            }
            assert forall|j: int| 0 <= j < self.slots@.len() && !((#[trigger] self.slots@[j]).1 is Occupied)
                implies self.free@.contains(j as usize) by {
                assert(self.slots.len() == self.slots@.len());
                if j == h.idx {
                    assert(self.free@[0] == h.idx);
                } else {
                    let ju = j as usize;
                    assert(free.contains(ju));
                    let k = choose|k: int| 0 <= k < free.len() && free[k] == ju;
                    assert(self.free@[k + 1] == ju);
                }
            }
            assert(self.free@.no_duplicates());
        }
        assert(self@ =~= old(self)@.remove(h));
        match old_contents.1 {
            Slot::Occupied { itm } => Some(itm),
            Slot::Empty { .. } => None,
        }
    }

    /// Number of items in the map.
    pub fn count(&self) -> (res: usize)
        requires
            self.wf(),
        ensures
            res == self.spec_count(),
            res == self@.len(),
    {
        proof {
            self.lemma_count_is_len();
        }
        self.count
    }
    proof fn lemma_count_is_len(&self)
        requires
            self.wf(),
        ensures
            self.count == self@.len(),
            self@.dom().finite(),
    {
        let len = self.slots@.len() as int;
        let range = vstd::set_lib::set_int_range(0, len);
        vstd::set_lib::lemma_int_range(0, len);
        let free = self.free@;
        free.unique_seq_to_set();
        let to_int = |u: usize| u as int;
        let fset = free.to_set().map(to_int);
        vstd::set_lib::lemma_map_size(free.to_set(), fset, to_int);
        let occ = Set::new(|i: int| 0 <= i < len && self.spec_occupied(i));
        assert forall|i: int| #[trigger] fset.contains(i) implies range.contains(i) && !occ.contains(i) by {
            let u = choose|u: usize| free.to_set().contains(u) && to_int(u) == i;
            let k = choose|k: int| 0 <= k < free.len() && free[k] == u;
            assert(free[k] < self.slots@.len());
        }
        assert(occ.subset_of(range));
        vstd::set_lib::lemma_set_subset_finite(range, occ);
        vstd::set_lib::lemma_set_subset_finite(range, fset);
        assert(occ + fset =~= range) by {
            assert forall|i: int| range.contains(i) implies #[trigger] (occ + fset).contains(i) by {
                assert(self.slots.len() == self.slots@.len());
                if !self.spec_occupied(i) {
                    assert(!(self.slots@[i].1 is Occupied));
                    let u = i as usize;
                    assert(free.contains(u));
                    assert(free.to_set().contains(u));
                    assert(to_int(u) == i);
                }
            }
        }
        assert(occ.disjoint(fset));
        vstd::set_lib::lemma_set_disjoint_lens(occ, fset);
        let to_handle = |i: int| Handle { gen: self.spec_gen(i), idx: i as usize };
        assert(self.slots.len() == self.slots@.len());
        assert forall|i1: int, i2: int|
            occ.contains(i1) && occ.contains(i2) && #[trigger] to_handle(i1) == #[trigger] to_handle(i2)
            implies i1 == i2 by {
            assert(to_handle(i1).idx == i1 as usize);
        }
        assert(occ.map(to_handle) =~= self@.dom()) by {
            assert forall|h: Handle| #[trigger] self@.dom().contains(h) implies occ.map(to_handle).contains(h) by {
                assert(occ.contains(h.idx as int));
                assert(to_handle(h.idx as int) == h);
            }
            assert forall|h: Handle| #[trigger] occ.map(to_handle).contains(h) implies self@.dom().contains(h) by {
                let i = choose|i: int| occ.contains(i) && to_handle(i) == h;
                assert(h.idx as int == i);
            }
        }
        vstd::set_lib::lemma_map_size(occ, self@.dom(), to_handle);
    }
    /// Returns a mutable reference to the item if the handle is valid,
    /// or `None` otherwise.
    pub fn get_mut(&mut self, h: Handle) -> (res: Option<&mut T>)
        requires
            old(self).wf(),
        ensures
            res is Some <==> old(self)@.contains_key(h),
            res matches Some(x) ==> *x == old(self)@[h],
            res matches Some(x) ==> final(self)@ == old(self)@.insert(h, *final(x)),
            res matches Some(x) ==> final(self).wf(),
            res matches Some(x) ==> final(self).spec_count() == old(self).spec_count(),
            res matches Some(x) ==> final(self).spec_slot_count() == old(self).spec_slot_count(),
            res matches Some(x) ==> final(self).can_insert() == old(self).can_insert(),
            res matches Some(x) ==> forall|n: nat| #[trigger]
                final(self).can_insert_many(n) == old(self).can_insert_many(n),
            res matches Some(x) ==> forall|n: nat| #[trigger]
                final(self).spec_next_handles(n) == old(self).spec_next_handles(n),
            res matches Some(x) ==> forall|g: Handle| #[trigger] final(self).spec_stale(g) == old(self).spec_stale(g),
            res is None ==> *final(self) == *old(self),
    {
        if h.idx >= self.slots.len() || self.slots[h.idx].0 != h.gen {
            return None;
        }
        if let Slot::Empty { .. } = &self.slots[h.idx].1 {
            return None;
        }
        let entry = &mut self.slots[h.idx];
        match &mut entry.1 {
            Slot::Occupied { itm } => Some(itm),
            Slot::Empty { .. } => None,
        }
    }
    /// The number of items in the free list.
    pub fn freelist_len(&self) -> (len: usize)
        requires
            self.wf(),
        ensures
            len + self.spec_count() == self.spec_slot_count(),
    {
        let mut len: usize = 0;
        let mut head = self.freelist_head;
        let ghost free = self.free@;
        assert(self.slots.len() == self.slots@.len());
        while head.is_some()
            invariant
                free == self.free@,
                forall|k: int| 0 <= k < free.len() ==> #[trigger] free[k] < self.slots@.len(),
                forall|k: int|
                    0 <= k < free.len() ==> self.slots@[#[trigger] free[k] as int].1 == (Slot::<T>::Empty {
                        next_free: Self::next_of(free, k),
                    }),
                len <= free.len(),
                free.len() <= usize::MAX,
                head == (if len < free.len() { Some(free[len as int]) } else { None::<usize> }),
            decreases free.len() - len,
        {
            let i = head.unwrap();
            proof {
                assert(free[len as int] == i);
                assert(i < self.slots@.len());
                assert(self.slots@[free[len as int] as int].1 == (Slot::<T>::Empty {
                    next_free: Self::next_of(free, len as int),
                }));
            }
            len = len + 1;
            match &self.slots[i].1 {
                Slot::Empty { next_free } => {
                    head = *next_free;
                },
                Slot::Occupied { .. } => {
                    head = None;
                },
            }
        }
        len
    }

    /// The live handles, in the order of their slots.
    #[verifier::spinoff_prover]
    #[verifier::rlimit(40)]
    pub fn iter(&self) -> (res: Vec<Handle>)
        requires
            self.wf(),
        ensures
            forall|h: Handle| res@.contains(h) <==> self@.contains_key(h),
            res@.no_duplicates(),
            forall|a: int, b: int| 0 <= a < b < res@.len() ==> res@[a].idx < res@[b].idx,
    {
        let mut res: Vec<Handle> = Vec::new();
        let mut i: usize = 0;
        while i < self.slots.len()
            invariant
                self.wf(),
                i <= self.slots@.len(),
                forall|h: Handle| res@.contains(h) <==> (self@.contains_key(h) && h.idx < i),
                forall|a: int, b: int| 0 <= a < b < res@.len() ==> res@[a].idx < res@[b].idx,
                forall|a: int| 0 <= a < res@.len() ==> res@[a].idx < i,
            decreases self.slots@.len() - i,
        {
            let entry = &self.slots[i];
            if let Slot::Occupied { .. } = &entry.1 {
                let h = Handle { gen: entry.0, idx: i };
                let ghost before = res@;
                res.push(h);
                proof {
                    assert(self.spec_live(h));
                    assert(self@.contains_key(h));
                    assert(res@[res@.len() - 1] == h);
                    assert forall|g: Handle| res@.contains(g) <==> (self@.contains_key(g) && g.idx < i + 1) by {
                        if res@.contains(g) {
                            let k = choose|k: int| 0 <= k < res@.len() && res@[k] == g;
                            if k < before.len() {
                                assert(before[k] == g);
                                assert(before.contains(g));
                            } else {
                                assert(g == h);
                            }
                        }
                        if self@.contains_key(g) && g.idx < i + 1 {
                            if g.idx < i {
                                assert(before.contains(g));
                                let k = choose|k: int| 0 <= k < before.len() && before[k] == g;
                                assert(res@[k] == g);
                            } else {
                                assert(g.gen == h.gen);
                                assert(g == h);
                            }
                        }
                    }
                }
            } else {
                proof {
                    assert forall|g: Handle| res@.contains(g) <==> (self@.contains_key(g) && g.idx < i + 1) by {
                        if self@.contains_key(g) && g.idx == i {
                            assert(self.spec_occupied(i as int));
                        }
                    }
                }
            }
            i = i + 1;
        }
        proof {
            assert forall|a: int, b: int| 0 <= a < res@.len() && 0 <= b < res@.len() && a != b
                implies res@[a] != res@[b] by {
                if a < b {
                    assert(res@[a].idx < res@[b].idx);
                } else {
                    assert(res@[b].idx < res@[a].idx);
                }
            }
        }
        res
    }

    /// The raw slots, for inspection.
    pub fn inner_unck(&self) -> (res: &Vec<(usize, Slot<T>)>)
        requires
            self.wf(),
        ensures
            res@.len() == self.spec_slot_count(),
            forall|i: int| 0 <= i < res@.len() ==> (#[trigger] res@[i]).0 == self.spec_gen(i)
                && (res@[i].1 is Occupied) == self.spec_occupied(i),
            forall|i: int|
                0 <= i < res@.len() && (#[trigger] res@[i]).1 is Occupied ==> self@.contains_key(
                    Handle { gen: res@[i].0, idx: i as usize },
                ) && res@[i].1->itm == self@[Handle { gen: res@[i].0, idx: i as usize }],
    {
        proof {
            assert forall|i: int|
                0 <= i < self.slots@.len() && (#[trigger] self.slots@[i]).1 is Occupied implies self@.contains_key(
                Handle { gen: self.slots@[i].0, idx: i as usize },
            ) && self.slots@[i].1->itm == self@[Handle { gen: self.slots@[i].0, idx: i as usize }] by {
                assert(self.slots.len() == self.slots@.len());
                let h = Handle { gen: self.slots@[i].0, idx: i as usize };
                assert(h.idx as int == i);
                assert(self.spec_live(h));
            }
        }
        &self.slots
    }
    /// The map holds finitely many items, as many as it counts.
    pub proof fn lemma_finite(&self)
        requires
            self.wf(),
        ensures
            self@.dom().finite(),
            self@.len() == self.spec_count(),
    {
        self.lemma_count_is_len();
    }

    /// A stale handle reaches no item: once an item is removed, the
    /// handle that reached it stays invalid, whatever is inserted later
    /// (`insert` and `remove` keep every stale handle stale).
    pub proof fn stale_handle_reaches_nothing(&self, h: Handle)
        requires
            self.wf(),
            self.spec_stale(h),
        ensures
            !self@.contains_key(h),
    {
    }
}

/// What is inserted is found under the handle that `insert` returns, and
/// the other items stay as they were.
pub proof fn inserted_item_is_found<T>(before: GenMap<T>, after: GenMap<T>, h: Handle, itm: T)
    requires
        after@ == before@.insert(h, itm),
    ensures
        after@.contains_key(h),
        after@[h] == itm,
        forall|g: Handle| g != h ==> (#[trigger] after@.contains_key(g) == before@.contains_key(g) && (
        before@.contains_key(g) ==> after@[g] == before@[g])),
{
}

/// What is removed is no longer found, and the other items stay as they
/// were.
pub proof fn removed_item_is_gone<T>(before: GenMap<T>, after: GenMap<T>, h: Handle)
    requires
        after@ == before@.remove(h),
    ensures
        !after@.contains_key(h),
        forall|g: Handle| g != h ==> (#[trigger] after@.contains_key(g) == before@.contains_key(g) && (
        before@.contains_key(g) ==> after@[g] == before@[g])),
{
}

impl<T> Default for GenMap<T> {
    fn default() -> (res: Self)
        ensures
            res.wf(),
            res@ == Map::<Handle, T>::empty(),
            res.spec_count() == 0,
            res.spec_slot_count() == 0,
            res.can_insert(),
            forall|n: nat| n <= usize::MAX ==> #[trigger] res.can_insert_many(n),
    {
        GenMap::with_capacity(0)
    }
}

} // verus!
