use vstd::prelude::*;

verus! {

/// Number of bytes in one page.
pub const PAGE_SIZE: usize = 65536;

/// Number of page slots in a memory view: one for each value of the high
/// 16 bits of an address.
pub const PAGE_COUNT: usize = 65536;

/// The page index of address `a`: its high 16 bits.
pub open spec fn page_of(a: u32) -> int {
    a as int / 65536
}

/// The offset of address `a` inside its page: its low 16 bits.
pub open spec fn offset_of(a: u32) -> int {
    a as int % 65536
}

/// `a + k`, wrapping around the 32-bit address space.
pub open spec fn addr_add(a: u32, k: int) -> u32 {
    ((a as int + k) % 0x1_0000_0000) as u32
}

/// A 64 KiB block of emulated memory.
pub struct Page {
    bytes: Vec<u8>,
}

impl Page {
    fn new() -> (r: Page)
        ensures
            r.bytes@ == Seq::new(PAGE_SIZE as nat, |i: int| 0u8),
    {
        let mut bytes: Vec<u8> = Vec::new();
        let mut i: usize = 0;
        while i < PAGE_SIZE
            invariant
                i <= PAGE_SIZE,
                bytes@ == Seq::new(i as nat, |j: int| 0u8),
            decreases PAGE_SIZE - i,
        {
            bytes.push(0u8);
            i += 1;
        }
        Page { bytes }
    }
}

/// Why a page pool refused a change of its layout.
#[derive(Clone, Copy, Debug, PartialEq, Eq, Structural)]
pub enum PoolError {
    /// A page with that index is already in the pool.
    AlreadyExists,
    /// No page with that index is in the pool.
    NotFound,
}

/// The owner of all live pages: a list of pages and, in the same order, the
/// page index of each.
pub struct PagePool {
    pages: Vec<Page>,
    indices: Vec<u16>,
    locked: bool,
}

impl PagePool {
    /// The pages and the index list correspond one to one, every page is
    /// full size and no index occurs twice.
    pub closed spec fn wf(&self) -> bool {
        &&& self.pages@.len() == self.indices@.len()
        &&& forall|k: int|
            0 <= k < self.pages@.len() ==> (#[trigger] self.pages@[k]).bytes@.len() == PAGE_SIZE
        &&& forall|i: int, j: int|
            0 <= i < self.indices@.len() && 0 <= j < self.indices@.len() && i != j
                ==> self.indices@[i] != self.indices@[j]
    }

    pub closed spec fn is_locked(&self) -> bool {
        self.locked
    }

    fn new() -> (r: PagePool)
        ensures
            r.wf(),
            !r.is_locked(),
            r.indices@.len() == 0,
    {
        PagePool { pages: Vec::new(), indices: Vec::new(), locked: false }
    }

    /// The position of the page with index `index`, if the pool has it.
    fn position(&self, index: u16) -> (r: Option<usize>)
        requires
            self.wf(),
        ensures
            match r {
                Some(k) => k < self.indices@.len() && self.indices@[k as int] == index,
                None => forall|k: int| 0 <= k < self.indices@.len() ==> self.indices@[k] != index,
            },
    {
        let mut k: usize = 0;
        while k < self.indices.len()
            invariant
                k <= self.indices@.len(),
                forall|j: int| 0 <= j < k ==> self.indices@[j] != index,
            decreases self.indices@.len() - k,
        {
            if self.indices[k] == index {
                return Some(k);
            }
            k += 1;
        }
        None
    }

    /// Appends a fresh zeroed page with index `index`; returns its position.
    fn create_page(&mut self, index: u16) -> (r: Result<usize, PoolError>)
        requires
            old(self).wf(),
            old(self).is_locked(),
        ensures
            final(self).wf(),
            final(self).is_locked(),
            match r {
                Ok(k) => {
                    &&& k == old(self).indices@.len()
                    &&& final(self).indices@ == old(self).indices@.push(index)
                    &&& final(self).pages@.len() == old(self).pages@.len() + 1
                    &&& forall|j: int|
                        0 <= j < k ==> #[trigger] final(self).pages@[j] == old(self).pages@[j]
                    &&& final(self).pages@[k as int].bytes@ == Seq::new(
                        PAGE_SIZE as nat,
                        |i: int| 0u8,
                    )
                },
                Err(e) => {
                    &&& e == PoolError::AlreadyExists
                    &&& *final(self) == *old(self)
                    &&& exists|k: int|
                        0 <= k < old(self).indices@.len() && old(self).indices@[k] == index
                },
            },
    {
        match self.position(index) {
            Some(_) => Err(PoolError::AlreadyExists),
            None => {
                let k = self.pages.len();
                self.pages.push(Page::new());
                self.indices.push(index);
                Ok(k)
            },
        }
    }

    /// Drops the page with index `index`. The last page takes its position.
    fn remove_page(&mut self, index: u16) -> (r: Result<(), PoolError>)
        requires
            old(self).wf(),
            old(self).is_locked(),
        ensures
            final(self).wf(),
            final(self).is_locked(),
            match r {
                Ok(_) => exists|k: int|
                    {
                        &&& 0 <= k < old(self).indices@.len()
                        &&& old(self).indices@[k] == index
                        &&& final(self).indices@ == old(self).indices@.update(
                            k,
                            old(self).indices@.last(),
                        ).drop_last()
                        &&& final(self).pages@ == old(self).pages@.update(
                            k,
                            old(self).pages@.last(),
                        ).drop_last()
                    },
                Err(e) => {
                    &&& e == PoolError::NotFound
                    &&& *final(self) == *old(self)
                    &&& forall|k: int|
                        0 <= k < old(self).indices@.len() ==> old(self).indices@[k] != index
                },
            },
    {
        match self.position(index) {
            None => Err(PoolError::NotFound),
            Some(k) => {
                let ghost old_indices = self.indices@;
                self.pages.swap_remove(k);
                self.indices.swap_remove(k);
                assert forall|i: int, j: int|
                    0 <= i < self.indices@.len() && 0 <= j < self.indices@.len() && i != j
                        implies self.indices@[i] != self.indices@[j] by {
                    let oi = if i == k { old_indices.len() - 1 } else { i };
                    let oj = if j == k { old_indices.len() - 1 } else { j };
                    assert(self.indices@[i] == old_indices[oi]);
                    assert(self.indices@[j] == old_indices[oj]);
                }
                Ok(())
            },
        }
    }

    /// Drops every page.
    fn remove_all_pages(&mut self)
        requires
            old(self).wf(),
            old(self).is_locked(),
        ensures
            final(self).wf(),
            final(self).is_locked(),
            final(self).indices@.len() == 0,
    {
        self.pages.clear();
        self.indices.clear();
    }
}

/// One client's view of a page pool: a direct table from the high 16 bits of
/// an address to the position of its page in the pool, rebuilt after every
/// change of the pool's layout.
pub struct Memory {
    pool: PagePool,
    page_table: Vec<Option<usize>>,
    listener: bool,
    going_to_lock: Option<bool>,
}

impl View for Memory {
    /// The mapped pages: page index to the page's bytes.
    type V = Map<int, Seq<u8>>;

    closed spec fn view(&self) -> Map<int, Seq<u8>> {
        Map::new(
            |p: int| 0 <= p < PAGE_COUNT && self.page_table@[p] is Some,
            |p: int| self.pool.pages@[self.page_table@[p]->0 as int].bytes@,
        )
    }
}

/// Sets a registered memory-event flag.
pub fn set_thing(thing: &mut Option<bool>)
    ensures
        *final(thing) == match *old(thing) {
            Some(_) => Some(true),
            None => None::<bool>,
        },
{
    match thing {
        Some(flag) => {
            *flag = true;
        },
        None => {},
    }
}

/// Clears a registered memory-event flag.
pub fn unset_thing(thing: &mut Option<bool>)
    ensures
        *final(thing) == match *old(thing) {
            Some(_) => Some(false),
            None => None::<bool>,
        },
{
    match thing {
        Some(flag) => {
            *flag = false;
        },
        None => {},
    }
}

/// What a registered memory-event flag holds once a memory event is over.
pub open spec fn after_event(thing: Option<bool>) -> Option<bool> {
    match thing {
        Some(_) => Some(false),
        None => None,
    }
}

/// `after` differs from `before` in the two bytes of the little-endian
/// 16-bit value `v` stored at `a` alone.
pub open spec fn stores_u16(before: Memory, after: Memory, a: u32, v: u16) -> bool {
    forall|b: u32| #[trigger] after.byte(b) == if b == a {
        (v % 256) as u8
    } else if b == addr_add(a, 1) {
        (v / 256) as u8
    } else {
        before.byte(b)
    }
}

/// `after` differs from `before` in the four bytes of the little-endian
/// 32-bit value `v` stored at `a` alone.
pub open spec fn stores_u32(before: Memory, after: Memory, a: u32, v: u32) -> bool {
    forall|b: u32| #[trigger] after.byte(b) == if b == a {
        (v % 256) as u8
    } else if b == addr_add(a, 1) {
        ((v / 256) % 256) as u8
    } else if b == addr_add(a, 2) {
        ((v / 65536) % 256) as u8
    } else if b == addr_add(a, 3) {
        (v / 16777216) as u8
    } else {
        before.byte(b)
    }
}

/// A byte load of an address whose page is unmapped gives zero; such a load
/// takes the view by shared reference, so it maps no page.
pub proof fn lemma_unmapped_byte_is_zero(m: Memory, a: u32)
    requires
        !m@.contains_key(page_of(a)),
    ensures
        m.byte(a) == 0,
{
}

/// A 32-bit load at an aligned address gives back the value that a 32-bit
/// store there wrote.
pub proof fn lemma_u32_round_trip(before: Memory, after: Memory, a: u32, v: u32)
    requires
        a % 4 == 0,
        stores_u32(before, after, a, v),
    ensures
        after.word(a) == v,
{
    assert(addr_add(a, 1) == a + 1 && addr_add(a, 2) == a + 2 && addr_add(a, 3) == a + 3);
    assert(after.byte(a) == (v % 256) as u8);
    assert(after.byte(addr_add(a, 1)) == ((v / 256) % 256) as u8);
    assert(after.byte(addr_add(a, 2)) == ((v / 65536) % 256) as u8);
    assert(after.byte(addr_add(a, 3)) == (v / 16777216) as u8);
}

/// A signed 16-bit load at an even address gives back the stored value read
/// as signed: a value with bit 15 set comes back negative, as `v - 65536`.
pub proof fn lemma_i16_round_trip(before: Memory, after: Memory, a: u32, v: u16)
    requires
        a % 2 == 0,
        stores_u16(before, after, a, v),
    ensures
        after.half(a) == v,
        after.half(a) as i16 == v as i16,
        v >= 0x8000 ==> (after.half(a) as i16) < 0 && (after.half(a) as i16) as int == v as int - 65536,
{
    assert(addr_add(a, 1) == a + 1);
    assert(after.byte(a) == (v % 256) as u8);
    assert(after.byte(addr_add(a, 1)) == (v / 256) as u8);
    assert(after.half(a) == v);
    assert(v >= 0x8000 ==> (v as i16) < 0 && (v as i16) as i32 == (v as i32) - 65536i32) by (bit_vector);
}

impl Memory {
    closed spec fn table_matches(&self) -> bool {
        &&& self.page_table@.len() == PAGE_COUNT
        &&& forall|p: int|
            0 <= p < PAGE_COUNT && (#[trigger] self.page_table@[p]) is Some ==> {
                &&& self.page_table@[p]->0 < self.pool.indices@.len()
                &&& self.pool.indices@[self.page_table@[p]->0 as int] == p
            }
        &&& forall|k: int|
            0 <= k < self.pool.indices@.len() ==> self.page_table@[#[trigger] self.pool.indices@[k] as int]
                == Some(k as usize)
    }

    /// The pool is consistent and unlocked, and the table is the one that
    /// the pool's layout gives.
    pub closed spec fn wf(&self) -> bool {
        &&& self.pool.wf()
        &&& !self.pool.is_locked()
        &&& self.table_matches()
    }

    /// Whether a listener is registered to be paused during lock cycles.
    pub closed spec fn has_listener(&self) -> bool {
        self.listener
    }

    /// The registered memory-event flag, if any.
    pub closed spec fn thing(&self) -> Option<bool> {
        self.going_to_lock
    }

    /// The byte at address `a`; an unmapped page reads as zero.
    pub open spec fn byte(&self, a: u32) -> u8 {
        if self@.contains_key(page_of(a)) {
            self@[page_of(a)][offset_of(a)]
        } else {
            0
        }
    }

    /// The little-endian 16-bit value at `a` and `a + 1`.
    pub open spec fn half(&self, a: u32) -> u16 {
        (self.byte(a) as int + 256 * self.byte(addr_add(a, 1)) as int) as u16
    }

    /// The little-endian 32-bit value at `a` to `a + 3`.
    pub open spec fn word(&self, a: u32) -> u32 {
        (self.byte(a) as int + 256 * self.byte(addr_add(a, 1)) as int + 65536 * self.byte(
            addr_add(a, 2),
        ) as int + 16777216 * self.byte(addr_add(a, 3)) as int) as u32
    }

    /// A view with no page mapped, over a fresh pool.
    pub fn new() -> (r: Memory)
        ensures
            r.wf(),
            r@ == Map::<int, Seq<u8>>::empty(),
            !r.has_listener(),
            r.thing() is None,
    {
        let pool = PagePool::new();
        let mut m = Memory { pool, page_table: Vec::new(), listener: false, going_to_lock: None };
        m.refresh();
        assert(m@ =~= Map::<int, Seq<u8>>::empty());
        m
    }

    /// Rebuilds the page table from the pool's layout.
    fn refresh(&mut self)
        requires
            old(self).pool.wf(),
        ensures
            final(self).pool == old(self).pool,
            final(self).listener == old(self).listener,
            final(self).going_to_lock == old(self).going_to_lock,
            final(self).table_matches(),
    {
        let mut table: Vec<Option<usize>> = Vec::new();
        let mut i: usize = 0;
        while i < PAGE_COUNT
            invariant
                i <= PAGE_COUNT,
                table@.len() == i,
                forall|j: int| 0 <= j < i ==> table@[j] is None,
            decreases PAGE_COUNT - i,
        {
            table.push(None);
            i += 1;
        }
        let mut k: usize = 0;
        while k < self.pool.indices.len()
            invariant
                self.pool.wf(),
                k <= self.pool.indices@.len(),
                table@.len() == PAGE_COUNT,
                forall|p: int|
                    0 <= p < PAGE_COUNT && (#[trigger] table@[p]) is Some ==> {
                        &&& table@[p]->0 < k
                        &&& self.pool.indices@[table@[p]->0 as int] == p
                    },
                forall|j: int| 0 <= j < k ==> table@[#[trigger] self.pool.indices@[j] as int] == Some(j as usize),
            decreases self.pool.indices@.len() - k,
        {
            let idx = self.pool.indices[k] as usize;
            table.set(idx, Some(k));
            k += 1;
        }
        self.page_table = table;
    }

    /// Maps page `page_of(a)`, which must be unmapped, to a fresh zeroed page
    /// inside a lock cycle; returns the page's position in the pool.
    fn create_page(&mut self, a: u32) -> (r: usize)
        requires
            old(self).wf(),
            !old(self)@.contains_key(page_of(a)),
        ensures
            final(self).wf(),
            final(self)@ == old(self)@.insert(page_of(a), Seq::new(PAGE_SIZE as nat, |i: int| 0u8)),
            final(self).page_table@[page_of(a)] == Some(r),
            final(self).listener == old(self).listener,
            final(self).going_to_lock == after_event(old(self).going_to_lock),
    {
        let p: u32 = a / 65536;
        let ghost old_mem = *self;
        set_thing(&mut self.going_to_lock);
        self.lock_begin();
        let created = self.pool.create_page(p as u16);
        self.lock_end();
        unset_thing(&mut self.going_to_lock);
        let k = match created {
            Ok(k) => k,
            Err(_) => {
                proof {
                    let j = choose|j: int|
                        0 <= j < old_mem.pool.indices@.len() && old_mem.pool.indices@[j] == p as u16;
                    assert(old_mem.page_table@[old_mem.pool.indices@[j] as int] == Some(j as usize));
                }
                0
            },
        };
        proof {
            let n = old_mem.pool.indices@.len();
            assert(self.pool.indices@[n as int] == p as u16);
            assert forall|q: int| 0 <= q < PAGE_COUNT && q != p implies self.page_table@[q]
                == old_mem.page_table@[q] by {
                if old_mem.page_table@[q] is Some {
                    let j = old_mem.page_table@[q]->0 as int;
                    assert(self.pool.indices@[j] == old_mem.pool.indices@[j]);
                } else if self.page_table@[q] is Some {
                    let j = self.page_table@[q]->0 as int;
                    assert(old_mem.page_table@[old_mem.pool.indices@[j] as int] == Some(j as usize));
                }
            }
            assert(self@ =~= old_mem@.insert(page_of(a), Seq::new(PAGE_SIZE as nat, |i: int| 0u8)));
        }
        k
    }

    /// The byte at `a`; an unmapped page reads as zero and is not created.
    pub fn get_u8(&self, a: u32) -> (r: u8)
        requires
            self.wf(),
        ensures
            r == self.byte(a),
            !self@.contains_key(page_of(a)) ==> r == 0,
    {
        match self.page_table[(a / 65536) as usize] {
            Some(k) => self.pool.pages[k].bytes[(a % 65536) as usize],
            None => 0,
        }
    }

    /// The byte at `a`, or `None` where its page is unmapped.
    pub fn get_u8_o(&self, a: u32) -> (r: Option<u8>)
        requires
            self.wf(),
        ensures
            r == (if self@.contains_key(page_of(a)) {
                Some(self.byte(a))
            } else {
                None
            }),
    {
        match self.page_table[(a / 65536) as usize] {
            Some(k) => Some(self.pool.pages[k].bytes[(a % 65536) as usize]),
            None => None,
        }
    }

    /// The byte at `a`, read as a signed value.
    pub fn get_i8(&self, a: u32) -> (r: i8)
        requires
            self.wf(),
        ensures
            r == self.byte(a) as i8,
    {
        self.get_u8(a) as i8
    }

    /// Stores `v` at `a`, creating the page if it is unmapped.
    pub fn set_u8(&mut self, a: u32, v: u8)
        requires
            old(self).wf(),
        ensures
            final(self).wf(),
            final(self)@.dom() == old(self)@.dom().insert(page_of(a)),
            forall|b: u32| #[trigger] final(self).byte(b) == if b == a { v } else { old(self).byte(b) },
            final(self).has_listener() == old(self).has_listener(),
            final(self).thing() == if old(self)@.contains_key(page_of(a)) {
                old(self).thing()
            } else {
                after_event(old(self).thing())
            },
    {
        let ghost old_mem = *self;
        let p = (a / 65536) as usize;
        let k = match self.page_table[p] {
            Some(k) => k,
            None => self.create_page(a),
        };
        let ghost mid = *self;
        let off = (a % 65536) as usize;
        assert(mid@.contains_key(p as int));
        assert(mid.pool.pages@[k as int].bytes@.len() == PAGE_SIZE);
        self.pool.pages[k].bytes[off] = v;
        proof {
            assert forall|q: int| 0 <= q < PAGE_COUNT && q != p && #[trigger] self.page_table@[q] is Some
                implies self.page_table@[q]->0 != k by {
                assert(self.pool.indices@[k as int] == p);
            }
            assert(self@ =~= mid@.insert(p as int, mid@[p as int].update(off as int, v)));
            assert forall|b: u32| #[trigger] self.byte(b) == if b == a { v } else { old_mem.byte(b) } by {
                if page_of(b) == page_of(a) && offset_of(b) == offset_of(a) {
                    assert(b == a);
                }
            }
            assert(self@.dom() =~= old_mem@.dom().insert(page_of(a)));
        }
    }

    /// The little-endian 16-bit value at `a`, at any alignment.
    pub fn get_u16(&self, a: u32) -> (r: u16)
        requires
            self.wf(),
        ensures
            r == self.half(a),
    {
        let lo = self.get_u8(a);
        let hi = self.get_u8(a.wrapping_add(1));
        assert(a.wrapping_add(1) == addr_add(a, 1));
        lo as u16 + (hi as u16) * 256
    }

    /// The 16-bit value at an even address `a`.
    pub fn get_u16_aligned(&self, a: u32) -> (r: u16)
        requires
            self.wf(),
            a % 2 == 0,
        ensures
            r == self.half(a),
    {
        self.get_u16(a)
    }

    /// The 16-bit value at an even address `a`, read as a signed value.
    pub fn get_i16_aligned(&self, a: u32) -> (r: i16)
        requires
            self.wf(),
            a % 2 == 0,
        ensures
            r == self.half(a) as i16,
    {
        self.get_u16(a) as i16
    }

    /// The little-endian 32-bit value at `a`, at any alignment.
    pub fn get_u32(&self, a: u32) -> (r: u32)
        requires
            self.wf(),
        ensures
            r == self.word(a),
    {
        let b0 = self.get_u8(a);
        let b1 = self.get_u8(a.wrapping_add(1));
        let b2 = self.get_u8(a.wrapping_add(2));
        let b3 = self.get_u8(a.wrapping_add(3));
        assert(a.wrapping_add(1) == addr_add(a, 1));
        assert(a.wrapping_add(2) == addr_add(a, 2));
        assert(a.wrapping_add(3) == addr_add(a, 3));
        b0 as u32 + (b1 as u32) * 256 + (b2 as u32) * 65536 + (b3 as u32) * 16777216
    }

    /// The 32-bit value at an address `a` that is a multiple of four.
    pub fn get_u32_aligned(&self, a: u32) -> (r: u32)
        requires
            self.wf(),
            a % 4 == 0,
        ensures
            r == self.word(a),
    {
        self.get_u32(a)
    }

    /// Stores the little-endian bytes of `v` at `a` and `a + 1`, at any
    /// alignment, creating pages as needed.
    pub fn set_u16(&mut self, a: u32, v: u16)
        requires
            old(self).wf(),
        ensures
            final(self).wf(),
            final(self)@.dom() == old(self)@.dom().insert(page_of(a)).insert(page_of(addr_add(a, 1))),
            stores_u16(*old(self), *final(self), a, v),
            final(self).has_listener() == old(self).has_listener(),
    {
        let a1 = a.wrapping_add(1);
        assert(a1 == addr_add(a, 1));
        self.set_u8(a, (v % 256) as u8);
        self.set_u8(a1, (v / 256) as u8);
    }

    /// Stores `v` at an even address `a`.
    #[verifier::rlimit(100)]
    #[verifier::spinoff_prover]
    pub fn set_u16_aligned(&mut self, a: u32, v: u16)
        requires
            old(self).wf(),
            a % 2 == 0,
        ensures
            final(self).wf(),
            final(self)@.dom() == old(self)@.dom().insert(page_of(a)),
            stores_u16(*old(self), *final(self), a, v),
            final(self).has_listener() == old(self).has_listener(),
    {
        assert(page_of(addr_add(a, 1)) == page_of(a));
        self.set_u16(a, v);
        assert(final(self)@.dom() =~= old(self)@.dom().insert(page_of(a)));
    }

    /// Stores the little-endian bytes of `v` at `a` to `a + 3`, at any
    /// alignment, creating pages as needed.
    pub fn set_u32(&mut self, a: u32, v: u32)
        requires
            old(self).wf(),
        ensures
            final(self).wf(),
            final(self)@.dom() == old(self)@.dom().insert(page_of(a)).insert(
                page_of(addr_add(a, 1)),
            ).insert(page_of(addr_add(a, 2))).insert(page_of(addr_add(a, 3))),
            stores_u32(*old(self), *final(self), a, v),
            final(self).has_listener() == old(self).has_listener(),
    {
        let a1 = a.wrapping_add(1);
        let a2 = a.wrapping_add(2);
        let a3 = a.wrapping_add(3);
        assert(a1 == addr_add(a, 1));
        assert(a2 == addr_add(a, 2));
        assert(a3 == addr_add(a, 3));
        self.set_u8(a, (v % 256) as u8);
        self.set_u8(a1, ((v / 256) % 256) as u8);
        self.set_u8(a2, ((v / 65536) % 256) as u8);
        self.set_u8(a3, (v / 16777216) as u8);
    }

    /// Stores `v` at an address `a` that is a multiple of four.
    #[verifier::rlimit(100)]
    #[verifier::spinoff_prover]
    pub fn set_u32_aligned(&mut self, a: u32, v: u32)
        requires
            old(self).wf(),
            a % 4 == 0,
        ensures
            final(self).wf(),
            final(self)@.dom() == old(self)@.dom().insert(page_of(a)),
            stores_u32(*old(self), *final(self), a, v),
            final(self).has_listener() == old(self).has_listener(),
    {
        assert(addr_add(a, 1) == a + 1 && addr_add(a, 2) == a + 2 && addr_add(a, 3) == a + 3);
        assert(page_of(addr_add(a, 1)) == page_of(a));
        assert(page_of(addr_add(a, 2)) == page_of(a));
        assert(page_of(addr_add(a, 3)) == page_of(a));
        let ghost old_dom = self@.dom();
        self.set_u32(a, v);
        assert(self@.dom() =~= old_dom.insert(page_of(a)));
        assert(final(self)@.dom() =~= old(self)@.dom().insert(page_of(a)));
    }

    /// Whether the page holding address `a` is mapped.
    pub fn is_mapped(&self, a: u32) -> (r: bool)
        requires
            self.wf(),
        ensures
            r == self@.contains_key(page_of(a)),
    {
        self.page_table[(a / 65536) as usize].is_some()
    }

    /// The indices of the mapped pages, each once.
    pub fn mapped_pages(&self) -> (r: Vec<u16>)
        requires
            self.wf(),
        ensures
            forall|p: int| self@.contains_key(p) <==> exists|i: int| 0 <= i < r@.len() && r@[i] == p,
            forall|i: int, j: int| 0 <= i < r@.len() && 0 <= j < r@.len() && i != j ==> r@[i] != r@[j],
    {
        let mut r: Vec<u16> = Vec::new();
        let mut k: usize = 0;
        while k < self.pool.indices.len()
            invariant
                self.wf(),
                k <= self.pool.indices@.len(),
                r@ == self.pool.indices@.subrange(0, k as int),
            decreases self.pool.indices@.len() - k,
        {
            r.push(self.pool.indices[k]);
            k += 1;
            assert(r@ =~= self.pool.indices@.subrange(0, k as int));
        }
        assert(r@ =~= self.pool.indices@);
        assert forall|p: int| self@.contains_key(p) implies exists|i: int| 0 <= i < r@.len() && r@[i] == p by {
            let i = self.page_table@[p]->0 as int;
            assert(r@[i] == p);
        }
        r
    }

    /// Unmaps the page holding address `a` and frees it, inside a lock cycle.
    /// Nothing changes where that page is not mapped.
    pub fn unload_page_at_address(&mut self, address: u32)
        requires
            old(self).wf(),
        ensures
            final(self).wf(),
            final(self)@ == old(self)@.remove(page_of(address)),
            final(self).has_listener() == old(self).has_listener(),
            final(self).thing() == after_event(old(self).thing()),
    {
        let ghost old_mem = *self;
        set_thing(&mut self.going_to_lock);
        self.lock_begin();
        let removed = self.pool.remove_page((address / 65536) as u16);
        self.lock_end();
        unset_thing(&mut self.going_to_lock);
        proof {
            let p = page_of(address);
            let n = old_mem.pool.indices@.len();
            match removed {
                Ok(_) => {
                    let k = choose|k: int|
                        {
                            &&& 0 <= k < n
                            &&& old_mem.pool.indices@[k] == p as u16
                            &&& self.pool.indices@ == old_mem.pool.indices@.update(
                                k,
                                old_mem.pool.indices@.last(),
                            ).drop_last()
                            &&& self.pool.pages@ == old_mem.pool.pages@.update(
                                k,
                                old_mem.pool.pages@.last(),
                            ).drop_last()
                        };
                    assert forall|q: int| 0 <= q < PAGE_COUNT && q != p && old_mem.page_table@[q] is Some
                        implies #[trigger] self.page_table@[q] is Some && self.pool.pages@[self.page_table@[q]->0 as int]
                        == old_mem.pool.pages@[old_mem.page_table@[q]->0 as int] by {
                        let j = old_mem.page_table@[q]->0 as int;
                        let j2 = if j == n - 1 { k } else { j };
                        assert(self.pool.indices@[j2] == q as u16);
                    }
                    assert forall|q: int| 0 <= q < PAGE_COUNT && #[trigger] self.page_table@[q] is Some
                        implies q != p && old_mem.page_table@[q] is Some by {
                        let j2 = self.page_table@[q]->0 as int;
                        let j = if j2 == k { n - 1 } else { j2 };
                        assert(old_mem.pool.indices@[j] == self.pool.indices@[j2]);
                        assert(old_mem.page_table@[old_mem.pool.indices@[j] as int] == Some(j as usize));
                    }
                },
                Err(_) => {
                    assert forall|q: int| 0 <= q < PAGE_COUNT implies #[trigger] self.page_table@[q]
                        == old_mem.page_table@[q] by {
                        if old_mem.page_table@[q] is Some {
                            let j = old_mem.page_table@[q]->0 as int;
                            assert(self.pool.indices@[j] == old_mem.pool.indices@[j]);
                        } else if self.page_table@[q] is Some {
                            let j = self.page_table@[q]->0 as int;
                            assert(old_mem.page_table@[old_mem.pool.indices@[j] as int] == Some(j as usize));
                        }
                    }
                    assert(!old_mem@.contains_key(p));
                },
            }
            assert(self@ =~= old_mem@.remove(p));
        }
    }

    /// Unmaps and frees every page, inside a lock cycle.
    pub fn unload_all_pages(&mut self)
        requires
            old(self).wf(),
        ensures
            final(self).wf(),
            final(self)@ == Map::<int, Seq<u8>>::empty(),
            final(self).has_listener() == old(self).has_listener(),
            final(self).thing() == after_event(old(self).thing()),
    {
        set_thing(&mut self.going_to_lock);
        self.lock_begin();
        self.pool.remove_all_pages();
        self.lock_end();
        unset_thing(&mut self.going_to_lock);
        assert(self@ =~= Map::<int, Seq<u8>>::empty());
    }

    /// Registers a memory-event flag, holding `thing`, that is raised while
    /// this view changes the pool's layout.
    pub fn add_thing(&mut self, thing: bool)
        requires
            old(self).wf(),
        ensures
            final(self).wf(),
            final(self)@ == old(self)@,
            final(self).thing() == Some(thing),
            final(self).has_listener() == old(self).has_listener(),
    {
        self.going_to_lock = Some(thing);
    }

    /// Drops the registered memory-event flag.
    pub fn remove_thing(&mut self)
        requires
            old(self).wf(),
        ensures
            final(self).wf(),
            final(self)@ == old(self)@,
            final(self).thing() is None,
            final(self).has_listener() == old(self).has_listener(),
    {
        self.going_to_lock = None;
    }

    /// The registered memory-event flag, if any.
    pub fn get_thing(&self) -> (r: Option<bool>)
        ensures
            r == self.thing(),
    {
        self.going_to_lock
    }

    /// Records that a listener, the CPU that owns this view, is registered.
    pub fn add_listener(&mut self)
        requires
            old(self).wf(),
        ensures
            final(self).wf(),
            final(self)@ == old(self)@,
            final(self).has_listener(),
            final(self).thing() == old(self).thing(),
    {
        self.listener = true;
    }

    /// Drops the registered listener.
    pub fn remove_listener(&mut self)
        requires
            old(self).wf(),
        ensures
            final(self).wf(),
            final(self)@ == old(self)@,
            !final(self).has_listener(),
            final(self).thing() == old(self).thing(),
    {
        self.listener = false;
    }

    /// Whether a listener is registered.
    pub fn listener_registered(&self) -> (r: bool)
        ensures
            r == self.has_listener(),
    {
        self.listener
    }

    /// Starts a lock cycle. A view belongs to the CPU that uses it, and that
    /// CPU is the one changing the layout, so its listener has nothing to
    /// wait for; the pool only records that it is locked.
    fn lock_begin(&mut self)
        requires
            old(self).wf(),
        ensures
            final(self).pool.wf(),
            final(self).pool.is_locked(),
            final(self).pool.pages == old(self).pool.pages,
            final(self).pool.indices == old(self).pool.indices,
            final(self).page_table == old(self).page_table,
            final(self).listener == old(self).listener,
            final(self).going_to_lock == old(self).going_to_lock,
    {
        self.pool.locked = true;
    }

    /// Ends a lock cycle: the table is rebuilt from the pool's new layout
    /// and the pool is unlocked.
    fn lock_end(&mut self)
        requires
            old(self).pool.wf(),
        ensures
            final(self).wf(),
            final(self).pool.pages == old(self).pool.pages,
            final(self).pool.indices == old(self).pool.indices,
            final(self).listener == old(self).listener,
            final(self).going_to_lock == old(self).going_to_lock,
    {
        self.refresh();
        self.pool.locked = false;
    }
}

} // verus!
