//! The memory subsystem: a byte-addressable heap with a first-fit allocator
//! over disjoint extents, and a fixed-capacity byte stack.
use vstd::prelude::*;

verus! {

/// An extent `(start, end)` holds the addresses `start <= a < end`.
pub open spec fn covers(e: (usize, usize), a: int) -> bool {
    e.0 <= a < e.1
}

/// Whether some live extent holds address `a`.
pub open spec fn is_live(ext: Set<(usize, usize)>, a: int) -> bool {
    exists|e: (usize, usize)| ext.contains(e) && #[trigger] covers(e, a)
}

/// Whether `n` bytes at `a` lie inside a heap of `len` bytes and touch no live extent.
pub open spec fn is_free_region(ext: Set<(usize, usize)>, len: nat, a: int, n: int) -> bool {
    &&& 0 <= a
    &&& a + n <= len
    &&& forall|e: (usize, usize)| #[trigger] ext.contains(e) ==> e.1 <= a || a + n <= e.0
}

/// Whether a request for `n` bytes can be placed at `a`; a request for no
/// bytes is never placed.
pub open spec fn fits(ext: Set<(usize, usize)>, len: nat, a: int, n: int) -> bool {
    n > 0 && is_free_region(ext, len, a, n)
}

/// Whether `a` is the lowest address at which `n` bytes fit.
pub open spec fn is_first_fit(ext: Set<(usize, usize)>, len: nat, a: int, n: int) -> bool {
    &&& fits(ext, len, a, n)
    &&& forall|b: int| 0 <= b < a ==> !#[trigger] fits(ext, len, b, n)
}

/// The lowest address where `n` bytes fit, if they fit anywhere.
pub open spec fn first_fit(ext: Set<(usize, usize)>, len: nat, n: int) -> Option<int> {
    if exists|a: int| is_first_fit(ext, len, a, n) {
        Some(choose|a: int| is_first_fit(ext, len, a, n))
    } else {
        None
    }
}

/// The first fit is unique.
pub proof fn lemma_first_fit_is(ext: Set<(usize, usize)>, len: nat, a: int, n: int)
    requires
        is_first_fit(ext, len, a, n),
    ensures
        first_fit(ext, len, n) == Some(a),
{
    let b = choose|b: int| is_first_fit(ext, len, b, n);
    if b < a {
        assert(fits(ext, len, b, n));
    } else if a < b {
        assert(fits(ext, len, a, n));
    }
}

/// Where nothing fits there is no first fit.
pub proof fn lemma_first_fit_none(ext: Set<(usize, usize)>, len: nat, n: int)
    requires
        forall|b: int| !#[trigger] fits(ext, len, b, n),
    ensures
        first_fit(ext, len, n) is None,
{
    if exists|a: int| is_first_fit(ext, len, a, n) {
        let a = choose|a: int| is_first_fit(ext, len, a, n);
        assert(fits(ext, len, a, n));
    }
}

/// `s` with the bytes at `lo <= i < hi` set to zero.
pub open spec fn zeroed(s: Seq<u8>, lo: int, hi: int) -> Seq<u8> {
    Seq::new(s.len(), |i: int| if lo <= i < hi { 0u8 } else { s[i] })
}

/// `s` after the `hi - lo` bytes at `lo` moved to `a`: they appear at `a`, the
/// rest of `a <= i < end` reads zero, and the old place reads zero.
pub open spec fn moved(s: Seq<u8>, lo: int, hi: int, a: int, end: int) -> Seq<u8> {
    Seq::new(
        s.len(),
        |i: int|
            if a <= i < a + (hi - lo) {
                s[lo + (i - a)]
            } else if a <= i < end {
                0u8
            } else if lo <= i < hi {
                0u8
            } else {
                s[i]
            },
    )
}

/// What resizing the extent that holds `pos` to `size` bytes gives: the new
/// extents, the new bytes and the extent's new start; `None` where it fails.
pub open spec fn realloc_model(ext: Set<(usize, usize)>, bytes: Seq<u8>, pos: int, size: int) -> Option<
    (Set<(usize, usize)>, Seq<u8>, int),
> {
    let e = extent_at(ext, pos);
    if !is_live(ext, pos) || size <= 0 {
        None
    } else if size <= e.1 - e.0 {
        Some((ext.remove(e).insert((e.0, (e.0 + size) as usize)), zeroed(bytes, e.0 + size, e.1 as int), e.0 as int))
    } else if is_free_region(ext, bytes.len(), e.1 as int, e.0 + size - e.1) {
        Some((ext.remove(e).insert((e.0, (e.0 + size) as usize)), zeroed(bytes, e.1 as int, e.0 + size), e.0 as int))
    } else {
        match first_fit(ext, bytes.len(), size) {
            None => None,
            Some(a) => Some(
                (
                    ext.insert((a as usize, (a + size) as usize)).remove(e),
                    moved(bytes, e.0 as int, e.1 as int, a, a + size),
                    a,
                ),
            ),
        }
    }
}

/// The live extent that holds `a` (meaningful where `is_live(ext, a)`).
pub open spec fn extent_at(ext: Set<(usize, usize)>, a: int) -> (usize, usize) {
    choose|e: (usize, usize)| ext.contains(e) && covers(e, a)
}

proof fn lemma_insert_to_set<A>(s: Seq<A>, k: int, x: A)
    requires
        0 <= k <= s.len(),
    ensures
        s.insert(k, x).to_set() == s.to_set().insert(x),
{
    let t = s.insert(k, x);
    assert forall|e: A| t.to_set().contains(e) <==> s.to_set().insert(x).contains(e) by {
        if t.contains(e) {
            let j = choose|j: int| 0 <= j < t.len() && t[j] == e;
            if j < k {
                assert(s[j] == e);
            } else if j > k {
                assert(s[j - 1] == e);
            }
        }
        if s.contains(e) {
            let j = choose|j: int| 0 <= j < s.len() && s[j] == e;
            if j < k {
                assert(t[j] == e);
            } else {
                assert(t[j + 1] == e);
            }
        }
        if e == x {
            assert(t[k] == x);
        }
    }
    assert(t.to_set() =~= s.to_set().insert(x));
}

proof fn lemma_remove_to_set<A>(s: Seq<A>, k: int)
    requires
        0 <= k < s.len(),
        forall|j: int| 0 <= j < s.len() && j != k ==> s[j] != s[k],
    ensures
        s.remove(k).to_set() == s.to_set().remove(s[k]),
{
    let t = s.remove(k);
    assert forall|e: A| t.to_set().contains(e) <==> s.to_set().remove(s[k]).contains(e) by {
        if t.contains(e) {
            let j = choose|j: int| 0 <= j < t.len() && t[j] == e;
            if j < k {
                assert(s[j] == e);
            } else {
                assert(s[j + 1] == e);
            }
        }
        if s.contains(e) && e != s[k] {
            let j = choose|j: int| 0 <= j < s.len() && s[j] == e;
            if j < k {
                assert(t[j] == e);
            } else {
                assert(j != k);
                assert(t[j - 1] == e);
            }
        }
    }
    assert(t.to_set() =~= s.to_set().remove(s[k]));
}

proof fn lemma_wf_same_layout(h1: Heap, h2: Heap)
    requires
        h1.wf(),
        h1.allocated@ == h2.allocated@,
        h1.memory@.len() == h2.memory@.len(),
    ensures
        h2.wf(),
{
    assert forall|i: int| 0 <= i < h2.allocated@.len() implies #[trigger] h2.allocated@[i].0
        < h2.allocated@[i].1 <= h2.memory@.len() by {
        let p = h1.allocated@[i];
        assert(p.0 < p.1 <= h1.memory@.len());
        assert(p == h2.allocated@[i]);
    }
    assert forall|i: int, j: int| 0 <= i < j < h2.allocated@.len() implies #[trigger] h2.allocated@[i].1
        <= #[trigger] h2.allocated@[j].0 by {
        assert(h1.allocated@[i] == h2.allocated@[i]);
        assert(h1.allocated@[j] == h2.allocated@[j]);
    }
}

/// A byte-addressable region and the extents that are allocated in it.
pub struct Heap {
    memory: Vec<u8>,
    /// Live extents as half-open ranges, sorted by start address.
    allocated: Vec<(usize, usize)>,
}

impl Heap {
    /// The heap's bytes.
    pub closed spec fn bytes(&self) -> Seq<u8> {
        self.memory@
    }

    /// The live extents, each as a half-open range `(start, end)`.
    pub closed spec fn extents(&self) -> Set<(usize, usize)> {
        self.allocated@.to_set()
    }

    /// Extents are non-empty, inside the heap, and pairwise disjoint.
    pub closed spec fn wf(&self) -> bool {
        &&& forall|i: int|
            0 <= i < self.allocated@.len() ==> {
                let e = #[trigger] self.allocated@[i];
                e.0 < e.1 && e.1 <= self.memory@.len()
            }
        &&& forall|i: int, j: int|
            0 <= i < j < self.allocated@.len() ==> #[trigger] self.allocated@[i].1
                <= #[trigger] self.allocated@[j].0
    }

    /// Live extents never overlap, and lie inside the heap.
    pub proof fn lemma_extents_disjoint(&self, e1: (usize, usize), e2: (usize, usize))
        requires
            self.wf(),
            self.extents().contains(e1),
            self.extents().contains(e2),
        ensures
            e1.0 < e1.1 <= self.bytes().len(),
            e1 == e2 || e1.1 <= e2.0 || e2.1 <= e1.0,
    {
        let i = choose|i: int| 0 <= i < self.allocated@.len() && self.allocated@[i] == e1;
        let j = choose|j: int| 0 <= j < self.allocated@.len() && self.allocated@[j] == e2;
        if i < j {
            assert(self.allocated@[i].1 <= self.allocated@[j].0);
        } else if j < i {
            assert(self.allocated@[j].1 <= self.allocated@[i].0);
        }
    }

    /// Live addresses lie inside the heap.
    pub proof fn lemma_live_in_bounds(&self, a: int)
        requires
            self.wf(),
            is_live(self.extents(), a),
        ensures
            0 <= a < self.bytes().len(),
    {
        let e = choose|e: (usize, usize)| self.extents().contains(e) && covers(e, a);
        self.lemma_extents_disjoint(e, e);
    }

    /// Nothing larger than the heap fits in it.
    pub proof fn lemma_too_large(&self, n: int)
        requires
            n > self.bytes().len(),
        ensures
            forall|b: int| !#[trigger] fits(self.extents(), self.bytes().len(), b, n),
            first_fit(self.extents(), self.bytes().len(), n) is None,
    {
        lemma_first_fit_none(self.extents(), self.bytes().len(), n);
    }

    /// The extent that holds a live address is the one that `extent_at` names.
    pub proof fn lemma_extent_at(&self, e: (usize, usize), a: int)
        requires
            self.wf(),
            self.extents().contains(e),
            covers(e, a),
        ensures
            extent_at(self.extents(), a) == e,
    {
        let f = extent_at(self.extents(), a);
        self.lemma_extents_disjoint(e, f);
    }

    proof fn lemma_entry_live(&self, i: int)
        requires
            0 <= i < self.allocated@.len(),
        ensures
            self.extents().contains(self.allocated@[i]),
    {
        assert(self.allocated@[i] == self.allocated@[i]);
    }

    /// A heap of `size` zero bytes with nothing allocated.
    pub fn new(size: usize) -> (r: Heap)
        ensures
            r.wf(),
            r.bytes() == Seq::new(size as nat, |i: int| 0u8),
            r.extents() == Set::<(usize, usize)>::empty(),
    {
        let memory = vec![0u8; size];
        let allocated: Vec<(usize, usize)> = Vec::new();
        let r = Heap { memory, allocated };
        assert(r.bytes() =~= Seq::new(size as nat, |i: int| 0u8));
        assert(r.extents() =~= Set::<(usize, usize)>::empty());
        r
    }

    /// The heap's size in bytes.
    pub fn size(&self) -> (r: usize)
        ensures
            r == self.bytes().len(),
    {
        self.memory.len()
    }

    /// The lowest address where `size` bytes fit, scanning the gaps between
    /// extents in address order, and where its extent goes in the list.
    fn find_available_space(&self, size: usize) -> (r: Option<(usize, usize)>)
        requires
            self.wf(),
        ensures
            r is None <==> forall|b: int| !#[trigger] fits(self.extents(), self.bytes().len(), b, size as int),
            r matches Some((a, k)) ==> {
                &&& is_first_fit(self.extents(), self.bytes().len(), a as int, size as int)
                &&& k <= self.allocated@.len()
                &&& forall|j: int| 0 <= j < k ==> #[trigger] self.allocated@[j].1 <= a
                &&& forall|j: int| k <= j < self.allocated@.len() ==> a + size <= #[trigger] self.allocated@[j].0
            },
    {
        let ghost ext = self.extents();
        let ghost len = self.bytes().len();
        if size == 0 {
            return None;
        }
        let mut start: usize = 0;
        let mut i: usize = 0;
        while i < self.allocated.len()
            invariant
                self.wf(),
                ext == self.extents(),
                len == self.bytes().len(),
                size > 0,
                i <= self.allocated@.len(),
                start <= len,
                forall|j: int| 0 <= j < i ==> #[trigger] self.allocated@[j].1 <= start,
                i == 0 ==> start == 0,
                i > 0 ==> start == self.allocated@[i - 1].1,
                forall|b: int| 0 <= b < start ==> !#[trigger] fits(ext, len, b, size as int),
            decreases self.allocated@.len() - i,
        {
            let (s, e) = self.allocated[i];
            proof {
                assert(s == self.allocated@[i as int].0 && e == self.allocated@[i as int].1);
                if i > 0 {
                    assert(self.allocated@[i - 1].1 <= self.allocated@[i as int].0);
                }
                self.lemma_entry_live(i as int);
            }
            if s - start >= size {
                proof {
                    assert forall|f: (usize, usize)| #[trigger] ext.contains(f) implies f.1 <= start || start + size <= f.0 by {
                        let k = choose|k: int| 0 <= k < self.allocated@.len() && self.allocated@[k] == f;
                        if k < i {
                        } else if k > i {
                            assert(self.allocated@[i as int].1 <= self.allocated@[k].0);
                        }
                    }
                    assert forall|j: int| i <= j < self.allocated@.len() implies start + size <= #[trigger] self.allocated@[j].0 by {
                        if j > i {
                            assert(self.allocated@[i as int].1 <= self.allocated@[j].0);
                        }
                    }
                    assert(fits(ext, len, start as int, size as int));
                }
                return Some((start, i));
            }
            proof {
                assert forall|b: int| 0 <= b < e implies !#[trigger] fits(ext, len, b, size as int) by {
                    if b >= start {
                        assert(ext.contains((s, e)));
                    }
                }
                assert forall|j: int| 0 <= j < i + 1 implies #[trigger] self.allocated@[j].1 <= e by {
                    if j < i {
                        assert(self.allocated@[j].1 <= self.allocated@[i as int].0);
                    }
                }
            }
            start = e;
            i = i + 1;
        }
        if self.memory.len() - start >= size {
            proof {
                assert forall|f: (usize, usize)| #[trigger] ext.contains(f) implies f.1 <= start || start + size <= f.0 by {
                    let k = choose|k: int| 0 <= k < self.allocated@.len() && self.allocated@[k] == f;
                }
                assert(fits(ext, len, start as int, size as int));
            }
            Some((start, i))
        } else {
            proof {
                assert forall|b: int| !#[trigger] fits(ext, len, b, size as int) by {
                    if 0 <= b && b >= start {
                        assert(b + size > len);
                    }
                }
            }
            None
        }
    }

    /// Sets the bytes at `lo <= i < hi` to zero.
    fn zero_fill(&mut self, lo: usize, hi: usize)
        requires
            lo <= hi <= old(self).memory@.len(),
        ensures
            final(self).memory@ == zeroed(old(self).memory@, lo as int, hi as int),
            final(self).allocated@ == old(self).allocated@,
    {
        let mut i: usize = lo;
        while i < hi
            invariant
                lo <= i <= hi <= self.memory@.len(),
                self.memory@ == zeroed(old(self).memory@, lo as int, i as int),
                self.allocated@ == old(self).allocated@,
            decreases hi - i,
        {
            self.memory.set(i, 0);
            i = i + 1;
            assert(self.memory@ =~= zeroed(old(self).memory@, lo as int, i as int));
        }
    }

    /// Allocates `size` bytes at the lowest address where they fit, zeroes
    /// them and returns that address. Fails, changing nothing, where they fit
    /// nowhere (always for zero bytes).
    pub fn allocate(&mut self, size: usize) -> (r: Result<usize, ()>)
        requires
            old(self).wf(),
        ensures
            final(self).wf(),
            r is Err <==> forall|b: int| !#[trigger] fits(old(self).extents(), old(self).bytes().len(), b, size as int),
            r matches Ok(a) ==> {
                &&& is_first_fit(old(self).extents(), old(self).bytes().len(), a as int, size as int)
                &&& final(self).extents() == old(self).extents().insert((a, (a + size) as usize))
                &&& final(self).bytes() == zeroed(old(self).bytes(), a as int, a + size)
            },
            r is Err ==> *final(self) == *old(self),
            r is Err ==> first_fit(old(self).extents(), old(self).bytes().len(), size as int) is None,
            r matches Ok(a) ==> first_fit(old(self).extents(), old(self).bytes().len(), size as int) == Some(a as int),
    {
        proof {
            if forall|b: int| !#[trigger] fits(self.extents(), self.bytes().len(), b, size as int) {
                lemma_first_fit_none(self.extents(), self.bytes().len(), size as int);
            }
        }
        match self.find_available_space(size) {
            Some((start, k)) => {
                proof {
                    lemma_first_fit_is(self.extents(), self.bytes().len(), start as int, size as int);
                }
                let mlen = self.memory.len();
                assert(start + size <= mlen);
                let end = start + size;
                let ghost pre = self.allocated@;
                self.allocated.insert(k, (start, end));
                proof {
                    lemma_insert_to_set(pre, k as int, (start, end));
                    assert forall|i: int, j: int|
                        0 <= i < j < self.allocated@.len() implies #[trigger] self.allocated@[i].1
                        <= #[trigger] self.allocated@[j].0 by {
                        if j < k {
                        } else if j == k {
                            assert(self.allocated@[i] == pre[i]);
                        } else if i < k {
                            assert(pre[i].1 <= start);
                            assert(self.allocated@[j] == pre[j - 1]);
                        } else if i == k {
                            assert(self.allocated@[j] == pre[j - 1]);
                        } else {
                            assert(self.allocated@[i] == pre[i - 1]);
                            assert(self.allocated@[j] == pre[j - 1]);
                        }
                    }
                }
                self.zero_fill(start, end);
                Ok(start)
            },
            None => Err(()),
        }
    }

    /// The index of the extent that holds `pos`, if one does.
    fn find_extent(&self, pos: usize) -> (r: Option<usize>)
        requires
            self.wf(),
        ensures
            r is None <==> !is_live(self.extents(), pos as int),
            r matches Some(k) ==> {
                &&& k < self.allocated@.len()
                &&& covers(self.allocated@[k as int], pos as int)
                &&& extent_at(self.extents(), pos as int) == self.allocated@[k as int]
            },
    {
        let mut i: usize = 0;
        while i < self.allocated.len()
            invariant
                self.wf(),
                i <= self.allocated@.len(),
                forall|j: int| 0 <= j < i ==> !covers(#[trigger] self.allocated@[j], pos as int),
            decreases self.allocated@.len() - i,
        {
            let (s, e) = self.allocated[i];
            if s <= pos && pos < e {
                proof {
                    self.lemma_entry_live(i as int);
                    self.lemma_extent_at(self.allocated@[i as int], pos as int);
                }
                return Some(i);
            }
            i = i + 1;
        }
        proof {
            assert forall|e: (usize, usize)| self.extents().contains(e) implies !#[trigger] covers(e, pos as int) by {
                let k = choose|k: int| 0 <= k < self.allocated@.len() && self.allocated@[k] == e;
            }
        }
        None
    }

    /// Whether a live extent holds `pos`.
    pub fn is_allocated(&self, pos: usize) -> (r: bool)
        requires
            self.wf(),
        ensures
            r == is_live(self.extents(), pos as int),
    {
        self.find_extent(pos).is_some()
    }

    /// The byte at `pos`.
    pub fn byte_at(&self, pos: usize) -> (r: u8)
        requires
            pos < self.bytes().len(),
        ensures
            r == self.bytes()[pos as int],
    {
        self.memory[pos]
    }

    /// Writes one byte at `pos`. Fails, changing nothing, where no live
    /// extent holds `pos`.
    pub fn write(&mut self, pos: usize, data: u8) -> (r: Result<(), ()>)
        requires
            old(self).wf(),
        ensures
            final(self).wf(),
            r is Ok <==> is_live(old(self).extents(), pos as int),
            r is Ok ==> final(self).bytes() == old(self).bytes().update(pos as int, data),
            final(self).extents() == old(self).extents(),
            r is Err ==> *final(self) == *old(self),
    {
        match self.find_extent(pos) {
            Some(k) => {
                proof {
                    assert(self.allocated@[k as int].1 <= self.memory@.len());
                }
                self.memory.set(pos, data);
                Ok(())
            },
            None => Err(()),
        }
    }

    /// The `size` bytes from `pos` on. Fails where they run past the heap's
    /// end; reading needs no live extent.
    pub fn read(&self, pos: usize, size: usize) -> (r: Result<Vec<u8>, ()>)
        ensures
            r is Ok <==> pos + size <= self.bytes().len(),
            r matches Ok(v) ==> v@ == self.bytes().subrange(pos as int, pos + size),
    {
        let len = self.memory.len();
        if pos > len || size > len - pos {
            return Err(());
        }
        let mut data: Vec<u8> = Vec::new();
        let end = pos + size;
        let mut i: usize = pos;
        while i < end
            invariant
                end == pos + size,
                pos <= i <= pos + size <= self.memory@.len(),
                data@ == self.memory@.subrange(pos as int, i as int),
            decreases end - i,
        {
            data.push(self.memory[i]);
            i = i + 1;
            assert(data@ =~= self.memory@.subrange(pos as int, i as int));
        }
        Ok(data)
    }

    /// The size in bits (eight per byte) of the live extent that holds
    /// `pos`. Fails where no live extent holds it. That size must fit in a
    /// `usize`.
    pub fn sizeof(&self, pos: usize) -> (r: Result<usize, ()>)
        requires
            self.wf(),
            is_live(self.extents(), pos as int) ==> (extent_at(self.extents(), pos as int).1
                - extent_at(self.extents(), pos as int).0) * 8 <= usize::MAX,
        ensures
            r is Ok <==> is_live(self.extents(), pos as int),
            r matches Ok(n) ==> n == (extent_at(self.extents(), pos as int).1 - extent_at(
                self.extents(),
                pos as int,
            ).0) * 8,
    {
        match self.find_extent(pos) {
            Some(k) => {
                let (s, e) = self.allocated[k];
                Ok((e - s) * 8)
            },
            None => Err(()),
        }
    }

    /// Releases the live extent that holds `pos` and zeroes its bytes. Fails,
    /// changing nothing, where no live extent holds `pos`.
    pub fn free(&mut self, pos: usize) -> (r: Result<(), ()>)
        requires
            old(self).wf(),
        ensures
            final(self).wf(),
            r is Ok <==> is_live(old(self).extents(), pos as int),
            r is Ok ==> {
                let e = extent_at(old(self).extents(), pos as int);
                &&& final(self).extents() == old(self).extents().remove(e)
                &&& final(self).bytes() == zeroed(old(self).bytes(), e.0 as int, e.1 as int)
            },
            r is Err ==> *final(self) == *old(self),
    {
        match self.find_extent(pos) {
            Some(k) => {
                let ghost pre = self.allocated@;
                proof {
                    assert forall|j: int| 0 <= j < pre.len() && j != k implies pre[j] != pre[k as int] by {
                        if j < k {
                            assert(pre[j].1 <= pre[k as int].0);
                        } else {
                            assert(pre[k as int].1 <= pre[j].0);
                        }
                    }
                    lemma_remove_to_set(pre, k as int);
                }
                let (s, e) = self.allocated.remove(k);
                proof {
                    assert forall|i: int, j: int|
                        0 <= i < j < self.allocated@.len() implies #[trigger] self.allocated@[i].1
                        <= #[trigger] self.allocated@[j].0 by {
                        if j < k {
                        } else if i < k {
                            assert(self.allocated@[j] == pre[j + 1]);
                        } else {
                            assert(self.allocated@[i] == pre[i + 1]);
                            assert(self.allocated@[j] == pre[j + 1]);
                        }
                    }
                    assert forall|i: int| 0 <= i < self.allocated@.len() implies #[trigger] self.allocated@[i].0
                        < self.allocated@[i].1 <= self.memory@.len() by {
                        if i >= k {
                            assert(self.allocated@[i] == pre[i + 1]);
                        }
                    }
                }
                self.zero_fill(s, e);
                Ok(())
            },
            None => Err(()),
        }
    }

    /// Resizes the live extent that holds `pos` to `size` bytes and returns
    /// its (possibly new) start. It shrinks in place; it grows in place where
    /// the bytes right after it are free; otherwise its bytes move to the
    /// lowest address where `size` bytes fit, and the old extent is released.
    /// Fails, changing nothing, where no live extent holds `pos`, for a size
    /// of zero, and where the extent can neither grow nor move.
    pub fn realloc(&mut self, pos: usize, size: usize) -> (r: Result<usize, ()>)
        requires
            old(self).wf(),
        ensures
            final(self).wf(),
            ({
                let ext = old(self).extents();
                let len = old(self).bytes().len();
                let e = extent_at(ext, pos as int);
                let grows_in_place = is_free_region(ext, len, e.1 as int, e.0 + size - e.1);
                &&& r is Err <==> !is_live(ext, pos as int) || size == 0 || (e.1 - e.0 < size
                    && !grows_in_place && forall|b: int| !#[trigger] fits(ext, len, b, size as int))
                &&& r matches Ok(a) ==> {
                    if size <= e.1 - e.0 {
                        &&& a == e.0
                        &&& final(self).extents() == ext.remove(e).insert((e.0, (e.0 + size) as usize))
                        &&& final(self).bytes() == zeroed(old(self).bytes(), e.0 + size, e.1 as int)
                    } else if grows_in_place {
                        &&& a == e.0
                        &&& final(self).extents() == ext.remove(e).insert((e.0, (e.0 + size) as usize))
                        &&& final(self).bytes() == zeroed(old(self).bytes(), e.1 as int, e.0 + size)
                    } else {
                        &&& is_first_fit(ext, len, a as int, size as int)
                        &&& final(self).extents() == ext.insert((a, (a + size) as usize)).remove(e)
                        &&& final(self).bytes() == moved(old(self).bytes(), e.0 as int, e.1 as int, a as int, a + size)
                    }
                }
            }),
            r is Err ==> *final(self) == *old(self),
            r is Err <==> realloc_model(old(self).extents(), old(self).bytes(), pos as int, size as int) is None,
            r matches Ok(a) ==> realloc_model(old(self).extents(), old(self).bytes(), pos as int, size as int)
                == Some((final(self).extents(), final(self).bytes(), a as int)),
    {
        let ghost ext = self.extents();
        let ghost len = self.bytes().len();
        let ghost old_bytes = self.memory@;
        let k = match self.find_extent(pos) {
            Some(k) => k,
            None => {
                return Err(());
            },
        };
        let (s, e) = self.allocated[k];
        let ghost pre = self.allocated@;
        proof {
            self.lemma_entry_live(k as int);
            assert forall|j: int| 0 <= j < pre.len() && j != k implies pre[j] != pre[k as int] by {
                if j < k {
                    assert(pre[j].1 <= pre[k as int].0);
                } else {
                    assert(pre[k as int].1 <= pre[j].0);
                }
            }
            lemma_remove_to_set(pre, k as int);
            lemma_insert_to_set(pre.remove(k as int), k as int, (s, (s + size) as usize));
            assert(pre.remove(k as int).insert(k as int, (s, (s + size) as usize)) =~= pre.update(
                k as int,
                (s, (s + size) as usize),
            ));
        }
        if size == 0 {
            return Err(());
        }
        let mlen = self.memory.len();
        assert(s < e <= mlen);
        if size <= e - s {
            self.allocated.set(k, (s, s + size));
            proof {
                assert forall|i: int, j: int|
                    0 <= i < j < self.allocated@.len() implies #[trigger] self.allocated@[i].1
                    <= #[trigger] self.allocated@[j].0 by {
                    assert(pre[i].1 <= pre[j].0);
                }
            }
            self.zero_fill(s + size, e);
            return Ok(s);
        }
        let mut room = false;
        if size - (e - s) <= mlen - e {
            let end = s + size;
            let alen = self.allocated.len();
            room = k + 1 == alen || end <= self.allocated[k + 1].0;
        }
        proof {
            if room {
                assert forall|f: (usize, usize)| #[trigger] ext.contains(f) implies f.1 <= e || s
                    + size <= f.0 by {
                    let j = choose|j: int| 0 <= j < pre.len() && pre[j] == f;
                    if j < k {
                        assert(pre[j].1 <= pre[k as int].0);
                    } else if j > k + 1 {
                        assert(pre[k + 1].1 <= pre[j].0);
                    }
                }
            } else if size - (e - s) <= mlen - e {
                assert(ext.contains(pre[k + 1]));
                assert(pre[k as int].1 <= pre[k + 1].0);
            }
        }
        if room {
            self.allocated.set(k, (s, s + size));
            proof {
                assert forall|i: int, j: int|
                    0 <= i < j < self.allocated@.len() implies #[trigger] self.allocated@[i].1
                    <= #[trigger] self.allocated@[j].0 by {
                    if j == k + 1 {
                    } else if i == k && j > k + 1 {
                        assert(pre[k + 1].1 <= pre[j].0);
                        assert(pre[k + 1].0 < pre[k + 1].1);
                    } else {
                        assert(pre[i].1 <= pre[j].0);
                    }
                }
            }
            self.zero_fill(e, s + size);
            return Ok(s);
        }
        let a = match self.allocate(size) {
            Ok(a) => a,
            Err(()) => {
                return Err(());
            },
        };
        let ghost mid = self.memory@;
        let ghost alloc_mid = self.allocated@;
        let ghost h_mid = *self;
        let ghost ext_mid = self.extents();
        proof {
            assert(ext.contains((s, e)));
            assert(e <= a || a + size <= s);
        }
        let n = e - s;
        let mut i: usize = 0;
        while i < n
            invariant
                self.allocated@ == alloc_mid,
                ext_mid == ext.insert((a, (a + size) as usize)),
                n == e - s,
                s < e <= mlen,
                a + size <= mlen,
                mlen == self.memory@.len(),
                mid.len() == mlen,
                e <= a || a + size <= s,
                n < size,
                i <= n,
                forall|j: int| 0 <= j < mlen ==> #[trigger] self.memory@[j] == (if a <= j < a + i {
                    mid[s + (j - a)]
                } else {
                    mid[j]
                }),
            decreases n - i,
        {
            let b = self.memory[s + i];
            self.memory.set(a + i, b);
            i = i + 1;
        }
        proof {
            lemma_wf_same_layout(h_mid, *self);
            assert(self.extents() == ext_mid);
            let h = *self;
            assert(h.extents().contains((s, e)));
            h.lemma_extent_at((s, e), pos as int);
            h.lemma_extent_at((s, e), s as int);
        }
        let freed = self.free(s);
        proof {
            assert(freed is Ok);
            assert(self.bytes() =~= moved(old_bytes, s as int, e as int, a as int, a + size));
        }
        Ok(a)
    }
}

/// Freeing an extent and then asking for as many bytes as it held gives the
/// same extent back, provided no lower address has room for them once it is
/// freed: the allocation lands at its start and the extents are as before.
pub proof fn lemma_free_then_alloc_reuses(h: Heap, freed: Heap, pos: int)
    requires
        h.wf(),
        is_live(h.extents(), pos),
        freed.extents() == h.extents().remove(extent_at(h.extents(), pos)),
        freed.bytes().len() == h.bytes().len(),
        ({
            let e = extent_at(h.extents(), pos);
            forall|b: int| 0 <= b < e.0 ==> !#[trigger] fits(freed.extents(), freed.bytes().len(), b, e.1 - e.0)
        }),
    ensures
        ({
            let e = extent_at(h.extents(), pos);
            &&& is_first_fit(freed.extents(), freed.bytes().len(), e.0 as int, e.1 - e.0)
            &&& freed.extents().insert(e) == h.extents()
        }),
{
    let e = extent_at(h.extents(), pos);
    h.lemma_extents_disjoint(e, e);
    assert forall|f: (usize, usize)| #[trigger] freed.extents().contains(f) implies f.1 <= e.0 || e.0 + (
    e.1 - e.0) <= f.0 by {
        h.lemma_extents_disjoint(e, f);
    }
    assert(freed.extents().insert(e) =~= h.extents());
}

/// A fixed-capacity byte stack; the pointer marks the next free slot.
pub struct Stack {
    memory: Vec<u8>,
    ptr: usize,
}

/// The number of bytes a stack holds.
pub const STACK_CAPACITY: usize = 8192;

impl Stack {
    /// The bytes on the stack, bottom first.
    pub closed spec fn contents(&self) -> Seq<u8> {
        self.memory@.subrange(0, self.ptr as int)
    }

    /// The most bytes the stack can hold.
    pub closed spec fn capacity(&self) -> nat {
        self.memory@.len()
    }

    pub closed spec fn wf(&self) -> bool {
        self.ptr <= self.memory@.len()
    }

    /// An empty stack of `STACK_CAPACITY` bytes.
    pub fn new() -> (r: Stack)
        ensures
            r.wf(),
            r.contents() == Seq::<u8>::empty(),
            r.capacity() == STACK_CAPACITY,
    {
        let r = Stack { memory: vec![0u8; STACK_CAPACITY], ptr: 0 };
        assert(r.contents() =~= Seq::<u8>::empty());
        r
    }

    /// The number of bytes on the stack.
    pub fn depth(&self) -> (r: usize)
        requires
            self.wf(),
        ensures
            r == self.contents().len(),
    {
        self.ptr
    }

    /// Pushes one byte. Fails, changing nothing, when the stack is full.
    pub fn push(&mut self, data: u8) -> (r: Result<(), ()>)
        requires
            old(self).wf(),
        ensures
            final(self).wf(),
            final(self).capacity() == old(self).capacity(),
            r is Ok <==> old(self).contents().len() < old(self).capacity(),
            r is Ok ==> final(self).contents() == old(self).contents().push(data),
            r is Err ==> *final(self) == *old(self),
    {
        if self.ptr >= self.memory.len() {
            return Err(());
        }
        self.memory.set(self.ptr, data);
        self.ptr = self.ptr + 1;
        assert(self.contents() =~= old(self).contents().push(data));
        Ok(())
    }

    /// Removes and returns the top byte. Fails, changing nothing, when the
    /// stack is empty.
    pub fn pop(&mut self) -> (r: Result<u8, ()>)
        requires
            old(self).wf(),
        ensures
            final(self).wf(),
            final(self).capacity() == old(self).capacity(),
            r is Ok <==> old(self).contents().len() > 0,
            r matches Ok(b) ==> b == old(self).contents().last() && final(self).contents()
                == old(self).contents().drop_last(),
            r is Err ==> *final(self) == *old(self),
    {
        if self.ptr == 0 {
            return Err(());
        }
        self.ptr = self.ptr - 1;
        assert(self.contents() =~= old(self).contents().drop_last());
        Ok(self.memory[self.ptr])
    }

    /// The top byte. Fails when the stack is empty.
    pub fn peek(&self) -> (r: Result<u8, ()>)
        requires
            self.wf(),
        ensures
            r is Ok <==> self.contents().len() > 0,
            r matches Ok(b) ==> b == self.contents().last(),
    {
        if self.ptr == 0 {
            return Err(());
        }
        Ok(self.memory[self.ptr - 1])
    }

    /// The byte `offset` places below the pointer: 1 is the top. Fails unless
    /// `1 <= offset <= depth`.
    pub fn get(&self, offset: usize) -> (r: Result<u8, ()>)
        requires
            self.wf(),
        ensures
            r is Ok <==> 1 <= offset <= self.contents().len(),
            r matches Ok(b) ==> b == self.contents()[self.contents().len() - offset],
    {
        if offset == 0 || offset > self.ptr {
            return Err(());
        }
        Ok(self.memory[self.ptr - offset])
    }

    /// Exchanges the top two bytes. Fails, changing nothing, with fewer than two.
    pub fn swap(&mut self) -> (r: Result<(), ()>)
        requires
            old(self).wf(),
        ensures
            final(self).wf(),
            final(self).capacity() == old(self).capacity(),
            r is Ok <==> old(self).contents().len() >= 2,
            r is Ok ==> {
                let c = old(self).contents();
                let n = c.len() as int;
                final(self).contents() == c.update(n - 1, c[n - 2]).update(n - 2, c[n - 1])
            },
            r is Err ==> *final(self) == *old(self),
    {
        if self.ptr < 2 {
            return Err(());
        }
        let top = self.memory[self.ptr - 1];
        let next = self.memory[self.ptr - 2];
        self.memory.set(self.ptr - 1, next);
        self.memory.set(self.ptr - 2, top);
        let ghost c = old(self).contents();
        let ghost n = c.len() as int;
        assert(self.contents() =~= c.update(n - 1, c[n - 2]).update(n - 2, c[n - 1]));
        Ok(())
    }

    /// Pushes a copy of the top byte. Fails, changing nothing, when the stack
    /// is empty or full.
    pub fn dup(&mut self) -> (r: Result<(), ()>)
        requires
            old(self).wf(),
        ensures
            final(self).wf(),
            final(self).capacity() == old(self).capacity(),
            r is Ok <==> 0 < old(self).contents().len() < old(self).capacity(),
            r is Ok ==> final(self).contents() == old(self).contents().push(
                old(self).contents().last(),
            ),
            r is Err ==> *final(self) == *old(self),
    {
        if self.ptr == 0 || self.ptr >= self.memory.len() {
            return Err(());
        }
        let top = self.memory[self.ptr - 1];
        self.push(top)
    }

    /// Discards the top byte. Fails, changing nothing, when the stack is empty.
    pub fn drop(&mut self) -> (r: Result<(), ()>)
        requires
            old(self).wf(),
        ensures
            final(self).wf(),
            final(self).capacity() == old(self).capacity(),
            r is Ok <==> old(self).contents().len() > 0,
            r is Ok ==> final(self).contents() == old(self).contents().drop_last(),
            r is Err ==> *final(self) == *old(self),
    {
        if self.ptr == 0 {
            return Err(());
        }
        self.ptr = self.ptr - 1;
        self.memory.set(self.ptr, 0);
        assert(self.contents() =~= old(self).contents().drop_last());
        Ok(())
    }
}

impl Default for Stack {
    fn default() -> (r: Self)
        ensures
            r.wf(),
            r.contents() == Seq::<u8>::empty(),
            r.capacity() == STACK_CAPACITY,
    {
        Self::new()
    }
}

impl Default for Heap {
    fn default() -> (r: Self)
        ensures
            r.wf(),
            r.bytes() == Seq::new(8192, |i: int| 0u8),
            r.extents() == Set::<(usize, usize)>::empty(),
    {
        Self::new(8192)
    }
}

} // verus!
