use crate::util::octets;
use vstd::prelude::*;

verus! {

/// Lazy bip-buffer.
/// It is expected to be used in cases where memory is decommitted in order it was committed.
/// Reserved or committed memory may be dirty (not zeroed).
///
/// The difference between Ring Buffer and Bip Buffer: Bip Buffer always returns contiguous chunks of memory.
///
/// What does the "Lazy" mean?
/// In a common Bip Buffer, if there is more space on the left than on the right side of the buffer,
/// region B is created immediately.
///
/// This lazy buffer creates region B only if it is unable to fulfill a request using region A only.
pub struct BipBuffer {
    /// The memory, of constant length.
    buffer: Vec<u8>,
    /// Start index (inclusive) of primary contiguous region.
    a_start: usize,
    /// End index (exclusive) of primary contiguous region.
    a_end: usize,
    /// End index (exclusive) of secondary contiguous region (used for wrap-around), which starts at zero.
    b_end: usize,
    /// `true` if there is a mutable chunk reservation.
    reserved: bool,
    /// Ordered ID sequence for committed slices, to ensure proper release order.
    commit_id_sequence: usize,
    /// Next **ordered** committed slice ID that is expected to be decommitted.
    decommit_next_id: usize,
    /// If a commit ID is greater than `decommit_next_id` and the slice wants to be released,
    /// a tombstone is written instead to be released later.
    ///
    /// In ideal scenario, this collection should always be empty.
    decommit_tombstones: Vec<Commit>,
    /// The committed chunks that still occupy memory, in order of their commits.
    chunks: Ghost<Seq<Commit>>,
    /// How many of the chunks, from the first one on, lie in region A.
    a_count: Ghost<nat>,
}

/// Mutable [BipBuffer] reserved contiguous chunk of bytes.
///
/// It is given back to the buffer by [`commit`](BipSliceMut::commit) or by [`cancel`](BipSliceMut::cancel).
#[derive(Debug)]
pub struct BipSliceMut {
    reservation: Reservation,
}

/// Shared [BipBuffer] contiguous chunk of bytes.
///
/// Each `BipSlice` has its own ID, that increments in order these slices were committed.
///
/// **Note**: for performance reasons, it is **highly recommended** to release different slices in a sorted order,
/// as `BipBuffer` expects all decommits to be done in the same order they were committed.
#[derive(Debug)]
pub struct BipSlice {
    commit: Commit,
}

/// A reserved area.
#[derive(Debug, Clone, Copy, PartialEq, Eq, Structural)]
pub struct Reservation {
    /// Start index (inclusive) of the area.
    pub start: usize,
    /// End index (exclusive) of the area.
    pub end: usize,
}

/// A committed area.
#[derive(Debug, Clone, Copy, PartialEq, Eq, Structural)]
pub struct Commit {
    /// Commit ID.
    pub id: usize,
    /// Start index (inclusive) of the area.
    pub start: usize,
    /// End index (exclusive) of the area.
    pub end: usize,
}

/// What a [BipBuffer] is: its memory, the committed chunks that occupy it in
/// order of their commits, which of them wait for earlier ones to be released,
/// and the ID of the next commit.
pub struct BipModel {
    pub bytes: Seq<u8>,
    pub chunks: Seq<Commit>,
    pub released: Set<usize>,
    pub reserved: bool,
    pub next_id: usize,
}

/// The ID `i` commits after `first`; IDs start over after the last one.
pub open spec fn nth_id(first: usize, i: int) -> int {
    if first + i > usize::MAX {
        first + i - (usize::MAX + 1)
    } else {
        first + i
    }
}

/// The chunks without those at the front that are released.
pub open spec fn trim(chunks: Seq<Commit>, released: Set<usize>) -> Seq<Commit>
    decreases chunks.len(),
{
    if chunks.len() > 0 && released.contains(chunks[0].id) {
        trim(chunks.drop_first(), released)
    } else {
        chunks
    }
}

/// Some chunk has the given ID.
pub open spec fn has_id(chunks: Seq<Commit>, id: usize) -> bool {
    exists|i: int| 0 <= i < chunks.len() && (#[trigger] chunks[i]).id == id
}

/// The first `k` chunks lie back to back in region A,
/// the others back to back from the start of the memory, below region A.
#[verifier::opaque]
spec fn laid_out(chunks: Seq<Commit>, k: int, length: int) -> bool {
    &&& 0 <= k <= chunks.len()
    &&& chunks.len() > 0 ==> k > 0
    &&& forall|i: int|
        0 <= i < chunks.len() ==> (#[trigger] chunks[i]).start < chunks[i].end <= length
    &&& forall|i: int, j: int|
        0 <= i < j < chunks.len() && j == i + 1 && j != k ==> (#[trigger] chunks[i]).end == (
        #[trigger] chunks[j]).start
    &&& forall|i: int, j: int|
        0 <= i < j < k ==> (#[trigger] chunks[i]).end <= (#[trigger] chunks[j]).start && chunks[i].start + (j
            - i) <= chunks[j].start
    &&& forall|i: int, j: int|
        k <= i < j < chunks.len() ==> (#[trigger] chunks[i]).end <= (#[trigger] chunks[j]).start
            && chunks[i].start + (j - i) <= chunks[j].start
    &&& k < chunks.len() ==> chunks[k].start == 0
    &&& forall|i: int|
        k <= i < chunks.len() ==> (#[trigger] chunks[i]).end <= chunks[0].start
}

/// What the layout says of the first and the last chunks.
proof fn lemma_layout(chunks: Seq<Commit>, k: int, length: int)
    requires
        0 <= length,
        laid_out(chunks, k, length),
    ensures
        0 <= k <= chunks.len() <= length,
        chunks.len() > 0 ==> {
            &&& k > 0
            &&& chunks[0].start <= chunks[k - 1].start < chunks[k - 1].end <= length
            &&& chunks[k - 1].end == chunks[0].end ==> k == 1
            &&& chunks[0].start < chunks[0].end
        },
        k < chunks.len() ==> chunks[k].start == 0 && 0 < chunks.last().end <= chunks[0].start,
        forall|i: int|
            0 <= i < chunks.len() ==> (#[trigger] chunks[i]).start < chunks[i].end <= length,
{
    reveal(laid_out);
    if chunks.len() > 0 {
        assert(k > 1 ==> chunks[0].start + (k - 1) <= chunks[k - 1].start);
        assert(k > 1 ==> chunks[0].end <= chunks[k - 1].start);
        if k < chunks.len() {
            let n = chunks.len() - 1;
            assert(k < n ==> chunks[k].start + (n - k) <= chunks[n].start);
        }
    }
}

/// A chunk behind the last one of region A extends region A.
proof fn lemma_extend_a(chunks: Seq<Commit>, k: int, length: int, c: Commit)
    requires
        laid_out(chunks, k, length),
        k == chunks.len(),
        c.start < c.end <= length,
        chunks.len() > 0 ==> c.start == chunks.last().end,
    ensures
        laid_out(chunks.push(c), k + 1, length),
{
    reveal(laid_out);
    let d = chunks.push(c);
    assert forall|i: int, j: int| 0 <= i < j < k + 1 implies (#[trigger] d[i]).end <= (
    #[trigger] d[j]).start && d[i].start + (j - i) <= d[j].start by {
        if j == k && i < k - 1 {
            assert(d[i].start + (k - 1 - i) <= d[k - 1].start);
            assert(d[i].end <= d[k - 1].start);
        }
    }
}

/// A chunk at the end of region B, in front of region A, extends region B.
proof fn lemma_extend_b(chunks: Seq<Commit>, k: int, length: int, c: Commit)
    requires
        laid_out(chunks, k, length),
        chunks.len() > 0,
        c.start < c.end <= chunks[0].start,
        c.start == (if k < chunks.len() {
            chunks.last().end
        } else {
            0
        }),
    ensures
        laid_out(chunks.push(c), k, length),
{
    reveal(laid_out);
    let d = chunks.push(c);
    let n = chunks.len() as int;
    assert forall|i: int, j: int| k <= i < j < d.len() implies (#[trigger] d[i]).end <= (
    #[trigger] d[j]).start && d[i].start + (j - i) <= d[j].start by {
        if j == n && i < n - 1 {
            assert(d[i].start + (n - 1 - i) <= d[n - 1].start);
            assert(d[i].end <= d[n - 1].start);
        }
    }
}

/// Without its first chunk region A shrinks from the left; when nothing of it
/// is left, region B takes its place.
proof fn lemma_drop_first(chunks: Seq<Commit>, k: int, length: int)
    requires
        laid_out(chunks, k, length),
        chunks.len() > 0,
    ensures
        k > 1 ==> laid_out(chunks.drop_first(), k - 1, length) && chunks[1].start == chunks[0].end,
        k == 1 ==> laid_out(chunks.drop_first(), chunks.len() - 1, length),
{
    reveal(laid_out);
    let d = chunks.drop_first();
    assert(forall|i: int| 0 <= i < d.len() ==> d[i] == chunks[i + 1]);
    if k > 1 {
        assert(chunks[0].start + 1 <= chunks[1].start);
    }
}

impl BipModel {
    /// The memory is laid out as a bip-buffer, and the chunks are numbered in order.
    pub closed spec fn wf(self) -> bool {
        &&& exists|k: int| #[trigger] laid_out(self.chunks, k, self.bytes.len() as int)
        &&& self.bytes.len() <= usize::MAX
        &&& forall|i: int|
            0 <= i < self.chunks.len() ==> (#[trigger] self.chunks[i]).id == nth_id(self.chunks[0].id, i)
        &&& self.chunks.len() > 0 ==> self.next_id == nth_id(
            self.chunks[0].id,
            self.chunks.len() as int,
        )
        &&& self.chunks.len() > 0 ==> !self.released.contains(self.chunks[0].id)
        &&& forall|id: usize| #[trigger] self.released.contains(id) ==> has_id(self.chunks, id)
    }

    /// The start of the oldest chunk.
    pub open spec fn head(self) -> int {
        if self.chunks.len() == 0 {
            0
        } else {
            self.chunks[0].start as int
        }
    }

    /// The end of the newest chunk.
    pub open spec fn tail(self) -> int {
        if self.chunks.len() == 0 {
            0
        } else {
            self.chunks.last().end as int
        }
    }

    /// Region B exists: the newest chunk lies below the oldest one.
    pub open spec fn wrapped(self) -> bool {
        self.chunks.len() > 0 && self.tail() <= self.head()
    }

    /// How many bytes the next reservation may have.
    pub open spec fn available(self) -> int {
        let after = self.bytes.len() - self.tail();
        if self.wrapped() {
            self.head() - self.tail()
        } else if self.head() > after {
            self.head()
        } else {
            after
        }
    }

    /// Where a request for `request` bytes is placed: behind the newest chunk,
    /// unless the request does not fit there and there is more space in front of the oldest one.
    pub open spec fn placement(self, request: int) -> int {
        let after = self.bytes.len() - self.tail();
        if self.wrapped() || request <= after || after >= self.head() {
            self.tail()
        } else {
            0
        }
    }

    /// The area lies where the next chunk may be committed: behind the newest chunk,
    /// or at the start of the memory, in front of the oldest one.
    /// It may lie anywhere if there is no chunk.
    pub open spec fn fits(self, r: Reservation) -> bool {
        &&& r.start <= r.end <= self.bytes.len()
        &&& if self.chunks.len() == 0 {
            true
        } else if self.wrapped() {
            r.start == self.tail() && r.end <= self.head()
        } else {
            r.start == self.tail() || (r.start == 0 && r.end <= self.head())
        }
    }

    /// The chunk occupies memory and nobody has released it.
    pub open spec fn holds(self, c: Commit) -> bool {
        self.chunks.contains(c) && !self.released.contains(c.id)
    }

    /// The bytes of a chunk.
    pub open spec fn content(self, c: Commit) -> Seq<u8> {
        self.bytes.subrange(c.start as int, c.end as int)
    }

    /// The buffer after the chunk with the given ID is released: memory is given
    /// back from the oldest chunk on, up to the first one that is not released.
    pub open spec fn release(self, id: usize) -> BipModel {
        let released = self.released.insert(id);
        let chunks = trim(self.chunks, released);
        BipModel {
            chunks,
            released: Set::new(|x: usize| released.contains(x) && has_id(chunks, x)),
            ..self
        }
    }
}

/// The IDs of tombstones.
spec fn ids(tombstones: Seq<Commit>) -> Set<usize> {
    Set::new(|id: usize| has_id(tombstones, id))
}

impl BipBuffer {
    pub closed spec fn view(&self) -> BipModel {
        BipModel {
            bytes: self.buffer@,
            chunks: self.chunks@,
            released: ids(self.decommit_tombstones@),
            reserved: self.reserved,
            next_id: self.commit_id_sequence,
        }
    }

    /// The indices, the IDs and the tombstones agree with the committed chunks.
    pub closed spec fn wf(&self) -> bool {
        let c = self.chunks@;
        let t = self.decommit_tombstones@;
        let k = self.a_count@ as int;
        &&& laid_out(c, k, self.buffer@.len() as int)
        &&& if c.len() == 0 {
            self.a_start == 0 && self.a_end == 0
        } else {
            self.a_start == c[0].start && self.a_end == c[k - 1].end
        }
        &&& self.b_end == (if k < c.len() {
            c.last().end
        } else {
            0
        })
        &&& forall|i: int|
            0 <= i < c.len() ==> (#[trigger] c[i]).id == nth_id(self.decommit_next_id, i)
        &&& self.commit_id_sequence == nth_id(self.decommit_next_id, c.len() as int)
        &&& forall|j: int|
            0 <= j < t.len() ==> has_id(c, (#[trigger] t[j]).id) && c.contains(t[j]) && t[j].id
                != self.decommit_next_id
        &&& forall|i: int, j: int|
            0 <= i < j < t.len() ==> (#[trigger] t[i]).id != (#[trigger] t[j]).id
    }

    /// A sound buffer is a sound model.
    pub proof fn lemma_view_wf(&self)
        requires
            self.wf(),
        ensures
            self@.wf(),
    {
        assert(laid_out(self@.chunks, self.a_count@ as int, self@.bytes.len() as int));
        assert(self.buffer.len() == self.buffer@.len());
    }

    /// There are no more chunks than bytes, so that no two chunks share an ID.
    proof fn lemma_ids_distinct(&self)
        requires
            self.wf(),
        ensures
            self.chunks@.len() <= self.buffer@.len() <= usize::MAX,
            forall|i: int, j: int|
                0 <= i < j < self.chunks@.len() ==> (#[trigger] self.chunks@[i]).id != (
                #[trigger] self.chunks@[j]).id,
    {
        lemma_layout(self.chunks@, self.a_count@ as int, self.buffer@.len() as int);
        assert(self.buffer.len() == self.buffer@.len());
    }

    /// Creates a new heap allocated bip-buffer.
    ///
    /// `length` is constant, buffer will never resize.
    pub fn new(length: usize) -> (r: Self)
        ensures
            r.wf(),
            r@.bytes == Seq::new(length as nat, |i: int| 0u8),
            r@.chunks == Seq::<Commit>::empty(),
            r@.released == Set::<usize>::empty(),
            r@.next_id == 0,
            !r@.reserved,
    {
        let r = Self {
            buffer: vec![0u8; length],
            a_start: 0,
            a_end: 0,
            b_end: 0,
            reserved: false,
            commit_id_sequence: 0,
            decommit_next_id: 0,
            decommit_tombstones: Vec::new(),
            chunks: Ghost(Seq::empty()),
            a_count: Ghost(0),
        };
        proof {
            reveal(laid_out);
        }
        assert(r@.released =~= Set::<usize>::empty());
        assert(r@.bytes =~= Seq::new(length as nat, |i: int| 0u8));
        r
    }

    /// Returns the buffer's length.
    ///
    /// It is equal to length this buffer was created with, and will never change.
    pub fn len(&self) -> (r: usize)
        ensures
            r == self@.bytes.len(),
    {
        self.buffer.len()
    }

    /// Returns number of bytes available for the next [`reserve()`][Self::reserve] call.
    pub fn available(&self) -> (r: usize)
        requires
            self.wf(),
        ensures
            r == self@.available(),
    {
        // - : Free Space
        // * : Region A
        // # : Region B
        //
        // 1. -------------------------
        // 2. *****-------------------- ; region A commits.
        // 3. *******************------ ; more region A commits.
        // 4. -----------********------ ; some region A chunks are released.
        // 5. ######-----********------ ; unable to fulfill `commit` request, region B is created.
        // 6. #############---**-------
        // 7. #################*-------
        // 8. *****************-------- ; when region A is empty, while region B exists, region A becomes region B.
        // 9. -----************--------
        proof {
            lemma_layout(self.chunks@, self.a_count@ as int, self.buffer@.len() as int);
        }
        if self.b_end > 0 {
            return self.a_start - self.b_end;
        }
        // Do we have more space before A region starts, or after it ends?

        let after: usize = self.buffer.len() - self.a_end;
        if self.a_start > after {
            self.a_start
        } else {
            after
        }
    }

    /// Reserves a specified number of bytes for writing.
    ///
    /// Returns `None` if there is no space [`available()`](Self::available).
    ///
    /// If `strict` is true, the returned buffer will always have the requested size (no less, no more).
    /// Otherwise, the returned buffer may have less size than requested.
    ///
    /// A second reservation requires that the first one was committed or cancelled:
    /// you cannot have multiple `&mut` references pointing to the same memory.
    ///
    /// **Note**: you still can have multiple committed (read-only shared) areas, that is [BipSlice],
    /// as they point into different, committed chunks.
    pub fn reserve(&mut self, request: usize, strict: bool) -> (r: Option<BipSliceMut>)
        requires
            old(self).wf(),
            !old(self)@.reserved,
        ensures
            final(self).wf(),
            r is None <==> old(self)@.available() == 0 || (strict && old(self)@.available() < request),
            r is None ==> final(self)@ == old(self)@,
            r matches Some(s) ==> {
                &&& final(self)@ == (BipModel { reserved: true, ..old(self)@ })
                &&& s@.start == old(self)@.placement(request as int)
                &&& s@.end - s@.start == (if old(self)@.available() < request {
                    old(self)@.available()
                } else {
                    request as int
                })
                &&& final(self)@.fits(s@)
            },
    {
        proof {
            lemma_layout(self.chunks@, self.a_count@ as int, self.buffer@.len() as int);
        }
        let reserve_start: usize;
        let available: usize;

        if self.b_end > 0 {
            reserve_start = self.b_end;
            available = self.a_start - self.b_end;
        } else {
            let space_before_a: usize = self.a_start;
            let space_after_a: usize = self.buffer.len() - self.a_end;
            available = if space_before_a > space_after_a {
                space_before_a
            } else {
                space_after_a
            };

            if request <= space_after_a || space_after_a >= space_before_a {
                // We are lazy, and do not wrap-around without a specific need.
                reserve_start = self.a_end;
            } else {
                reserve_start = 0;
            }
        }

        if available == 0 || (strict && available < request) {
            return None;
        }
        let reserve_len: usize = if available < request {
            available
        } else {
            request
        };
        let reserve_end: usize = reserve_start + reserve_len;
        self.reserved = true;

        Some(
            BipSliceMut {
                reservation: Reservation { start: reserve_start, end: reserve_end },
            },
        )
    }

    /// Occupies the first `commit_len` bytes of a reserved area.
    fn occupy(&mut self, reservation: Reservation, commit_len: usize) -> (r: Commit)
        requires
            old(self).wf(),
            old(self)@.fits(reservation),
            0 < commit_len <= reservation.end - reservation.start,
        ensures
            final(self).wf(),
            r == (Commit {
                id: old(self)@.next_id,
                start: reservation.start,
                end: (reservation.start + commit_len) as usize,
            }),
            final(self)@ == (BipModel {
                chunks: old(self)@.chunks.push(r),
                next_id: final(self)@.next_id,
                ..old(self)@
            }),
            final(self)@.next_id == nth_id(old(self)@.next_id, 1),
            final(self)@.fits(
                Reservation {
                    start: (reservation.start + commit_len) as usize,
                    ..reservation
                },
            ),
    {
        proof {
            self.lemma_ids_distinct();
            lemma_layout(self.chunks@, self.a_count@ as int, self.buffer@.len() as int);
        }
        let id: usize = self.commit_id_sequence;
        self.commit_id_sequence = self.commit_id_sequence.wrapping_add(1);
        let commit_start: usize = reservation.start;
        let commit_end: usize = commit_start + commit_len;
        let commit = Commit { id, start: commit_start, end: commit_end };

        let ghost c = self.chunks@;
        let ghost k = self.a_count@ as int;
        if self.a_start == self.a_end {
            // There is no chunk, and region A starts anew where the area lies.
            self.a_start = commit_start;
            self.a_end = commit_end;
            proof {
                assert(c.len() == 0);
                lemma_extend_a(c, k, self.buffer@.len() as int, commit);
                self.a_count@ = (k + 1) as nat;
            }
        } else if self.b_end == 0 && commit_start == self.a_end {
            self.a_end = commit_end;
            proof {
                lemma_extend_a(c, k, self.buffer@.len() as int, commit);
                self.a_count@ = (k + 1) as nat;
            }
        } else {
            self.b_end = commit_end;
            proof {
                lemma_extend_b(c, k, self.buffer@.len() as int, commit);
            }
        }
        proof {
            self.chunks@ = c.push(commit);
            let d = self.chunks@;
            let t = self.decommit_tombstones@;
            assert(d.last() == commit);
            assert forall|j: int| 0 <= j < t.len() implies has_id(d, (#[trigger] t[j]).id) && d.contains(
                t[j],
            ) by {
                let i = choose|i: int| 0 <= i < c.len() && c[i] == t[j];
                assert(d[i] == t[j]);
            }
        }
        commit
    }

    /// Gives back the memory of the oldest chunk.
    fn decommit_single(&mut self, value: Commit)
        requires
            old(self).wf(),
            old(self)@.chunks.len() > 0,
            old(self)@.chunks[0] == value,
            !has_id(old(self).decommit_tombstones@, nth_id(value.id, 1) as usize),
        ensures
            final(self).wf(),
            final(self)@ == (BipModel { chunks: old(self)@.chunks.drop_first(), ..old(self)@ }),
            final(self).decommit_tombstones == old(self).decommit_tombstones,
            final(self).decommit_next_id == nth_id(value.id, 1),
    {
        let ghost c = self.chunks@;
        let ghost k = self.a_count@ as int;
        proof {
            self.lemma_ids_distinct();
            lemma_layout(c, k, self.buffer@.len() as int);
            lemma_drop_first(c, k, self.buffer@.len() as int);
        }
        self.decommit_next_id = self.decommit_next_id.wrapping_add(1);
        self.a_start = value.end;
        proof {
            self.chunks@ = c.drop_first();
            self.a_count@ = (k - 1) as nat;
        }
        if self.a_end == self.a_start {
            self.a_start = 0;
            self.a_end = self.b_end;
            self.b_end = 0;
            proof {
                self.a_count@ = (c.len() - 1) as nat;
            }
        }
        proof {
            let d = self.chunks@;
            let t = self.decommit_tombstones@;
            assert(forall|i: int| 0 <= i < d.len() ==> d[i] == c[i + 1]);
            assert forall|j: int| 0 <= j < t.len() implies has_id(d, (#[trigger] t[j]).id) && d.contains(
                t[j],
            ) && t[j].id != self.decommit_next_id by {
                let i = choose|i: int| 0 <= i < c.len() && c[i] == t[j];
                assert(i > 0);
                assert(d[i - 1] == t[j]);
            }
        }
    }
}

impl BipBuffer {
    /// Takes out the tombstone with the given ID, if there is one.
    fn take_tombstone(&mut self, id: usize) -> (r: Option<Commit>)
        requires
            old(self).wf(),
        ensures
            final(self).wf(),
            final(self).chunks == old(self).chunks,
            final(self).buffer == old(self).buffer,
            final(self).reserved == old(self).reserved,
            final(self).commit_id_sequence == old(self).commit_id_sequence,
            final(self).decommit_next_id == old(self).decommit_next_id,
            r is Some <==> has_id(old(self).decommit_tombstones@, id),
            r matches Some(c) ==> c.id == id && old(self).chunks@.contains(c),
            forall|x: usize| #[trigger]
                has_id(final(self).decommit_tombstones@, x) <==> x != id && has_id(
                    old(self).decommit_tombstones@,
                    x,
                ),
    {
        let ghost t = self.decommit_tombstones@;
        let mut i: usize = 0;
        while i < self.decommit_tombstones.len()
            invariant
                self.wf(),
                *self == *old(self),
                t == self.decommit_tombstones@,
                0 <= i <= t.len(),
                forall|j: int| 0 <= j < i ==> (#[trigger] t[j]).id != id,
            decreases self.decommit_tombstones.len() - i,
        {
            if self.decommit_tombstones[i].id == id {
                let found = self.decommit_tombstones.swap_remove(i);
                proof {
                    let u = self.decommit_tombstones@;
                    assert(t[i as int].id == id);
                    assert forall|x: usize| #[trigger] has_id(u, x) <==> x != id && has_id(t, x) by {
                        if has_id(u, x) {
                            let j = choose|j: int| 0 <= j < u.len() && (#[trigger] u[j]).id == x;
                            if j == i {
                                assert(t[t.len() - 1].id == x);
                            } else {
                                assert(t[j].id == x);
                            }
                        }
                        if x != id && has_id(t, x) {
                            let j = choose|j: int| 0 <= j < t.len() && (#[trigger] t[j]).id == x;
                            if j == t.len() - 1 {
                                assert(u[i as int].id == x);
                            } else {
                                assert(u[j].id == x);
                            }
                        }
                    }
                }
                return Some(found);
            }
            i += 1;
        }
        None
    }

    /// Releases a committed chunk.
    fn decommit(&mut self, value: Commit)
        requires
            old(self).wf(),
            old(self)@.holds(value),
        ensures
            final(self).wf(),
            final(self)@ == old(self)@.release(value.id),
    {
        let ghost c0 = self.chunks@;
        let ghost r0 = self@.released.insert(value.id);
        let ghost n = choose|n: int| 0 <= n < c0.len() && c0[n] == value;
        proof {
            self.lemma_ids_distinct();
            assert(c0[n] == value);
        }
        if value.id != self.decommit_next_id {
            let ghost t = self.decommit_tombstones@;
            self.decommit_tombstones.push(value);
            proof {
                let u = self.decommit_tombstones@;
                assert(u.last() == value);
                assert(forall|j: int| 0 <= j < t.len() ==> u[j] == #[trigger] t[j]);
                assert forall|x: usize| #[trigger] has_id(u, x) <==> x == value.id || has_id(t, x) by {
                    if has_id(t, x) {
                        let j = choose|j: int| 0 <= j < t.len() && (#[trigger] t[j]).id == x;
                        assert(u[j].id == x);
                    }
                }
                assert forall|j: int| 0 <= j < t.len() implies (#[trigger] t[j]).id != value.id by {
                    assert(t[j].id == value.id ==> has_id(t, value.id));
                }
                assert(c0.len() > 0);
                assert(!has_id(t, c0[0].id));
                assert(trim(c0, r0) == c0);
                assert forall|x: usize| has_id(u, x) implies has_id(c0, x) by {
                    let j = choose|j: int| 0 <= j < u.len() && (#[trigger] u[j]).id == x;
                    assert(j < t.len() ==> has_id(c0, t[j].id));
                }
                assert(self@.released =~= old(self)@.release(value.id).released);
            }
            return ;
        }
        proof {
            assert(n == 0);
        }
        let mut value: Commit = value;
        loop
            invariant_except_break
                self.wf(),
                self@.chunks.len() > 0,
                self@.chunks[0] == value,
                self@.bytes == old(self)@.bytes,
                self@.reserved == old(self)@.reserved,
                self@.next_id == old(self)@.next_id,
                trim(c0, r0) == trim(self.chunks@, r0),
                r0.contains(value.id),
                forall|i: int|
                    1 <= i < self.chunks@.len() ==> (r0.contains((#[trigger] self.chunks@[i]).id) <==> has_id(
                        self.decommit_tombstones@,
                        self.chunks@[i].id,
                    )),
            ensures
                self.wf(),
                self@.bytes == old(self)@.bytes,
                self@.reserved == old(self)@.reserved,
                self@.next_id == old(self)@.next_id,
                trim(c0, r0) == self.chunks@,
                forall|i: int|
                    0 <= i < self.chunks@.len() ==> (r0.contains((#[trigger] self.chunks@[i]).id) <==> has_id(
                        self.decommit_tombstones@,
                        self.chunks@[i].id,
                    )),
            decreases self@.chunks.len(),
        {
            let ghost c = self.chunks@;
            let ghost t = self.decommit_tombstones@;
            proof {
                self.lemma_ids_distinct();
            }
            let next_id: usize = value.id.wrapping_add(1);
            let following = self.take_tombstone(next_id);
            proof {
                assert(c[0].id == nth_id(self.decommit_next_id, 0));
                if c.len() > 1 {
                    assert(c[1].id == nth_id(self.decommit_next_id, 1));
                }
                if let Some(f) = following {
                    let m = choose|m: int| 0 <= m < c.len() && c[m] == f;
                    assert(c[m].id == nth_id(self.decommit_next_id, m));
                    assert(m == 1);
                }
            }
            self.decommit_single(value);
            proof {
                let d = self.chunks@;
                assert(d =~= c.drop_first());
                assert(trim(c, r0) == trim(d, r0));
                assert forall|i: int| 1 <= i < d.len() implies (r0.contains((#[trigger] d[i]).id) <==> has_id(
                    self.decommit_tombstones@,
                    d[i].id,
                )) by {
                    assert(d[i] == c[i + 1]);
                    assert(c[1].id != c[i + 1].id);
                }
                if d.len() > 0 {
                    assert(d[0] == c[1]);
                }
            }
            match following {
                Some(f) => {
                    value = f;
                },
                None => {
                    break ;
                },
            }
        }
        proof {
            let t = self.decommit_tombstones@;
            let d = self.chunks@;
            assert forall|x: usize| has_id(t, x) <==> (r0.contains(x) && has_id(d, x)) by {
                if has_id(t, x) {
                    let j = choose|j: int| 0 <= j < t.len() && (#[trigger] t[j]).id == x;
                    assert(has_id(d, t[j].id));
                }
                if has_id(d, x) {
                    let i = choose|i: int| 0 <= i < d.len() && (#[trigger] d[i]).id == x;
                    assert(r0.contains(d[i].id) <==> has_id(t, d[i].id));
                }
            }
            assert(self@.released =~= old(self)@.release(c0[0].id).released);
        }
    }

    /// Writes `data` into a reserved area, `offset` bytes from its start.
    pub fn write(&mut self, area: &BipSliceMut, offset: usize, data: &[u8])
        requires
            old(self).wf(),
            old(self)@.fits(area@),
            offset + data@.len() <= area@.end - area@.start,
        ensures
            final(self).wf(),
            final(self)@ == (BipModel {
                bytes: octets::overwritten(old(self)@.bytes, area@.start + offset, data@),
                ..old(self)@
            }),
    {
        proof {
            lemma_layout(self.chunks@, self.a_count@ as int, self.buffer@.len() as int);
        }
        octets::copy_into(&mut self.buffer, area.reservation.start + offset, data);
    }
}

impl BipSliceMut {
    pub closed spec fn view(&self) -> Reservation {
        self.reservation
    }

    /// Returns the number of reserved bytes.
    pub fn capacity(&self) -> (r: usize)
        requires
            self@.start <= self@.end,
        ensures
            r == self@.end - self@.start,
    {
        self.reservation.end - self.reservation.start
    }

    /// Requests a part (or complete) reserved area to be committed and ready to read,
    /// after a successful write operation for a `len` bytes.
    ///
    /// Returns a shared, read-only slice, or `None` if `len` is zero.
    ///
    /// Chunks may have been released since the area was reserved.
    pub fn commit(self, source: &mut BipBuffer, len: usize) -> (r: Option<BipSlice>)
        requires
            old(source).wf(),
            old(source)@.reserved,
            old(source)@.fits(self@),
            len <= self@.end - self@.start,
        ensures
            final(source).wf(),
            r is None <==> len == 0,
            r is None ==> final(source)@ == (BipModel { reserved: false, ..old(source)@ }),
            r matches Some(s) ==> {
                &&& s@ == (Commit {
                    id: old(source)@.next_id,
                    start: self@.start,
                    end: (self@.start + len) as usize,
                })
                &&& final(source)@ == (BipModel {
                    reserved: false,
                    chunks: old(source)@.chunks.push(s@),
                    next_id: nth_id(old(source)@.next_id, 1) as usize,
                    ..old(source)@
                })
            },
    {
        source.reserved = false;
        if len == 0 {
            return None;
        }
        let commit = source.occupy(self.reservation, len);
        Some(BipSlice { commit })
    }

    /// Commits the first `len` reserved bytes, and goes on to hold the others.
    pub fn commit_front(&mut self, source: &mut BipBuffer, len: usize) -> (r: BipSlice)
        requires
            old(source).wf(),
            old(source)@.fits(old(self)@),
            0 < len <= old(self)@.end - old(self)@.start,
        ensures
            final(source).wf(),
            r@ == (Commit {
                id: old(source)@.next_id,
                start: old(self)@.start,
                end: (old(self)@.start + len) as usize,
            }),
            final(self)@ == (Reservation {
                start: (old(self)@.start + len) as usize,
                ..old(self)@
            }),
            final(source)@ == (BipModel {
                chunks: old(source)@.chunks.push(r@),
                next_id: nth_id(old(source)@.next_id, 1) as usize,
                ..old(source)@
            }),
            final(source)@.fits(final(self)@),
    {
        let commit = source.occupy(self.reservation, len);
        self.reservation.start = self.reservation.start + len;
        BipSlice { commit }
    }

    /// Gives up the reservation.
    pub fn cancel(self, source: &mut BipBuffer)
        requires
            old(source).wf(),
        ensures
            final(source).wf(),
            final(source)@ == (BipModel { reserved: false, ..old(source)@ }),
    {
        source.reserved = false;
    }
}

impl BipSlice {
    pub closed spec fn view(&self) -> Commit {
        self.commit
    }

    /// Returns the number of committed bytes.
    pub fn len(&self) -> (r: usize)
        requires
            self@.start <= self@.end,
        ensures
            r == self@.end - self@.start,
    {
        self.commit.end - self.commit.start
    }

    /// Returns the committed bytes.
    pub fn as_read_slice<'a>(&self, source: &'a BipBuffer) -> (r: &'a [u8])
        requires
            source.wf(),
            source@.chunks.contains(self@),
        ensures
            r@ == source@.content(self@),
    {
        proof {
            lemma_layout(source.chunks@, source.a_count@ as int, source.buffer@.len() as int);
        }
        vstd::slice::slice_subrange(source.buffer.as_slice(), self.commit.start, self.commit.end)
    }

    /// Release the committed area to be accessible for write operations.
    ///
    /// It is highly recommended to decommit in sorted order, to avoid performance penalties.
    pub fn decommit(self, source: &mut BipBuffer)
        requires
            old(source).wf(),
            old(source)@.holds(self@),
        ensures
            final(source).wf(),
            final(source)@ == old(source)@.release(self@.id),
            old(source)@.available() <= final(source)@.available(),
            forall|r: Reservation|
                old(source)@.fits(r) ==> #[trigger] final(source)@.fits(r),
    {
        proof {
            source.lemma_view_wf();
            law_release_frees_memory(source@, self@.id);
            assert forall|r: Reservation| source@.fits(r) implies #[trigger] source@.release(
                self@.id,
            ).fits(r) by {
                law_reservation_survives_a_release(source@, r, self@.id);
            }
        }
        source.decommit(self.commit);
    }
}

/// Without its first chunk a buffer has no less memory available,
/// and an area that may be written still may be.
proof fn lemma_without_first(m: BipModel, k: int, r: Reservation)
    requires
        m.chunks.len() > 0,
        laid_out(m.chunks, k, m.bytes.len() as int),
    ensures
        m.available() <= (BipModel { chunks: m.chunks.drop_first(), ..m }).available(),
        m.fits(r) ==> (BipModel { chunks: m.chunks.drop_first(), ..m }).fits(r),
{
    let d = m.chunks.drop_first();
    let length = m.bytes.len() as int;
    lemma_layout(m.chunks, k, length);
    lemma_drop_first(m.chunks, k, length);
    if d.len() > 0 {
        assert(d.last() == m.chunks.last());
        assert(d[0] == m.chunks[1]);
        if k > 1 {
            lemma_layout(d, k - 1, length);
            assert(m.chunks[1].start == m.chunks[0].end);
            if k == m.chunks.len() {
                assert(m.chunks[k - 1] == m.chunks.last());
                assert(d[k - 2] == d.last());
            }
        } else {
            lemma_layout(d, d.len() as int, length);
            assert(d[d.len() - 1] == d.last());
        }
    }
}

proof fn lemma_trim_frees(m: BipModel, k: int, released: Set<usize>, r: Reservation)
    requires
        laid_out(m.chunks, k, m.bytes.len() as int),
    ensures
        m.available() <= (BipModel { chunks: trim(m.chunks, released), ..m }).available(),
        m.fits(r) ==> (BipModel { chunks: trim(m.chunks, released), ..m }).fits(r),
    decreases m.chunks.len(),
{
    if m.chunks.len() > 0 && released.contains(m.chunks[0].id) {
        let length = m.bytes.len() as int;
        let next = BipModel { chunks: m.chunks.drop_first(), ..m };
        lemma_layout(m.chunks, k, length);
        lemma_drop_first(m.chunks, k, length);
        lemma_without_first(m, k, r);
        if k > 1 {
            lemma_trim_frees(next, k - 1, released, r);
        } else {
            lemma_trim_frees(next, next.chunks.len() as int, released, r);
        }
    }
}

/// A release never makes less memory available, in whatever order chunks are released.
pub proof fn law_release_frees_memory(m: BipModel, id: usize)
    requires
        m.wf(),
    ensures
        m.available() <= m.release(id).available(),
{
    let k = choose|k: int| #[trigger] laid_out(m.chunks, k, m.bytes.len() as int);
    lemma_trim_frees(m, k, m.released.insert(id), Reservation { start: 0, end: 0 });
}

/// A reservation stays one when chunks are released, even if all of them are.
pub proof fn law_reservation_survives_a_release(m: BipModel, r: Reservation, id: usize)
    requires
        m.wf(),
        m.fits(r),
    ensures
        m.release(id).fits(r),
{
    let k = choose|k: int| #[trigger] laid_out(m.chunks, k, m.bytes.len() as int);
    lemma_trim_frees(m, k, m.released.insert(id), r);
}

/// Each committed chunk lies in the memory, and has at least one byte.
pub proof fn law_committed_chunk_is_memory(m: BipModel, c: Commit)
    requires
        m.wf(),
        m.chunks.contains(c),
    ensures
        c.start < c.end <= m.bytes.len(),
{
    let k = choose|k: int| #[trigger] laid_out(m.chunks, k, m.bytes.len() as int);
    let i = choose|i: int| 0 <= i < m.chunks.len() && m.chunks[i] == c;
    lemma_layout(m.chunks, k, m.bytes.len() as int);
    reveal(laid_out);
    assert(m.chunks[i] == c);
}

/// No more memory is available than there is.
pub proof fn law_available_memory_is_bounded(m: BipModel)
    requires
        m.wf(),
    ensures
        0 <= m.available() <= m.bytes.len(),
{
    let k = choose|k: int| #[trigger] laid_out(m.chunks, k, m.bytes.len() as int);
    lemma_layout(m.chunks, k, m.bytes.len() as int);
}

/// No two committed chunks share a byte.
pub proof fn law_committed_chunks_are_apart(m: BipModel, a: Commit, b: Commit)
    requires
        m.wf(),
        m.chunks.contains(a),
        m.chunks.contains(b),
        a.id != b.id,
    ensures
        a.end <= b.start || b.end <= a.start,
{
    let k = choose|k: int| #[trigger] laid_out(m.chunks, k, m.bytes.len() as int);
    let i = choose|i: int| 0 <= i < m.chunks.len() && m.chunks[i] == a;
    let j = choose|j: int| 0 <= j < m.chunks.len() && m.chunks[j] == b;
    lemma_layout(m.chunks, k, m.bytes.len() as int);
    reveal(laid_out);
    assert(m.chunks[i] == a && m.chunks[j] == b);
    if i < k && j >= k && i > 0 {
        assert(m.chunks[0].end <= m.chunks[i].start);
    }
    if j < k && i >= k && j > 0 {
        assert(m.chunks[0].end <= m.chunks[j].start);
    }
}

/// An area that may be written lies in the memory, and no area is longer than what is available.
pub proof fn law_reservation_is_memory(m: BipModel, r: Reservation)
    requires
        m.wf(),
        m.fits(r),
    ensures
        r.end <= m.bytes.len() <= usize::MAX,
        r.end - r.start <= m.available() <= m.bytes.len(),
{
    let k = choose|k: int| #[trigger] laid_out(m.chunks, k, m.bytes.len() as int);
    lemma_layout(m.chunks, k, m.bytes.len() as int);
}

/// Memory that may be written never overlaps memory that is committed.
pub proof fn law_reservation_avoids_committed(m: BipModel, r: Reservation, c: Commit)
    requires
        m.wf(),
        m.fits(r),
        m.chunks.contains(c),
    ensures
        r.end <= c.start || c.end <= r.start,
{
    let k = choose|k: int| #[trigger] laid_out(m.chunks, k, m.bytes.len() as int);
    let i = choose|i: int| 0 <= i < m.chunks.len() && m.chunks[i] == c;
    lemma_layout(m.chunks, k, m.bytes.len() as int);
    reveal(laid_out);
    let n = m.chunks.len() - 1;
    assert(m.chunks[i] == c);
    if i < k && i > 0 {
        assert(m.chunks[0].end <= m.chunks[i].start);
    }
    if i < k && i < k - 1 {
        assert(m.chunks[i].end <= m.chunks[k - 1].start);
    }
    if i >= k && i < n {
        assert(m.chunks[i].end <= m.chunks[n].start);
    }
}

/// What was committed reads the same after any write into a reservation.
pub proof fn law_committed_bytes_survive_a_write(
    m: BipModel,
    r: Reservation,
    offset: int,
    data: Seq<u8>,
    c: Commit,
)
    requires
        m.wf(),
        m.fits(r),
        m.chunks.contains(c),
        0 <= offset,
        offset + data.len() <= r.end - r.start,
    ensures
        (BipModel { bytes: octets::overwritten(m.bytes, r.start + offset, data), ..m }).content(c) == m.content(c),
{
    law_reservation_avoids_committed(m, r, c);
    let k = choose|k: int| #[trigger] laid_out(m.chunks, k, m.bytes.len() as int);
    lemma_layout(m.chunks, k, m.bytes.len() as int);
    let i = choose|i: int| 0 <= i < m.chunks.len() && m.chunks[i] == c;
    assert(m.chunks[i] == c);
    assert((BipModel { bytes: octets::overwritten(m.bytes, r.start + offset, data), ..m }).content(c)
        =~= m.content(c));
}

/// What was committed reads the same whether a reservation is given up, or a part of it
/// is committed.
pub proof fn law_committed_bytes_survive_a_commit(
    m: BipModel,
    r: Reservation,
    len: int,
    next: Commit,
    c: Commit,
)
    requires
        m.wf(),
        m.fits(r),
        m.chunks.contains(c),
        0 <= len <= r.end - r.start,
        next.start == r.start,
        next.end == r.start + len,
    ensures
        (BipModel { reserved: false, ..m }).content(c) == m.content(c),
        (BipModel { chunks: m.chunks.push(next), reserved: false, ..m }).chunks.contains(c),
        (BipModel { chunks: m.chunks.push(next), reserved: false, ..m }).content(c) == m.content(c),
        next.end <= c.start || c.end <= next.start,
{
    law_reservation_avoids_committed(m, r, c);
    let i = choose|i: int| 0 <= i < m.chunks.len() && m.chunks[i] == c;
    assert(m.chunks.push(next)[i] == c);
}

/// What is written into the area that is then committed is what the committed chunk reads.
pub proof fn law_commit_reads_what_was_written(m: BipModel, r: Reservation, data: Seq<u8>, c: Commit)
    requires
        m.wf(),
        m.fits(r),
        data.len() <= r.end - r.start,
        c.start == r.start,
        c.end == r.start + data.len(),
    ensures
        (BipModel { bytes: octets::overwritten(m.bytes, r.start as int, data), ..m }).content(c) == data,
{
    let k = choose|k: int| #[trigger] laid_out(m.chunks, k, m.bytes.len() as int);
    lemma_layout(m.chunks, k, m.bytes.len() as int);
    assert((BipModel { bytes: octets::overwritten(m.bytes, r.start as int, data), ..m }).content(c) =~= data);
}

proof fn lemma_trim_keeps(chunks: Seq<Commit>, released: Set<usize>, c: Commit)
    requires
        chunks.contains(c),
        !released.contains(c.id),
    ensures
        trim(chunks, released).contains(c),
    decreases chunks.len(),
{
    if chunks.len() > 0 && released.contains(chunks[0].id) {
        let i = choose|i: int| 0 <= i < chunks.len() && chunks[i] == c;
        assert(i > 0);
        assert(chunks.drop_first()[i - 1] == c);
        lemma_trim_keeps(chunks.drop_first(), released, c);
    }
}

/// Releasing a chunk never takes another one away, in whatever order chunks are released,
/// and never changes what another one reads.
pub proof fn law_release_keeps_the_others(m: BipModel, c: Commit, other: Commit)
    requires
        m.wf(),
        m.holds(c),
        m.holds(other),
        c.id != other.id,
    ensures
        m.release(c.id).holds(other),
        m.release(c.id).content(other) == m.content(other),
{
    lemma_trim_keeps(m.chunks, m.released.insert(c.id), other);
}

proof fn lemma_trim_all(chunks: Seq<Commit>, released: Set<usize>)
    requires
        forall|i: int| 0 <= i < chunks.len() ==> released.contains((#[trigger] chunks[i]).id),
    ensures
        trim(chunks, released).len() == 0,
    decreases chunks.len(),
{
    if chunks.len() > 0 {
        lemma_trim_all(chunks.drop_first(), released);
    }
}

/// When the last chunk that is held is released, in whatever order the chunks were released,
/// the whole memory is available again.
pub proof fn law_everything_released_is_available(m: BipModel, id: usize)
    requires
        m.wf(),
        forall|i: int|
            0 <= i < m.chunks.len() ==> (#[trigger] m.chunks[i]).id == id || m.released.contains(
                m.chunks[i].id,
            ),
    ensures
        m.release(id).chunks.len() == 0,
        m.release(id).available() == m.bytes.len(),
{
    lemma_trim_all(m.chunks, m.released.insert(id));
}

/// IDs tell committed chunks apart.
pub proof fn law_commit_ids_are_unique(m: BipModel, a: Commit, b: Commit)
    requires
        m.wf(),
        m.chunks.contains(a),
        m.chunks.contains(b),
        a.id == b.id,
    ensures
        a == b,
{
    let k = choose|k: int| #[trigger] laid_out(m.chunks, k, m.bytes.len() as int);
    lemma_layout(m.chunks, k, m.bytes.len() as int);
    let i = choose|i: int| 0 <= i < m.chunks.len() && m.chunks[i] == a;
    let j = choose|j: int| 0 <= j < m.chunks.len() && m.chunks[j] == b;
    assert(m.chunks[i].id == nth_id(m.chunks[0].id, i));
    assert(m.chunks[j].id == nth_id(m.chunks[0].id, j));
}

/// As much memory as is available can be reserved at once: behind the newest chunk
/// if it fits there, and else in front of the oldest one.
pub proof fn law_available_memory_can_be_reserved(m: BipModel, request: int)
    requires
        m.wf(),
        0 <= request <= m.available(),
    ensures
        0 <= m.placement(request),
        m.placement(request) + request <= m.bytes.len(),
        m.fits(
            Reservation {
                start: m.placement(request) as usize,
                end: (m.placement(request) + request) as usize,
            },
        ),
        m.chunks.len() > 0 && m.placement(request) != m.chunks.last().end ==> {
            &&& m.placement(request) == 0
            &&& request <= m.chunks[0].start
            &&& m.chunks.last().end + request > m.bytes.len()
        },
{
    let k = choose|k: int| #[trigger] laid_out(m.chunks, k, m.bytes.len() as int);
    lemma_layout(m.chunks, k, m.bytes.len() as int);
}

/// The oldest chunk gives its memory back as soon as it is released, and so do all chunks
/// behind it that were released before.
pub proof fn law_released_memory_is_given_back(m: BipModel)
    requires
        m.wf(),
        m.chunks.len() > 0,
    ensures
        ({
            let after = m.release(m.chunks[0].id);
            &&& after.chunks.len() < m.chunks.len()
            &&& after.chunks.is_suffix_of(m.chunks)
            &&& after.chunks.len() > 0 ==> !m.released.contains(after.chunks[0].id)
        }),
{
    lemma_trim_is_suffix(m.chunks, m.released.insert(m.chunks[0].id));
}

proof fn lemma_trim_is_suffix(chunks: Seq<Commit>, released: Set<usize>)
    ensures
        trim(chunks, released).is_suffix_of(chunks),
        trim(chunks, released).len() <= chunks.len(),
        chunks.len() > 0 && released.contains(chunks[0].id) ==> trim(chunks, released).len()
            < chunks.len(),
        trim(chunks, released).len() > 0 ==> !released.contains(trim(chunks, released)[0].id),
    decreases chunks.len(),
{
    if chunks.len() > 0 && released.contains(chunks[0].id) {
        lemma_trim_is_suffix(chunks.drop_first(), released);
        let rest = trim(chunks, released);
        assert(rest =~= chunks.subrange(chunks.len() - rest.len(), chunks.len() as int)) by {
            let first = chunks.drop_first();
            assert(rest =~= first.subrange(first.len() - rest.len(), first.len() as int));
        }
    } else {
        assert(chunks =~= chunks.subrange(0, chunks.len() as int));
    }
}

} // verus!
