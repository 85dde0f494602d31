//! Fixed-capacity buffers for encoded moves.
//!
//! [`MoveList`] holds up to 256 plain moves, [`ScoringMoveList`] up to 256
//! scored moves; both live entirely in inline storage with a length
//! counter, behave like an ordered sequence bounded by that length, and
//! silently drop a push past capacity — the domain's real maximum stays
//! well below 256, and the hottest loop pays for no error path.
//!
//! Both buffers implement [`MVPushable`], the shared append/cursor
//! capability that generic move-generation code targets, including the
//! batch append that writes a whole destination set through a cursor.

use vstd::prelude::*;
use vstd::slice::slice_subrange;

use crate::bitboard::BitBoard;
use crate::bitboard::squares;
use crate::moves::BitMove;
use crate::moves::ScoringMove;
use crate::moves::move_code;

verus! {

/// The capacity of both buffers: no known position yields more moves.
pub const MAX_MOVES: usize = 256;

/// What one push leaves of a plain buffer's contents: the move appended,
/// unless the buffer is already full, in which case nothing changes.
pub open spec fn push_model(v: Seq<BitMove>, mv: BitMove) -> Seq<BitMove> {
    if v.len() < MAX_MOVES {
        v.push(mv)
    } else {
        v
    }
}

/// What one push leaves of a scored buffer's contents: the move appended
/// with the default "unscored" score, unless the buffer is already full.
pub open spec fn scoring_push_model(v: Seq<ScoringMove>, mv: BitMove) -> Seq<ScoringMove> {
    if v.len() < MAX_MOVES {
        v.push(ScoringMove::spec_new(mv))
    } else {
        v
    }
}

/// The contents after pushing every move of `mvs` in order onto a plain
/// buffer holding `v`.
pub open spec fn pushed_views(v: Seq<BitMove>, mvs: Seq<BitMove>) -> Seq<BitMove>
    decreases mvs.len(),
{
    if mvs.len() == 0 {
        v
    } else {
        pushed_views(push_model(v, mvs[0]), mvs.skip(1))
    }
}

/// Any sequence of pushes fills the buffer in order and stops changing it
/// at capacity: the result is the first 256 entries of "what was there,
/// then everything pushed".
pub proof fn lemma_pushed_views_capped(v: Seq<BitMove>, mvs: Seq<BitMove>)
    requires
        v.len() <= MAX_MOVES,
    ensures
        pushed_views(v, mvs) == (v + mvs).take(vstd::math::min(MAX_MOVES as int, (v + mvs).len() as int)),
    decreases mvs.len(),
{
    if mvs.len() == 0 {
        assert((v + mvs).take(v.len() as int) =~= v);
    } else if v.len() == MAX_MOVES {
        lemma_pushed_views_capped(v, mvs.skip(1));
        assert(pushed_views(v, mvs) == pushed_views(v, mvs.skip(1)));
        assert((v + mvs.skip(1)).take(MAX_MOVES as int) =~= v);
        assert((v + mvs).take(MAX_MOVES as int) =~= v);
    } else {
        lemma_pushed_views_capped(v.push(mvs[0]), mvs.skip(1));
        assert(v.push(mvs[0]) + mvs.skip(1) =~= v + mvs);
    }
}

/// For at most 256 pushes onto an empty buffer, the contents are exactly
/// the pushed moves, in push order.
pub proof fn lemma_pushes_in_order(mvs: Seq<BitMove>)
    requires
        mvs.len() <= MAX_MOVES,
    ensures
        pushed_views(Seq::empty(), mvs) == mvs,
{
    lemma_pushed_views_capped(Seq::empty(), mvs);
    assert((Seq::<BitMove>::empty() + mvs).take(mvs.len() as int) =~= mvs);
}

/// A push onto a full buffer is a no-op: the length stays 256 and every
/// entry already there is untouched.
pub proof fn lemma_push_overflow_is_noop(v: Seq<BitMove>, mv: BitMove)
    requires
        v.len() == MAX_MOVES,
    ensures
        push_model(v, mv) == v,
{
}

/// The append/cursor capability shared by the plain and the scored buffer,
/// the interface generic move-generation code targets.
///
/// A buffer's storage is a sequence of 256 entries — plain moves for one
/// implementor, scored moves for the other — of which the first
/// `spec_len()` are the contents.  A cursor is an index into that storage,
/// playing the role a raw pointer into the slots would play: `list_ptr`
/// and `over_bounds_ptr` hand cursors out, the batch append consumes and
/// returns them.
pub trait MVPushable: Sized {
    /// What one storage slot holds.
    type Entry;

    /// The entry a scalar push writes for a move.
    spec fn entry_of(mv: BitMove) -> Self::Entry;

    /// The move held by an entry.
    spec fn entry_move(e: Self::Entry) -> BitMove;

    /// An entry with its move replaced and everything else kept: what the
    /// batch append writes over a slot.
    spec fn with_move(e: Self::Entry, mv: BitMove) -> Self::Entry;

    /// The buffer's invariant: the length never exceeds the 256 slots.
    spec fn list_wf(&self) -> bool;

    /// The full inline storage, beyond the length included.
    spec fn spec_stored(&self) -> Seq<Self::Entry>;

    /// The current length.
    spec fn spec_len(&self) -> int;

    /// An entry built from a move holds that move, and replacing a move
    /// replaces exactly the move.
    proof fn entry_laws(e: Self::Entry, mv: BitMove)
        ensures
            Self::entry_move(Self::entry_of(mv)) == mv,
            Self::entry_move(Self::with_move(e, mv)) == mv,
    ;

    /// Storage always spans exactly 256 slots, and a well-formed length
    /// stays within them.
    proof fn stored_laws(&self)
        ensures
            self.spec_stored().len() == 256,
            self.list_wf() ==> 0 <= self.spec_len() <= 256,
    ;

    /// Adds a move to the end of the list; at capacity the move is
    /// silently discarded.
    fn push_mv(&mut self, mv: BitMove)
        requires
            old(self).list_wf(),
        ensures
            final(self).list_wf(),
            old(self).spec_len() < 256 ==> final(self).spec_stored() == old(self).spec_stored()
                .update(old(self).spec_len(), Self::entry_of(mv)) && final(self).spec_len() == old(
                self,
            ).spec_len() + 1,
            old(self).spec_len() >= 256 ==> *final(self) == *old(self),
    ;

    /// Adds a move to the end of the list, which must not be full.
    fn unchecked_push_mv(&mut self, mv: BitMove)
        requires
            old(self).list_wf(),
            old(self).spec_len() < 256,
        ensures
            final(self).list_wf(),
            final(self).spec_stored() == old(self).spec_stored().update(
                old(self).spec_len(),
                Self::entry_of(mv),
            ),
            final(self).spec_len() == old(self).spec_len() + 1,
    ;

    /// Overwrites the length of the list.  The storage is untouched, so
    /// every slot below the new length becomes part of the contents; the
    /// caller answers for having written those slots.
    fn unchecked_set_len(&mut self, len: usize)
        requires
            old(self).list_wf(),
            len <= 256,
        ensures
            final(self).list_wf(),
            final(self).spec_stored() == old(self).spec_stored(),
            final(self).spec_len() == len,
    ;

    /// The cursor to the first storage slot.
    fn list_ptr(&self) -> (r: usize)
        ensures
            r == 0,
    ;

    /// The cursor one past the last entry within the length.
    fn over_bounds_ptr(&self) -> (r: usize)
        requires
            self.list_wf(),
        ensures
            r == self.spec_len(),
    ;

    /// Batch append through a cursor: drains the destination set in
    /// ascending square order and writes one encoded move per member to
    /// consecutive slots from `at` on, returning the cursor past the last
    /// slot written.  The length is not updated; the caller follows up
    /// with `unchecked_set_len`.  At most 32 members — the vector width —
    /// may be supplied, and the block must fit the storage.
    fn avx_append(&mut self, at: usize, src: u8, dst: &mut BitBoard, flags: u16) -> (end: usize)
        requires
            old(self).list_wf(),
            src < 64,
            flags < 16,
            squares(old(dst).0).len() <= 32,
            at + squares(old(dst).0).len() <= 256,
        ensures
            final(self).list_wf(),
            final(self).spec_len() == old(self).spec_len(),
            final(dst)@.len() == 0,
            end == at + squares(old(dst).0).len(),
            final(self).spec_stored().len() == old(self).spec_stored().len(),
            forall|j: int|
                0 <= j < old(self).spec_stored().len() && !(at <= j < end) ==> final(self)
                    .spec_stored()[j] == old(self).spec_stored()[j],
            forall|j: int|
                at <= j < end ==> final(self).spec_stored()[j] == Self::with_move(
                    old(self).spec_stored()[j],
                    encoded_moves(src, old(dst).0, flags)[j - at],
                ),
    ;
}

/// The moves a batch append over destination set `bits` writes: one move
/// per member square, in ascending order, all with the given source square
/// and flag nibble, in the same bit layout scalar-constructed moves use.
pub open spec fn encoded_moves(src: u8, bits: u64, flags: u16) -> Seq<BitMove> {
    squares(bits).map(|k: int, s: u8| BitMove { data: move_code(src, s, flags) })
}

/// Storage and length after scalar-pushing every move of `mvs` in order.
pub open spec fn pushed_stored<L: MVPushable>(
    st: Seq<L::Entry>,
    len: int,
    mvs: Seq<BitMove>,
) -> (Seq<L::Entry>, int)
    decreases mvs.len(),
{
    if mvs.len() == 0 {
        (st, len)
    } else if len < 256 {
        pushed_stored::<L>(st.update(len, L::entry_of(mvs[0])), len + 1, mvs.skip(1))
    } else {
        pushed_stored::<L>(st, len, mvs.skip(1))
    }
}

/// The moves a storage sequence holds, slot by slot.
pub open spec fn moves_of<L: MVPushable>(st: Seq<L::Entry>) -> Seq<BitMove> {
    st.map(|k: int, e: L::Entry| L::entry_move(e))
}

/// Pushing one more move after a sequence of pushes is one more push step.
proof fn lemma_pushed_stored_snoc<L: MVPushable>(
    st: Seq<L::Entry>,
    len: int,
    mvs: Seq<BitMove>,
    mv: BitMove,
)
    ensures
        pushed_stored::<L>(st, len, mvs.push(mv)) == (if pushed_stored::<L>(st, len, mvs).1
            < 256 {
            (
                pushed_stored::<L>(st, len, mvs).0.update(
                    pushed_stored::<L>(st, len, mvs).1,
                    L::entry_of(mv),
                ),
                pushed_stored::<L>(st, len, mvs).1 + 1,
            )
        } else {
            pushed_stored::<L>(st, len, mvs)
        }),
    decreases mvs.len(),
{
    let p = mvs.push(mv);
    if mvs.len() == 0 {
        assert(p[0] == mv);
        assert(p.skip(1) =~= Seq::<BitMove>::empty());
        if len < 256 {
            let st1 = st.update(len, L::entry_of(mv));
            assert(pushed_stored::<L>(st, len, p) == pushed_stored::<L>(st1, len + 1, p.skip(1)));
            assert(pushed_stored::<L>(st1, len + 1, p.skip(1)) == (st1, len + 1));
        } else {
            assert(pushed_stored::<L>(st, len, p) == pushed_stored::<L>(st, len, p.skip(1)));
            assert(pushed_stored::<L>(st, len, p.skip(1)) == (st, len));
        }
    } else {
        assert(p[0] == mvs[0]);
        assert(p.skip(1) =~= mvs.skip(1).push(mv));
        if len < 256 {
            let st1 = st.update(len, L::entry_of(mvs[0]));
            lemma_pushed_stored_snoc::<L>(st1, len + 1, mvs.skip(1), mv);
            assert(pushed_stored::<L>(st, len, p) == pushed_stored::<L>(st1, len + 1, p.skip(1)));
            assert(pushed_stored::<L>(st, len, mvs) == pushed_stored::<L>(st1, len + 1, mvs.skip(1)));
        } else {
            lemma_pushed_stored_snoc::<L>(st, len, mvs.skip(1), mv);
            assert(pushed_stored::<L>(st, len, p) == pushed_stored::<L>(st, len, p.skip(1)));
            assert(pushed_stored::<L>(st, len, mvs) == pushed_stored::<L>(st, len, mvs.skip(1)));
        }
    }
}

/// Within capacity, scalar pushes fill consecutive slots with the pushed
/// moves' entries, in push order, and advance the length past them: for
/// either buffer, at most 256 pushes land exactly where and how they were
/// made.
pub proof fn lemma_pushed_stored_in_capacity<L: MVPushable>(
    st: Seq<L::Entry>,
    len: int,
    mvs: Seq<BitMove>,
)
    requires
        st.len() == 256,
        0 <= len,
        len + mvs.len() <= 256,
    ensures
        pushed_stored::<L>(st, len, mvs).1 == len + mvs.len(),
        pushed_stored::<L>(st, len, mvs).0.len() == 256,
        forall|j: int|
            0 <= j < 256 ==> #[trigger] pushed_stored::<L>(st, len, mvs).0[j] == (if len <= j
                < len + mvs.len() {
                L::entry_of(mvs[j - len])
            } else {
                st[j]
            }),
    decreases mvs.len(),
{
    if mvs.len() > 0 {
        lemma_pushed_stored_in_capacity::<L>(
            st.update(len, L::entry_of(mvs[0])),
            len + 1,
            mvs.skip(1),
        );
    }
}

/// The batch append and the scalar fallback agree.  `wr` is storage as the
/// batch append leaves it — the block `[len, len + mvs.len())` overwritten
/// move by move, everything else untouched, exactly the shape of
/// `avx_append`'s contract.  Setting the length past the block then
/// presents the same moves, in the same order, that pushing them one by
/// one onto the buffer would have.
pub proof fn lemma_vectorized_matches_scalar<L: MVPushable>(
    st: Seq<L::Entry>,
    wr: Seq<L::Entry>,
    len: int,
    mvs: Seq<BitMove>,
)
    requires
        st.len() == 256,
        wr.len() == 256,
        0 <= len,
        len + mvs.len() <= 256,
        forall|j: int| 0 <= j < 256 && !(len <= j < len + mvs.len()) ==> #[trigger] wr[j] == st[j],
        forall|j: int|
            len <= j < len + mvs.len() ==> #[trigger] wr[j] == L::with_move(st[j], mvs[j - len]),
    ensures
        pushed_stored::<L>(st, len, mvs).1 == len + mvs.len(),
        moves_of::<L>(wr.take(len + mvs.len())) == moves_of::<L>(
            pushed_stored::<L>(st, len, mvs).0.take(len + mvs.len()),
        ),
{
    lemma_pushed_stored_in_capacity::<L>(st, len, mvs);
    let end = len + mvs.len();
    let a = moves_of::<L>(wr.take(end));
    let b = moves_of::<L>(pushed_stored::<L>(st, len, mvs).0.take(end));
    assert forall|j: int| 0 <= j < end implies a[j] == b[j] by {
        if len <= j {
            L::entry_laws(st[j], mvs[j - len]);
        }
    }
    assert(a =~= b);
}

/// The batch append as callers use it: write the destination set through a
/// cursor at the current end, then set the length past the block.  Its
/// contract is the scalar fallback's, at the level of the moves presented:
/// the buffer ends up showing exactly the sequence of moves that scalar
/// pushes over the same set would have produced.
pub fn batch_append<L: MVPushable>(list: &mut L, src: u8, dst: &mut BitBoard, flags: u16)
    requires
        old(list).list_wf(),
        src < 64,
        flags < 16,
        squares(old(dst).0).len() <= 32,
        old(list).spec_len() + squares(old(dst).0).len() <= 256,
    ensures
        final(list).list_wf(),
        final(dst)@.len() == 0,
        final(list).spec_len() == old(list).spec_len() + squares(old(dst).0).len(),
        final(list).spec_len() == pushed_stored::<L>(
            old(list).spec_stored(),
            old(list).spec_len(),
            encoded_moves(src, old(dst).0, flags),
        ).1,
        moves_of::<L>(final(list).spec_stored().take(final(list).spec_len())) == moves_of::<L>(
            pushed_stored::<L>(
                old(list).spec_stored(),
                old(list).spec_len(),
                encoded_moves(src, old(dst).0, flags),
            ).0.take(final(list).spec_len()),
        ),
{
    proof {
        list.stored_laws();
    }
    let at = list.over_bounds_ptr();
    let end = list.avx_append(at, src, dst, flags);
    list.unchecked_set_len(end);
    proof {
        lemma_vectorized_matches_scalar::<L>(
            old(list).spec_stored(),
            final(list).spec_stored(),
            at as int,
            encoded_moves(src, old(dst).0, flags),
        );
    }
}

/// Relies on std's mutable range indexing on slices: `&mut s[..n]` is the
/// prefix of length `n`, writes through it land in those slots and the
/// rest of the storage is untouched.
#[verifier::external_body]
fn prefix_mut<T>(s: &mut [T; 256], n: usize) -> (out: &mut [T])
    requires
        n <= 256,
    ensures
        out@ == old(s)@.take(n as int),
        final(out)@.len() == n,
        final(s)@ == final(out)@ + old(s)@.skip(n as int),
        final(s)@.take(n as int) == final(out)@,
        final(s)@.skip(n as int) == old(s)@.skip(n as int),
{
    &mut s[..n]
}

/// The list of possible moves for a position: an ordered sequence of up to
/// 256 plain moves in inline storage.  Entries at indices at or beyond the
/// length are unspecified and unreachable through the bounded views.
pub struct MoveList {
    inner: [BitMove; 256],
    len: usize,
}

impl View for MoveList {
    type V = Seq<BitMove>;

    /// The buffer's contents: the stored moves below the length, in order.
    closed spec fn view(&self) -> Seq<BitMove> {
        self.inner@.take(self.len as int)
    }
}

impl MoveList {
    /// The length never exceeds the 256 inline slots.
    pub closed spec fn wf(self) -> bool {
        self.len <= MAX_MOVES
    }

    /// Adds a move to the end of the list; at capacity the move is
    /// silently discarded.
    pub fn push(&mut self, mv: BitMove)
        requires
            old(self).wf(),
        ensures
            final(self).wf(),
            final(self)@ == push_model(old(self)@, mv),
    {
        self.push_mv(mv);
        proof {
            if old(self).len < MAX_MOVES {
                assert(final(self)@ =~= old(self)@.push(mv));
            }
        }
    }

    /// True if the list holds no moves.
    pub fn is_empty(&self) -> (r: bool)
        requires
            self.wf(),
        ensures
            r <==> self@.len() == 0,
    {
        self.len == 0
    }

    /// Copies the list into a heap-backed vector of exactly its length.
    pub fn vec(&self) -> (r: Vec<BitMove>)
        requires
            self.wf(),
        ensures
            r@ == self@,
    {
        let mut v: Vec<BitMove> = Vec::new();
        let mut i: usize = 0;
        while i < self.len
            invariant
                self.wf(),
                i <= self.len,
                v@ == self@.take(i as int),
            decreases self.len - i,
        {
            v.push(self.inner[i]);
            assert(v@ =~= self@.take(i + 1));
            i = i + 1;
        }
        assert(self@.take(self.len as int) =~= self@);
        v
    }

    /// The number of moves in the list.
    pub fn len(&self) -> (r: usize)
        requires
            self.wf(),
        ensures
            r == self@.len(),
            r == self.spec_len(),
    {
        self.len
    }

    /// The move at index `i`; indices at or beyond the length are a
    /// contract violation.
    pub fn get(&self, i: usize) -> (r: BitMove)
        requires
            self.wf(),
            i < self@.len(),
        ensures
            r == self@[i as int],
    {
        self.inner[i]
    }

    /// The list as a read-only slice bounded by its length.
    pub fn as_slice(&self) -> (r: &[BitMove])
        requires
            self.wf(),
        ensures
            r@ == self@,
    {
        slice_subrange(self.inner.as_slice(), 0, self.len)
    }

    /// The list as a read-write slice bounded by its length: writes through
    /// it replace entries in place, the length never moves.
    pub fn as_mut_slice(&mut self) -> (out: &mut [BitMove])
        requires
            old(self).wf(),
        ensures
            out@ == old(self)@,
            final(out)@.len() == old(self)@.len(),
            final(self).wf(),
            final(self)@ == final(out)@,
            final(self).spec_len() == old(self).spec_len(),
    {
        let n = self.len;
        prefix_mut(&mut self.inner, n)
    }

    /// A borrowing iterator over the moves, in index order.
    pub fn iter(&self) -> (it: MoveIter)
        requires
            self.wf(),
        ensures
            it.iter_wf(),
            it.remaining() == self@,
    {
        let it = MoveIter { movelist: self, idx: 0 };
        proof {
            assert(it.remaining() =~= self@);
        }
        it
    }

    /// A consuming iterator over the moves, in index order.
    pub fn into_iter(self) -> (it: MoveIntoIter)
        requires
            self.wf(),
        ensures
            it.iter_wf(),
            it.remaining() == self@,
    {
        let it = MoveIntoIter { movelist: self, idx: 0 };
        proof {
            assert(it.remaining() =~= it.movelist@);
        }
        it
    }

    /// Builds a list by pushing every move of the vector in order, silently
    /// truncating past capacity.
    pub fn from_vec(vec: &Vec<BitMove>) -> (r: MoveList)
        ensures
            r.wf(),
            r@ == (if vec@.len() <= MAX_MOVES {
                vec@
            } else {
                vec@.take(MAX_MOVES as int)
            }),
    {
        let mut r = MoveList::default();
        let mut i: usize = 0;
        while i < vec.len()
            invariant
                r.wf(),
                i <= vec.len(),
                r@ == (if i <= MAX_MOVES {
                    vec@.take(i as int)
                } else {
                    vec@.take(MAX_MOVES as int)
                }),
            decreases vec.len() - i,
        {
            r.push(vec[i]);
            proof {
                if i < MAX_MOVES {
                    assert(vec@.take(i as int).push(vec@[i as int]) =~= vec@.take(i + 1));
                }
            }
            i = i + 1;
        }
        proof {
            assert(vec@.take(vec@.len() as int) =~= vec@);
        }
        r
    }

    /// Converts a scored list into a plain one: the scores are stripped,
    /// the moves and their order are kept exactly.
    pub fn from_scoring(sc_list: &ScoringMoveList) -> (r: MoveList)
        requires
            sc_list.wf(),
        ensures
            r.wf(),
            r@ == sc_list@.map(|k: int, e: ScoringMove| e.bit_move),
    {
        let mut r = MoveList::default();
        let mut i: usize = 0;
        let n = sc_list.len();
        while i < n
            invariant
                r.wf(),
                sc_list.wf(),
                i <= n,
                n == sc_list@.len(),
                r@ == sc_list@.take(i as int).map(|k: int, e: ScoringMove| e.bit_move),
            decreases n - i,
        {
            let e = sc_list.get(i);
            r.push(e.bitmove());
            proof {
                assert(r@ =~= sc_list@.take(i + 1).map(|k: int, e: ScoringMove| e.bit_move));
            }
            i = i + 1;
        }
        proof {
            assert(sc_list@.take(n as int) =~= sc_list@);
        }
        r
    }
}

/// A borrowing iterator over a [`MoveList`]: yields the moves below the
/// length in index order, reports its exact remaining count, and keeps
/// reporting exhaustion once done.
pub struct MoveIter<'a> {
    movelist: &'a MoveList,
    idx: usize,
}

impl<'a> MoveIter<'a> {
    /// The iterator points into the list it borrows.
    pub closed spec fn iter_wf(&self) -> bool {
        self.movelist.wf() && self.idx <= self.movelist.spec_len()
    }

    /// The moves not yet yielded, in the order they will come.
    pub closed spec fn remaining(&self) -> Seq<BitMove> {
        self.movelist@.skip(self.idx as int)
    }

    /// The next move, or `None` once every move below the length has been
    /// yielded; stays `None` from then on.
    pub fn next(&mut self) -> (r: Option<BitMove>)
        requires
            old(self).iter_wf(),
        ensures
            final(self).iter_wf(),
            old(self).remaining().len() == 0 ==> r is None && *final(self) == *old(self),
            old(self).remaining().len() > 0 ==> r == Some(old(self).remaining()[0])
                && final(self).remaining() == old(self).remaining().skip(1),
    {
        if self.idx >= self.movelist.len {
            None
        } else {
            let m = self.movelist.inner[self.idx];
            self.idx = self.idx + 1;
            proof {
                assert(final(self).remaining() =~= old(self).remaining().skip(1));
            }
            Some(m)
        }
    }

    /// The exact number of moves still to come, as both bounds.
    pub fn size_hint(&self) -> (r: (usize, Option<usize>))
        requires
            self.iter_wf(),
        ensures
            r.0 == self.remaining().len(),
            r.1 == Some(r.0),
    {
        let n = self.movelist.len - self.idx;
        (n, Some(n))
    }
}

/// A consuming iterator over a [`MoveList`]: the same order and exhaustion
/// behavior as the borrowing one, owning the list.
pub struct MoveIntoIter {
    movelist: MoveList,
    idx: usize,
}

impl MoveIntoIter {
    /// The iterator points into the list it owns.
    pub closed spec fn iter_wf(&self) -> bool {
        self.movelist.wf() && self.idx <= self.movelist.spec_len()
    }

    /// The moves not yet yielded, in the order they will come.
    pub closed spec fn remaining(&self) -> Seq<BitMove> {
        self.movelist@.skip(self.idx as int)
    }

    /// The next move, or `None` once every move below the length has been
    /// yielded; stays `None` from then on.
    pub fn next(&mut self) -> (r: Option<BitMove>)
        requires
            old(self).iter_wf(),
        ensures
            final(self).iter_wf(),
            old(self).remaining().len() == 0 ==> r is None && *final(self) == *old(self),
            old(self).remaining().len() > 0 ==> r == Some(old(self).remaining()[0])
                && final(self).remaining() == old(self).remaining().skip(1),
    {
        if self.idx >= self.movelist.len {
            None
        } else {
            let m = self.movelist.inner[self.idx];
            self.idx = self.idx + 1;
            proof {
                assert(final(self).remaining() =~= old(self).remaining().skip(1));
            }
            Some(m)
        }
    }

    /// The exact number of moves still to come, as both bounds.
    pub fn size_hint(&self) -> (r: (usize, Option<usize>))
        requires
            self.iter_wf(),
        ensures
            r.0 == self.remaining().len(),
            r.1 == Some(r.0),
    {
        let n = self.movelist.len - self.idx;
        (n, Some(n))
    }
}

impl Default for MoveList {
    /// An empty list; every storage slot holds the null move.
    fn default() -> (r: Self)
        ensures
            r.wf(),
            r@ == Seq::<BitMove>::empty(),
            r.spec_len() == 0,
    {
        let list = MoveList { inner: [BitMove { data: 0 }; 256], len: 0 };
        assert(list@ =~= Seq::<BitMove>::empty());
        list
    }
}

impl MVPushable for MoveList {
    type Entry = BitMove;

    /// A push writes the move itself.
    open spec fn entry_of(mv: BitMove) -> BitMove {
        mv
    }

    /// A slot holds nothing but its move.
    open spec fn entry_move(e: BitMove) -> BitMove {
        e
    }

    /// Overwriting the move of a plain slot replaces the whole slot.
    open spec fn with_move(e: BitMove, mv: BitMove) -> BitMove {
        mv
    }

    /// Same bound as [`MoveList::wf`].
    closed spec fn list_wf(&self) -> bool {
        self.len <= MAX_MOVES
    }

    closed spec fn spec_stored(&self) -> Seq<BitMove> {
        self.inner@
    }

    closed spec fn spec_len(&self) -> int {
        self.len as int
    }

    proof fn entry_laws(e: BitMove, mv: BitMove) {
    }

    proof fn stored_laws(&self) {
    }

    fn push_mv(&mut self, mv: BitMove) {
        if self.len < MAX_MOVES {
            self.unchecked_push_mv(mv);
        }
    }

    fn unchecked_push_mv(&mut self, mv: BitMove) {
        self.inner[self.len] = mv;
        self.len = self.len + 1;
    }

    fn unchecked_set_len(&mut self, len: usize) {
        self.len = len;
    }

    fn list_ptr(&self) -> usize {
        0
    }

    fn over_bounds_ptr(&self) -> usize {
        self.len
    }

    fn avx_append(&mut self, at: usize, src: u8, dst: &mut BitBoard, flags: u16) -> (end: usize) {
        let ghost sqs = squares(old(dst).0);
        let ghost encs = encoded_moves(src, old(dst).0, flags);
        let ghost orig_stored = self.inner@;
        let mut i: usize = at;
        while !dst.is_empty()
            invariant
                self.len == old(self).len,
                self.len <= MAX_MOVES,
                src < 64,
                flags < 16,
                at <= i,
                sqs == squares(old(dst).0),
                encs == encoded_moves(src, old(dst).0, flags),
                encs.len() == sqs.len(),
                at + encs.len() <= 256,
                i - at + dst@.len() == encs.len(),
                dst@ == sqs.skip(i - at),
                orig_stored.len() == 256,
                forall|j: int|
                    0 <= j < 256 && !(at <= j < i) ==> self.inner@[j] == orig_stored[j],
                forall|j: int| at <= j < i ==> self.inner@[j] == encs[j - at],
            decreases dst@.len(),
        {
            let sq = match dst.pop_some_lsb() {
                Some(s) => s,
                None => unreached(),
            };
            assert(sq == sqs[i - at]);
            let mv = BitMove::make(flags, src, sq);
            self.inner[i] = mv;
            proof {
                assert(sqs.skip(i - at).skip(1) =~= sqs.skip(i - at + 1));
            }
            i = i + 1;
        }
        i
    }
}

/// The list of scored moves for a position: the same shape and contract as
/// [`MoveList`], with an ordering score attached to each entry.
pub struct ScoringMoveList {
    inner: [ScoringMove; 256],
    len: usize,
}

impl View for ScoringMoveList {
    type V = Seq<ScoringMove>;

    /// The buffer's contents: the stored entries below the length, in order.
    closed spec fn view(&self) -> Seq<ScoringMove> {
        self.inner@.take(self.len as int)
    }
}

impl ScoringMoveList {
    /// The length never exceeds the 256 inline slots.
    pub closed spec fn wf(self) -> bool {
        self.len <= MAX_MOVES
    }

    /// Adds a move to the end of the list with the default "unscored"
    /// score; at capacity the move is silently discarded.
    pub fn push(&mut self, mov: BitMove)
        requires
            old(self).wf(),
        ensures
            final(self).wf(),
            final(self)@ == scoring_push_model(old(self)@, mov),
    {
        self.push_mv(mov);
        proof {
            if old(self).len < MAX_MOVES {
                assert(final(self)@ =~= old(self)@.push(ScoringMove::spec_new(mov)));
            }
        }
    }

    /// True if the list holds no moves.
    pub fn is_empty(&self) -> (r: bool)
        requires
            self.wf(),
        ensures
            r <==> self@.len() == 0,
    {
        self.len == 0
    }

    /// Copies the list into a heap-backed vector of exactly its length.
    pub fn vec(&self) -> (r: Vec<ScoringMove>)
        requires
            self.wf(),
        ensures
            r@ == self@,
    {
        let mut v: Vec<ScoringMove> = Vec::new();
        let mut i: usize = 0;
        while i < self.len
            invariant
                self.wf(),
                i <= self.len,
                v@ == self@.take(i as int),
            decreases self.len - i,
        {
            v.push(self.inner[i]);
            assert(v@ =~= self@.take(i + 1));
            i = i + 1;
        }
        assert(self@.take(self.len as int) =~= self@);
        v
    }

    /// The number of moves in the list.
    pub fn len(&self) -> (r: usize)
        requires
            self.wf(),
        ensures
            r == self@.len(),
            r == self.spec_len(),
    {
        self.len
    }

    /// The entry at index `i`; indices at or beyond the length are a
    /// contract violation.
    pub fn get(&self, i: usize) -> (r: ScoringMove)
        requires
            self.wf(),
            i < self@.len(),
        ensures
            r == self@[i as int],
    {
        self.inner[i]
    }

    /// The list as a read-only slice bounded by its length.
    pub fn as_slice(&self) -> (r: &[ScoringMove])
        requires
            self.wf(),
        ensures
            r@ == self@,
    {
        slice_subrange(self.inner.as_slice(), 0, self.len)
    }

    /// The list as a read-write slice bounded by its length: writes through
    /// it replace entries in place, the length never moves.
    pub fn as_mut_slice(&mut self) -> (out: &mut [ScoringMove])
        requires
            old(self).wf(),
        ensures
            out@ == old(self)@,
            final(out)@.len() == old(self)@.len(),
            final(self).wf(),
            final(self)@ == final(out)@,
            final(self).spec_len() == old(self).spec_len(),
    {
        let n = self.len;
        prefix_mut(&mut self.inner, n)
    }

    /// A borrowing iterator over the entries, in index order.
    pub fn iter(&self) -> (it: ScoreMoveIter)
        requires
            self.wf(),
        ensures
            it.iter_wf(),
            it.remaining() == self@,
    {
        let it = ScoreMoveIter { movelist: self, idx: 0 };
        proof {
            assert(it.remaining() =~= self@);
        }
        it
    }

    /// A consuming iterator over the entries, in index order.
    pub fn into_iter(self) -> (it: ScoreMoveIntoIter)
        requires
            self.wf(),
        ensures
            it.iter_wf(),
            it.remaining() == self@,
    {
        let it = ScoreMoveIntoIter { movelist: self, idx: 0 };
        proof {
            assert(it.remaining() =~= it.movelist@);
        }
        it
    }

    /// Builds a list by pushing every move of the vector in order, each
    /// with the default "unscored" score, silently truncating past
    /// capacity.
    pub fn from_vec(vec: &Vec<BitMove>) -> (r: ScoringMoveList)
        ensures
            r.wf(),
            r@ == (if vec@.len() <= MAX_MOVES {
                vec@
            } else {
                vec@.take(MAX_MOVES as int)
            }).map(|k: int, m: BitMove| ScoringMove::spec_new(m)),
    {
        let mut r = ScoringMoveList::default();
        let mut i: usize = 0;
        while i < vec.len()
            invariant
                r.wf(),
                i <= vec.len(),
                r@ == (if i <= MAX_MOVES {
                    vec@.take(i as int)
                } else {
                    vec@.take(MAX_MOVES as int)
                }).map(|k: int, m: BitMove| ScoringMove::spec_new(m)),
            decreases vec.len() - i,
        {
            r.push(vec[i]);
            proof {
                if i < MAX_MOVES {
                    assert(r@ =~= vec@.take(i + 1).map(|k: int, m: BitMove| ScoringMove::spec_new(m)));
                }
            }
            i = i + 1;
        }
        proof {
            assert(vec@.take(vec@.len() as int) =~= vec@);
        }
        r
    }

    /// Converts a plain list into a scored one: the moves and their order
    /// are kept exactly, each entry gets the default "unscored" score.
    pub fn from_plain(mv_list: &MoveList) -> (r: ScoringMoveList)
        requires
            mv_list.wf(),
        ensures
            r.wf(),
            r@ == mv_list@.map(|k: int, m: BitMove| ScoringMove::spec_new(m)),
    {
        let mut r = ScoringMoveList::default();
        let mut i: usize = 0;
        let n = mv_list.len();
        while i < n
            invariant
                r.wf(),
                mv_list.wf(),
                i <= n,
                n == mv_list@.len(),
                r@ == mv_list@.take(i as int).map(|k: int, m: BitMove| ScoringMove::spec_new(m)),
            decreases n - i,
        {
            let m = mv_list.get(i);
            r.push(m);
            proof {
                assert(r@ =~= mv_list@.take(i + 1).map(|k: int, m: BitMove| ScoringMove::spec_new(m)));
            }
            i = i + 1;
        }
        proof {
            assert(mv_list@.take(n as int) =~= mv_list@);
        }
        r
    }
}

/// A borrowing iterator over a [`ScoringMoveList`]: yields the entries
/// below the length in index order, reports its exact remaining count, and
/// keeps reporting exhaustion once done.
pub struct ScoreMoveIter<'a> {
    movelist: &'a ScoringMoveList,
    idx: usize,
}

impl<'a> ScoreMoveIter<'a> {
    /// The iterator points into the list it borrows.
    pub closed spec fn iter_wf(&self) -> bool {
        self.movelist.wf() && self.idx <= self.movelist.spec_len()
    }

    /// The entries not yet yielded, in the order they will come.
    pub closed spec fn remaining(&self) -> Seq<ScoringMove> {
        self.movelist@.skip(self.idx as int)
    }

    /// The next entry, or `None` once every entry below the length has
    /// been yielded; stays `None` from then on.
    pub fn next(&mut self) -> (r: Option<ScoringMove>)
        requires
            old(self).iter_wf(),
        ensures
            final(self).iter_wf(),
            old(self).remaining().len() == 0 ==> r is None && *final(self) == *old(self),
            old(self).remaining().len() > 0 ==> r == Some(old(self).remaining()[0])
                && final(self).remaining() == old(self).remaining().skip(1),
    {
        if self.idx >= self.movelist.len {
            None
        } else {
            let m = self.movelist.inner[self.idx];
            self.idx = self.idx + 1;
            proof {
                assert(final(self).remaining() =~= old(self).remaining().skip(1));
            }
            Some(m)
        }
    }

    /// The exact number of entries still to come, as both bounds.
    pub fn size_hint(&self) -> (r: (usize, Option<usize>))
        requires
            self.iter_wf(),
        ensures
            r.0 == self.remaining().len(),
            r.1 == Some(r.0),
    {
        let n = self.movelist.len - self.idx;
        (n, Some(n))
    }
}

/// A consuming iterator over a [`ScoringMoveList`]: the same order and
/// exhaustion behavior as the borrowing one, owning the list.
pub struct ScoreMoveIntoIter {
    movelist: ScoringMoveList,
    idx: usize,
}

impl ScoreMoveIntoIter {
    /// The iterator points into the list it owns.
    pub closed spec fn iter_wf(&self) -> bool {
        self.movelist.wf() && self.idx <= self.movelist.spec_len()
    }

    /// The entries not yet yielded, in the order they will come.
    pub closed spec fn remaining(&self) -> Seq<ScoringMove> {
        self.movelist@.skip(self.idx as int)
    }

    /// The next entry, or `None` once every entry below the length has
    /// been yielded; stays `None` from then on.
    pub fn next(&mut self) -> (r: Option<ScoringMove>)
        requires
            old(self).iter_wf(),
        ensures
            final(self).iter_wf(),
            old(self).remaining().len() == 0 ==> r is None && *final(self) == *old(self),
            old(self).remaining().len() > 0 ==> r == Some(old(self).remaining()[0])
                && final(self).remaining() == old(self).remaining().skip(1),
    {
        if self.idx >= self.movelist.len {
            None
        } else {
            let m = self.movelist.inner[self.idx];
            self.idx = self.idx + 1;
            proof {
                assert(final(self).remaining() =~= old(self).remaining().skip(1));
            }
            Some(m)
        }
    }

    /// The exact number of entries still to come, as both bounds.
    pub fn size_hint(&self) -> (r: (usize, Option<usize>))
        requires
            self.iter_wf(),
        ensures
            r.0 == self.remaining().len(),
            r.1 == Some(r.0),
    {
        let n = self.movelist.len - self.idx;
        (n, Some(n))
    }
}

/// Scoring a plain buffer's moves and stripping the scores off again is
/// the identity on the moves: order and values preserved, the scores are
/// discarded and re-defaulted without ever touching the plain round trip.
pub proof fn lemma_plain_scored_round_trip(v: Seq<BitMove>)
    ensures
        v.map(|k: int, m: BitMove| ScoringMove::spec_new(m)).map(
            |k: int, e: ScoringMove| e.bit_move,
        ) == v,
{
    assert(v.map(|k: int, m: BitMove| ScoringMove::spec_new(m)).map(
        |k: int, e: ScoringMove| e.bit_move,
    ) =~= v);
}

impl Default for ScoringMoveList {
    /// An empty list; every storage slot holds the null move, unscored.
    fn default() -> (r: Self)
        ensures
            r.wf(),
            r@ == Seq::<ScoringMove>::empty(),
            r.spec_len() == 0,
    {
        let list = ScoringMoveList {
            inner: [ScoringMove { bit_move: BitMove { data: 0 }, score: crate::moves::UNSCORED }; 256],
            len: 0,
        };
        assert(list@ =~= Seq::<ScoringMove>::empty());
        list
    }
}

impl MVPushable for ScoringMoveList {
    type Entry = ScoringMove;

    /// A push writes the move with the default "unscored" score.
    open spec fn entry_of(mv: BitMove) -> ScoringMove {
        ScoringMove::spec_new(mv)
    }

    /// The move half of a scored slot.
    open spec fn entry_move(e: ScoringMove) -> BitMove {
        e.bit_move
    }

    /// Overwriting the move of a scored slot keeps the slot's score: the
    /// batch path writes moves only, exactly as the scalar encoder lays
    /// them out, and leaves the score bytes to be filled later.
    open spec fn with_move(e: ScoringMove, mv: BitMove) -> ScoringMove {
        ScoringMove { bit_move: mv, score: e.score }
    }

    /// Same bound as [`ScoringMoveList::wf`].
    closed spec fn list_wf(&self) -> bool {
        self.len <= MAX_MOVES
    }

    closed spec fn spec_stored(&self) -> Seq<ScoringMove> {
        self.inner@
    }

    closed spec fn spec_len(&self) -> int {
        self.len as int
    }

    proof fn entry_laws(e: ScoringMove, mv: BitMove) {
    }

    proof fn stored_laws(&self) {
    }

    fn push_mv(&mut self, mv: BitMove) {
        if self.len < MAX_MOVES {
            self.unchecked_push_mv(mv);
        }
    }

    fn unchecked_push_mv(&mut self, mv: BitMove) {
        self.inner[self.len] = ScoringMove::new(mv);
        self.len = self.len + 1;
    }

    fn unchecked_set_len(&mut self, len: usize) {
        self.len = len;
    }

    fn list_ptr(&self) -> usize {
        0
    }

    fn over_bounds_ptr(&self) -> usize {
        self.len
    }

    fn avx_append(&mut self, at: usize, src: u8, dst: &mut BitBoard, flags: u16) -> (end: usize) {
        let ghost sqs = squares(old(dst).0);
        let ghost encs = encoded_moves(src, old(dst).0, flags);
        let ghost orig_stored = self.inner@;
        let mut i: usize = at;
        while !dst.is_empty()
            invariant
                self.len == old(self).len,
                self.len <= MAX_MOVES,
                src < 64,
                flags < 16,
                at <= i,
                sqs == squares(old(dst).0),
                encs == encoded_moves(src, old(dst).0, flags),
                encs.len() == sqs.len(),
                at + encs.len() <= 256,
                i - at + dst@.len() == encs.len(),
                dst@ == sqs.skip(i - at),
                orig_stored.len() == 256,
                forall|j: int|
                    0 <= j < 256 && !(at <= j < i) ==> self.inner@[j] == orig_stored[j],
                forall|j: int|
                    at <= j < i ==> self.inner@[j] == (ScoringMove {
                        bit_move: encs[j - at],
                        score: orig_stored[j].score,
                    }),
            decreases dst@.len(),
        {
            let sq = match dst.pop_some_lsb() {
                Some(s) => s,
                None => unreached(),
            };
            assert(sq == sqs[i - at]);
            let mv = BitMove::make(flags, src, sq);
            let cur = self.inner[i];
            self.inner[i] = ScoringMove { bit_move: mv, score: cur.score };
            proof {
                assert(sqs.skip(i - at).skip(1) =~= sqs.skip(i - at + 1));
            }
            i = i + 1;
        }
        i
    }
}

/// The portable scalar fallback of the batch append: pops the destination
/// set's members in ascending square order and pushes one encoded move per
/// member, through the shared push capability.  The equivalence law
/// [`lemma_vectorized_matches_scalar`] ties its outcome to the batch
/// path's.
pub fn scalar_append<L: MVPushable>(list: &mut L, src: u8, dst: &mut BitBoard, flags: u16)
    requires
        old(list).list_wf(),
        src < 64,
        flags < 16,
    ensures
        final(list).list_wf(),
        (final(list).spec_stored(), final(list).spec_len()) == pushed_stored::<L>(
            old(list).spec_stored(),
            old(list).spec_len(),
            encoded_moves(src, old(dst).0, flags),
        ),
        final(dst)@.len() == 0,
{
    let ghost sqs = squares(old(dst).0);
    let ghost encs = encoded_moves(src, old(dst).0, flags);
    let ghost mut k: int = 0;
    while !dst.is_empty()
        invariant
            list.list_wf(),
            src < 64,
            flags < 16,
            sqs == squares(old(dst).0),
            encs == encoded_moves(src, old(dst).0, flags),
            encs.len() == sqs.len(),
            0 <= k <= encs.len(),
            dst@ == sqs.skip(k),
            (list.spec_stored(), list.spec_len()) == pushed_stored::<L>(
                old(list).spec_stored(),
                old(list).spec_len(),
                encs.take(k),
            ),
        decreases dst@.len(),
    {
        let sq = match dst.pop_some_lsb() {
            Some(s) => s,
            None => unreached(),
        };
        assert(sq == sqs[k]);
        let mv = BitMove::make(flags, src, sq);
        proof {
            lemma_pushed_stored_snoc::<L>(
                old(list).spec_stored(),
                old(list).spec_len(),
                encs.take(k),
                encs[k],
            );
            assert(encs.take(k).push(encs[k]) =~= encs.take(k + 1));
            assert(sqs.skip(k).skip(1) =~= sqs.skip(k + 1));
        }
        list.push_mv(mv);
        proof {
            k = k + 1;
        }
    }
    proof {
        assert(encs.take(k) =~= encs);
    }
}

} // verus!
