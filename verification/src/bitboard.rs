//! The destination set: a 64-bit set of board squares.
//!
//! The batch-append path consumes such a set destructively by repeatedly
//! removing its lowest-numbered member.  The set's mathematical model is
//! [`squares`], the ascending sequence of its members, and the one
//! extraction primitive is proved against that model.

use vstd::prelude::*;
use vstd::std_specs::bits::axiom_u64_trailing_zeros;
use vstd::std_specs::bits::u64_trailing_zeros;

verus! {

/// Whether square `s` is a member of the set `bits`.
pub open spec fn has_sq(bits: u64, s: int) -> bool {
    0 <= s < 64 && (bits >> (s as u64)) & 1u64 == 1u64
}

/// The members of `bits` that are `>= i`, in ascending order.
pub open spec fn squares_from(bits: u64, i: int) -> Seq<u8>
    decreases 64 - i,
{
    if i < 0 || i >= 64 {
        Seq::empty()
    } else if has_sq(bits, i) {
        seq![i as u8] + squares_from(bits, i + 1)
    } else {
        squares_from(bits, i + 1)
    }
}

/// The members of the set, in ascending square order.
pub open spec fn squares(bits: u64) -> Seq<u8> {
    squares_from(bits, 0)
}

/// A set with no members from `i` up to `k` lists the same members from `i`
/// as from `k`.
proof fn lemma_squares_from_skip_zeros(bits: u64, i: int, k: int)
    requires
        0 <= i <= k <= 64,
        forall|j: int| i <= j < k ==> !has_sq(bits, j),
    ensures
        squares_from(bits, i) == squares_from(bits, k),
    decreases k - i,
{
    if i < k {
        lemma_squares_from_skip_zeros(bits, i + 1, k);
    }
}

/// Two sets that agree on every square from `i` up list the same members
/// from `i`.
proof fn lemma_squares_from_agree(b1: u64, b2: u64, i: int)
    requires
        forall|j: int| i <= j < 64 ==> has_sq(b1, j) == has_sq(b2, j),
    ensures
        squares_from(b1, i) == squares_from(b2, i),
    decreases 64 - i,
{
    if 0 <= i < 64 {
        lemma_squares_from_agree(b1, b2, i + 1);
    }
}

/// The empty set lists no members.
pub proof fn lemma_no_squares()
    ensures
        squares(0u64) == Seq::<u8>::empty(),
{
    assert forall|j: int| 0 <= j < 64 implies !has_sq(0u64, j) by {
        let q = j as u64;
        assert(q < 64 ==> (0u64 >> q) & 1u64 == 0u64) by (bit_vector);
    }
    lemma_squares_from_skip_zeros(0u64, 0, 64);
}

/// The set with the member `t` removed.
pub open spec fn without_sq(bits: u64, t: u64) -> u64
    recommends
        t < 64,
{
    bits ^ (1u64 << t)
}

/// Removing the lowest member of a non-empty set takes the head off its
/// member sequence: the head is the number of trailing zeros of `bits`,
/// and flipping that bit off leaves exactly the tail.
proof fn lemma_pop_lowest(bits: u64)
    requires
        bits != 0,
    ensures
        u64_trailing_zeros(bits) < 64,
        squares(bits).len() > 0,
        squares(bits)[0] == u64_trailing_zeros(bits) as u8,
        squares(without_sq(bits, u64_trailing_zeros(bits) as u64)) == squares(bits).skip(1),
{
    axiom_u64_trailing_zeros(bits);
    let t = u64_trailing_zeros(bits) as u64;
    let rest = without_sq(bits, t);
    assert(t < 64);
    // Flipping bit t off clears exactly that bit and leaves every other.
    assert forall|j: u64| j < 64 implies (rest >> j) & 1u64 == (if j == t {
        0u64
    } else {
        (bits >> j) & 1u64
    }) by {
        assert((t < 64 && j < 64 && (bits >> t) & 1u64 == 1u64) ==> ((bits ^ (1u64 << t)) >> j)
            & 1u64 == (if j == t {
            0u64
        } else {
            (bits >> j) & 1u64
        })) by (bit_vector);
    }
    // Below t both sets are empty, so both member lists start at t.
    lemma_squares_from_skip_zeros(bits, 0, t as int);
    lemma_squares_from_skip_zeros(rest, 0, t as int + 1);
    // Above t the two sets agree.
    lemma_squares_from_agree(bits, rest, t as int + 1);
    assert(squares_from(bits, t as int) == seq![t as u8] + squares_from(bits, t as int + 1));
    assert(squares(bits) == seq![t as u8] + squares_from(rest, t as int + 1));
    assert(squares(bits).skip(1) =~= squares_from(rest, t as int + 1));
}

/// A 64-bit set of board squares, one bit per square.
#[derive(Clone, Copy, PartialEq, Eq, Structural, Debug)]
pub struct BitBoard(pub u64);

impl BitBoard {
    /// The members of the set, lowest square first.
    pub open spec fn view(self) -> Seq<u8> {
        squares(self.0)
    }

    /// True when the set has no members.
    pub fn is_empty(self) -> (r: bool)
        ensures
            r <==> self@.len() == 0,
    {
        proof {
            if self.0 != 0 {
                lemma_pop_lowest(self.0);
            } else {
                lemma_no_squares();
            }
        }
        self.0 == 0
    }

    /// Removes and returns the lowest-numbered member, or reports an empty
    /// set.  This is the extraction primitive the batch append consumes a
    /// destination set with.
    pub fn pop_some_lsb(&mut self) -> (r: Option<u8>)
        ensures
            old(self)@.len() == 0 ==> r is None && *final(self) == *old(self),
            old(self)@.len() > 0 ==> r == Some(old(self)@[0]) && final(self)@ == old(
                self,
            )@.skip(1) && old(self)@[0] < 64,
    {
        if self.0 == 0 {
            proof {
                lemma_no_squares();
            }
            return None;
        }
        proof {
            lemma_pop_lowest(self.0);
        }
        let t: u32 = self.0.trailing_zeros();
        self.0 = self.0 ^ (1u64 << (t as u64));
        Some(t as u8)
    }
}

} // verus!
