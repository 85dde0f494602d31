//! Encoded moves and scored moves.
//!
//! A move is a compact 16-bit code: the source square in the low 6 bits,
//! the destination square in the next 6 bits, and a 4-bit flag field in the
//! top nibble.  A scored move pairs such a code with a signed score whose
//! default is the worst representable value, so unscored entries sort last
//! in descending-score orderings.

use vstd::prelude::*;

verus! {

/// Scale of the destination-square field: one destination step is 64 code units.
pub const DST_SCALE: u16 = 64;

/// Scale of the flag field: one flag step is 4096 code units.
pub const FLAG_SCALE: u16 = 4096;

/// The 16-bit code of a move with the given source square, destination
/// square and flag nibble: `flags(4) | dst(6) | src(6)`.
pub open spec fn move_code(src: u8, dst: u8, flags: u16) -> u16
    recommends
        src < 64,
        dst < 64,
        flags < 16,
{
    (flags * 4096 + dst * 64 + src) as u16
}

/// A compact encoded move: source square, destination square and a flag
/// nibble packed into 16 bits.  Legality of the encoded move is the caller's
/// concern, not this type's.
#[derive(Clone, Copy, PartialEq, Eq, Structural, Debug)]
pub struct BitMove {
    pub data: u16,
}

impl BitMove {
    /// True when the three fields fit their bit widths.
    pub open spec fn fields_valid(src: u8, dst: u8, flags: u16) -> bool {
        src < 64 && dst < 64 && flags < 16
    }

    /// The distinguished "no move" value: the all-zero code.
    pub fn null() -> (r: BitMove)
        ensures
            r.data == 0,
    {
        BitMove { data: 0 }
    }

    /// Packs a source square, a destination square and a flag nibble into
    /// one code.
    pub fn make(flags: u16, src: u8, dst: u8) -> (r: BitMove)
        requires
            BitMove::fields_valid(src, dst, flags),
        ensures
            r.data == move_code(src, dst, flags),
    {
        BitMove { data: flags * FLAG_SCALE + (dst as u16) * DST_SCALE + (src as u16) }
    }

    /// The source square held in the low 6 bits.
    pub open spec fn spec_src(self) -> u8 {
        (self.data % 64) as u8
    }

    /// The destination square held in bits 6 through 11.
    pub open spec fn spec_dst(self) -> u8 {
        ((self.data / 64) % 64) as u8
    }

    /// The flag nibble held in the top 4 bits.
    pub open spec fn spec_flags(self) -> u16 {
        self.data / 4096
    }

    /// Reads the source square back out of the code.
    pub fn get_src(self) -> (r: u8)
        ensures
            r == self.spec_src(),
            r < 64,
    {
        (self.data % 64) as u8
    }

    /// Reads the destination square back out of the code.
    pub fn get_dest(self) -> (r: u8)
        ensures
            r == self.spec_dst(),
            r < 64,
    {
        ((self.data / 64) % 64) as u8
    }

    /// Reads the flag nibble back out of the code.
    pub fn flag(self) -> (r: u16)
        ensures
            r == self.spec_flags(),
            r < 16,
    {
        self.data / 4096
    }
}

/// Packing then unpacking returns the three fields unchanged: the field
/// widths never bleed into one another.
pub proof fn lemma_move_code_fields(src: u8, dst: u8, flags: u16)
    requires
        BitMove::fields_valid(src, dst, flags),
    ensures
        (BitMove { data: move_code(src, dst, flags) }).spec_src() == src,
        (BitMove { data: move_code(src, dst, flags) }).spec_dst() == dst,
        (BitMove { data: move_code(src, dst, flags) }).spec_flags() == flags,
{
    let code = move_code(src, dst, flags) as int;
    assert(code == flags * 4096 + dst * 64 + src);
    assert(code % 64 == src) by (nonlinear_arith)
        requires
            code == flags * 4096 + dst * 64 + src,
            0 <= src < 64,
            0 <= dst < 64,
            0 <= flags < 16,
    ;
    assert((code / 64) % 64 == dst) by (nonlinear_arith)
        requires
            code == flags * 4096 + dst * 64 + src,
            0 <= src < 64,
            0 <= dst < 64,
            0 <= flags < 16,
    ;
    assert(code / 4096 == flags) by (nonlinear_arith)
        requires
            code == flags * 4096 + dst * 64 + src,
            0 <= src < 64,
            0 <= dst < 64,
            0 <= flags < 16,
    ;
}

/// The score given to a move that has not been scored yet: the minimum
/// representable value, so it sorts behind every real score.
pub const UNSCORED: i16 = -32768;

/// An encoded move together with a signed ordering score.
#[derive(Clone, Copy, PartialEq, Eq, Structural, Debug)]
pub struct ScoringMove {
    pub bit_move: BitMove,
    pub score: i16,
}

impl ScoringMove {
    /// The scored form a freshly pushed move takes: the move itself with
    /// the worst possible score.
    pub open spec fn spec_new(mv: BitMove) -> ScoringMove {
        ScoringMove { bit_move: mv, score: UNSCORED }
    }

    /// Wraps a move with the default "unscored" score.
    pub fn new(mv: BitMove) -> (r: ScoringMove)
        ensures
            r == ScoringMove::spec_new(mv),
    {
        ScoringMove { bit_move: mv, score: UNSCORED }
    }

    /// The move without its score.
    pub fn bitmove(self) -> (r: BitMove)
        ensures
            r == self.bit_move,
    {
        self.bit_move
    }

    /// The score attached to the move.
    pub fn score(self) -> (r: i16)
        ensures
            r == self.score,
    {
        self.score
    }
}

impl Default for ScoringMove {
    /// The null move with the default "unscored" score.
    fn default() -> (r: Self)
        ensures
            r.bit_move.data == 0,
            r.score == UNSCORED,
    {
        ScoringMove { bit_move: BitMove { data: 0 }, score: UNSCORED }
    }
}

} // verus!
