use pleco_core::BitBoard;
use pleco_core::BitMove;
use pleco_core::MVPushable;
use pleco_core::MoveList;
use pleco_core::ScoringMove;
use pleco_core::ScoringMoveList;
use pleco_core::move_list::batch_append;
use pleco_core::move_list::scalar_append;
use pleco_core::moves::UNSCORED;

#[test]
fn check_avx2() {
    // File B of the board: squares 1, 9, 17, 25, 33, 41, 49, 57.
    let mut list = MoveList::default();
    let mut bb = BitBoard(0x0202020202020202);
    let end = list.avx_append(0, 0, &mut bb, 0b1111);
    assert_eq!(end, 8);
    assert!(bb.is_empty());
}

#[test]
fn push_keeps_count_and_order() {
    let mut list = MoveList::default();
    assert!(list.is_empty());
    let mut expected = Vec::new();
    for i in 0..40u8 {
        let mv = BitMove::make(0, i % 64, (i + 1) % 64);
        expected.push(mv);
        list.push(mv);
    }
    assert_eq!(list.len(), 40);
    let mut it = list.iter();
    for mv in &expected {
        assert_eq!(it.next(), Some(*mv));
    }
    assert_eq!(it.next(), None);
    assert_eq!(it.next(), None);
}

#[test]
fn push_past_capacity_is_noop() {
    let mut list = MoveList::default();
    for i in 0..256u32 {
        list.push(BitMove::make(0, (i % 64) as u8, ((i / 64) % 64) as u8));
    }
    assert_eq!(list.len(), 256);
    let before = list.vec();
    list.push(BitMove::make(15, 63, 63));
    assert_eq!(list.len(), 256);
    let after = list.vec();
    assert_eq!(before, after);
    for i in 0..256usize {
        assert_eq!(list.get(i), before[i]);
    }
}

#[test]
fn vec_matches_iteration() {
    let mut list = MoveList::default();
    for sq in [3u8, 17, 44] {
        list.push(BitMove::make(0, 9, sq));
    }
    let v = list.vec();
    assert_eq!(v.len(), list.len());
    let mut it = list.iter();
    assert_eq!(it.size_hint(), (3, Some(3)));
    for mv in &v {
        assert_eq!(it.next(), Some(*mv));
    }
    assert_eq!(it.next(), None);
}

#[test]
fn slices_and_indexing() {
    let mut list = MoveList::default();
    let m1 = BitMove::make(0, 12, 20);
    let m2 = BitMove::make(0, 12, 28);
    list.push(m1);
    list.push(m2);
    assert_eq!(list.len(), 2);
    let s = list.as_slice();
    assert_eq!(s.len(), 2);
    assert_eq!(s[0], m1);
    let mut it = list.iter();
    assert_eq!(it.next(), Some(m1));
    assert_eq!(it.next(), Some(m2));
    assert_eq!(it.next(), None);
}

#[test]
fn mutable_slice_writes_land() {
    let mut list = MoveList::default();
    list.push(BitMove::make(0, 1, 2));
    list.push(BitMove::make(0, 3, 4));
    let replacement = BitMove::make(1, 5, 6);
    {
        let s = list.as_mut_slice();
        assert_eq!(s.len(), 2);
        s[0] = replacement;
    }
    assert_eq!(list.len(), 2);
    assert_eq!(list.get(0), replacement);
    assert_eq!(list.get(1), BitMove::make(0, 3, 4));
}

#[test]
fn consuming_iterator_yields_in_order() {
    let mut list = MoveList::default();
    let m1 = BitMove::make(2, 10, 11);
    let m2 = BitMove::make(3, 12, 13);
    list.push(m1);
    list.push(m2);
    let mut it = list.into_iter();
    assert_eq!(it.size_hint(), (2, Some(2)));
    assert_eq!(it.next(), Some(m1));
    assert_eq!(it.size_hint(), (1, Some(1)));
    assert_eq!(it.next(), Some(m2));
    assert_eq!(it.next(), None);
    assert_eq!(it.size_hint(), (0, Some(0)));
}

#[test]
fn from_vec_truncates_past_capacity() {
    let mut moves = Vec::new();
    for i in 0..300u32 {
        moves.push(BitMove::make((i % 16) as u16, (i % 64) as u8, ((i / 5) % 64) as u8));
    }
    let list = MoveList::from_vec(&moves);
    assert_eq!(list.len(), 256);
    for i in 0..256usize {
        assert_eq!(list.get(i), moves[i]);
    }
    let short = MoveList::from_vec(&moves[..7].to_vec());
    assert_eq!(short.len(), 7);
}

#[test]
fn plain_scored_round_trip_is_identity() {
    let mut list = MoveList::default();
    for sq in [0u8, 5, 63] {
        list.push(BitMove::make(4, sq, 63 - sq));
    }
    let scored = ScoringMoveList::from_plain(&list);
    assert_eq!(scored.len(), list.len());
    for i in 0..scored.len() {
        assert_eq!(scored.get(i).score(), UNSCORED);
    }
    let back = MoveList::from_scoring(&scored);
    assert_eq!(back.vec(), list.vec());
}

#[test]
fn scored_to_plain_strips_scores_keeps_moves() {
    let mut scored = ScoringMoveList::default();
    let m1 = BitMove::make(0, 7, 15);
    let m2 = BitMove::make(5, 8, 16);
    scored.push(m1);
    scored.push(m2);
    {
        let s = scored.as_mut_slice();
        s[0] = ScoringMove { bit_move: m1, score: 77 };
        s[1] = ScoringMove { bit_move: m2, score: -3 };
    }
    let plain = MoveList::from_scoring(&scored);
    assert_eq!(plain.len(), 2);
    assert_eq!(plain.get(0), m1);
    assert_eq!(plain.get(1), m2);
}

#[test]
fn scoring_list_views_and_iteration() {
    let mut scored = ScoringMoveList::default();
    assert!(scored.is_empty());
    let m = BitMove::make(1, 2, 3);
    scored.push(m);
    assert_eq!(scored.len(), 1);
    assert_eq!(scored.as_slice()[0].bitmove(), m);
    let v = scored.vec();
    assert_eq!(v.len(), 1);
    assert_eq!(v[0].bit_move, m);
    let mut it = scored.iter();
    assert_eq!(it.next().map(|e| e.bit_move), Some(m));
    assert_eq!(it.next(), None);
    let mut owning = scored.into_iter();
    assert_eq!(owning.next().map(|e| e.bit_move), Some(m));
    assert_eq!(owning.next(), None);
}

#[test]
fn batch_append_example() {
    // Destination set {2, 9, 40}, source square 5, quiet flags.
    let mut list = MoveList::default();
    let mut dst = BitBoard((1u64 << 2) | (1u64 << 9) | (1u64 << 40));
    let at = list.over_bounds_ptr();
    let end = list.avx_append(at, 5, &mut dst, 0b0000);
    assert_eq!(end, 3);
    list.unchecked_set_len(end);
    assert_eq!(list.len(), 3);
    let expect = [(5u8, 2u8, 0u16), (5, 9, 0), (5, 40, 0)];
    for (i, (src, dstsq, flags)) in expect.iter().enumerate() {
        let mv = list.get(i);
        assert_eq!(mv.get_src(), *src);
        assert_eq!(mv.get_dest(), *dstsq);
        assert_eq!(mv.flag(), *flags);
    }
}

#[test]
fn batch_append_matches_scalar_pushes() {
    let set = (1u64 << 3) | (1u64 << 11) | (1u64 << 30) | (1u64 << 59);
    let src = 22u8;
    let flags = 0b0101u16;

    let mut batch = MoveList::default();
    batch.push(BitMove::make(7, 1, 2));
    let mut dst1 = BitBoard(set);
    let at = batch.over_bounds_ptr();
    let end = batch.avx_append(at, src, &mut dst1, flags);
    batch.unchecked_set_len(end);

    let mut scalar = MoveList::default();
    scalar.push(BitMove::make(7, 1, 2));
    let mut dst2 = BitBoard(set);
    scalar_append(&mut scalar, src, &mut dst2, flags);

    assert_eq!(batch.vec(), scalar.vec());
    assert_eq!(batch.len(), 5);
}

#[test]
fn scored_batch_append_matches_scalar_pushes() {
    let set = (1u64 << 0) | (1u64 << 21) | (1u64 << 63);
    let src = 40u8;
    let flags = 0b1100u16;

    let mut batch = ScoringMoveList::default();
    let mut dst1 = BitBoard(set);
    let at = batch.over_bounds_ptr();
    let end = batch.avx_append(at, src, &mut dst1, flags);
    batch.unchecked_set_len(end);

    let mut scalar = ScoringMoveList::default();
    let mut dst2 = BitBoard(set);
    scalar_append(&mut scalar, src, &mut dst2, flags);

    assert_eq!(batch.len(), 3);
    assert_eq!(scalar.len(), 3);
    let a: Vec<BitMove> = batch.vec().iter().map(|e| e.bit_move).collect();
    let b: Vec<BitMove> = scalar.vec().iter().map(|e| e.bit_move).collect();
    assert_eq!(a, b);
}

#[test]
fn generic_batch_append_matches_scalar() {
    let set = (1u64 << 7) | (1u64 << 8) | (1u64 << 55);
    let mut a = MoveList::default();
    let mut dst1 = BitBoard(set);
    batch_append(&mut a, 33, &mut dst1, 0b0010);

    let mut b = MoveList::default();
    let mut dst2 = BitBoard(set);
    scalar_append(&mut b, 33, &mut dst2, 0b0010);

    assert_eq!(a.vec(), b.vec());
    assert_eq!(a.len(), 3);
}

#[test]
fn scoring_from_vec_defaults_scores() {
    let moves = vec![BitMove::make(2, 1, 9), BitMove::make(0, 30, 41)];
    let scored = ScoringMoveList::from_vec(&moves);
    assert_eq!(scored.len(), 2);
    for (i, mv) in moves.iter().enumerate() {
        assert_eq!(scored.get(i).bitmove(), *mv);
        assert_eq!(scored.get(i).score(), UNSCORED);
    }
}

#[test]
fn cursor_primitives() {
    let mut list = MoveList::default();
    assert_eq!(list.list_ptr(), 0);
    assert_eq!(list.over_bounds_ptr(), 0);
    list.unchecked_push_mv(BitMove::make(0, 4, 5));
    assert_eq!(list.over_bounds_ptr(), 1);
    list.unchecked_set_len(0);
    assert!(list.is_empty());
    list.unchecked_set_len(1);
    assert_eq!(list.get(0), BitMove::make(0, 4, 5));
}
