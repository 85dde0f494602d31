use pleco_core::BitBoard;
use pleco_core::BitMove;
use pleco_core::Board;
use pleco_core::CheckState;
use pleco_core::EngineGlobals;
use pleco_core::InCheck;
use pleco_core::Limits;
use pleco_core::NoCheck;
use pleco_core::NonPV;
use pleco_core::PV;
use pleco_core::PVNode;
use pleco_core::consts::DEFAULT_TT_SIZE;
use pleco_core::moves::UNSCORED;
use pleco_core::ScoringMove;

#[test]
fn init_globals_builds_cache_once() {
    let mut g = EngineGlobals::new();
    assert!(g.global_board().is_none());
    assert!(g.global_limit().is_none());
    g.init_globals();
    let first = *g.tt();
    assert_eq!(first.size, DEFAULT_TT_SIZE);
    g.init_globals();
    let second = *g.tt();
    assert_eq!(first, second);
}

#[test]
fn board_slot_set_get_clear() {
    let mut g = EngineGlobals::new();
    let board = Board { key: 0xDEAD_BEEF_u64 };
    g.set_board(board);
    assert_eq!(g.global_board(), Some(board));
    g.clear_board();
    assert_eq!(g.global_board(), None);
}

#[test]
fn limit_slot_set_get() {
    let mut g = EngineGlobals::new();
    let limits = Limits { depth: 12, nodes: 1_000_000, movetime: 5_000, infinite: false };
    g.set_limit(limits);
    assert_eq!(g.global_limit(), Some(limits));
    let board = Board { key: 7 };
    g.set_board(board);
    assert_eq!(g.global_limit(), Some(limits));
    assert_eq!(g.global_board(), Some(board));
}

#[test]
fn marker_tags_resolve() {
    assert!(PV::is_pv());
    assert!(!NonPV::is_pv());
    assert!(InCheck::in_check());
    assert!(!NoCheck::in_check());
}

#[test]
fn encoded_move_fields() {
    let mv = BitMove::make(3, 12, 20);
    assert_eq!(mv.data, 3 * 4096 + 20 * 64 + 12);
    assert_eq!(mv.get_src(), 12);
    assert_eq!(mv.get_dest(), 20);
    assert_eq!(mv.flag(), 3);
    assert_eq!(BitMove::null().data, 0);
}

#[test]
fn scoring_move_defaults() {
    let mv = BitMove::make(0, 6, 14);
    let scored = ScoringMove::new(mv);
    assert_eq!(scored.bitmove(), mv);
    assert_eq!(scored.score(), UNSCORED);
    let d = ScoringMove::default();
    assert_eq!(d.bit_move, BitMove::null());
    assert_eq!(d.score, UNSCORED);
}

#[test]
fn destination_set_pops_ascending() {
    let mut bb = BitBoard((1u64 << 5) | (1u64 << 0) | (1u64 << 63));
    assert!(!bb.is_empty());
    assert_eq!(bb.pop_some_lsb(), Some(0));
    assert_eq!(bb.pop_some_lsb(), Some(5));
    assert_eq!(bb.pop_some_lsb(), Some(63));
    assert!(bb.is_empty());
    assert_eq!(bb.pop_some_lsb(), None);
}
