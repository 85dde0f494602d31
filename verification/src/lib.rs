//! Fixed-capacity move containers and engine bootstrap state.
//!
//! The core of this crate is a pair of heap-free, fixed-capacity buffers for
//! encoded moves — a plain one and a scored one — that behave like a dynamic
//! ordered sequence while living entirely in inline storage, together with
//! the shared push/cursor capability that generic move-generation code
//! targets, a vectorizable batch-append path proved equivalent to repeated
//! scalar pushes, and a model of the engine's bootstrap state (one-time
//! cache construction, active position and limits slots, and compile-time
//! marker tags).

pub mod bitboard;
pub mod consts;
pub mod move_list;
pub mod moves;

pub use bitboard::BitBoard;
pub use consts::Board;
pub use consts::CheckState;
pub use consts::EngineGlobals;
pub use consts::InCheck;
pub use consts::Limits;
pub use consts::NoCheck;
pub use consts::NonPV;
pub use consts::PV;
pub use consts::PVNode;
pub use consts::TransTable;
pub use move_list::MVPushable;
pub use move_list::MoveIntoIter;
pub use move_list::MoveIter;
pub use move_list::MoveList;
pub use move_list::ScoreMoveIntoIter;
pub use move_list::ScoreMoveIter;
pub use move_list::ScoringMoveList;
pub use moves::BitMove;
pub use moves::ScoringMove;
