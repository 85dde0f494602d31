//! Engine bootstrap state and compile-time marker tags.
//!
//! The process-wide state a search consults at startup: a shared lookup
//! cache built exactly once, an "active position" slot and an "active
//! limits" slot.  Here that state is an explicit value with an idempotent
//! one-time construction and wholesale set/get/clear on the two slots; the
//! surrounding program owns the single process-wide instance and the
//! single-writer/multi-reader convention for it.

use vstd::prelude::*;

verus! {

/// The deepest ply the search will reach.
pub const MAX_PLY: u16 = 126;

/// Slots a per-thread stack must provide: `MAX_PLY` plus head room.
pub const THREAD_STACK_SIZE: usize = 133;

/// The most search threads the engine will spawn.
pub const MAX_THREADS: usize = 256;

/// The size the shared lookup cache is first built with.
pub const DEFAULT_TT_SIZE: usize = 256;

/// Entries in the per-thread pawn evaluation table.
pub const PAWN_TABLE_SIZE: usize = 16384;

/// Entries in the per-thread material evaluation table.
pub const MATERIAL_TABLE_SIZE: usize = 8192;

/// The currently searched position, reduced to the plain values this layer
/// stores: an identifying key.  The board's internal representation belongs
/// to the position component, not to the bootstrap state, which only holds
/// and hands back the value.
#[derive(Clone, Copy, PartialEq, Eq, Structural, Debug)]
pub struct Board {
    pub key: u64,
}

/// The limits the active search runs under, as plain values.
#[derive(Clone, Copy, PartialEq, Eq, Structural, Debug)]
pub struct Limits {
    /// Maximum depth in plies; zero means unlimited.
    pub depth: u16,
    /// Maximum nodes to visit; zero means unlimited.
    pub nodes: u64,
    /// Milliseconds the search may take; zero means unlimited.
    pub movetime: u64,
    /// Search until stopped, ignoring the other limits.
    pub infinite: bool,
}

/// The shared lookup cache, seen from the bootstrap layer: its lifecycle is
/// in scope here, its entry format and replacement policy are not.
#[derive(Clone, Copy, PartialEq, Eq, Structural, Debug)]
pub struct TransTable {
    /// The size the cache was constructed with.
    pub size: usize,
}

impl TransTable {
    /// Builds a cache of the given size.
    pub fn new(size: usize) -> (r: TransTable)
        ensures
            r.size == size,
    {
        TransTable { size }
    }
}

/// The engine's bootstrap state: the cache singleton and the two context
/// slots.
pub struct EngineGlobals {
    /// Whether the one-time initialization has run.
    pub initialized: bool,
    /// The shared cache; present exactly once initialization has run.
    pub cache: Option<TransTable>,
    /// The active-position slot.
    pub position: Option<Board>,
    /// The active-limits slot.
    pub limit: Option<Limits>,
}

impl EngineGlobals {
    /// The cache is present if and only if initialization has run.
    pub open spec fn wf(self) -> bool {
        self.initialized <==> self.cache is Some
    }

    /// What one round of initialization leaves behind: the first call
    /// builds the cache, every later call changes nothing.
    pub open spec fn spec_init(self) -> EngineGlobals {
        if self.initialized {
            self
        } else {
            EngineGlobals {
                initialized: true,
                cache: Some(TransTable { size: DEFAULT_TT_SIZE }),
                ..self
            }
        }
    }

    /// The state before any initialization: nothing built, both slots empty.
    pub fn new() -> (r: EngineGlobals)
        ensures
            r.wf(),
            !r.initialized,
            r.cache is None,
            r.position is None,
            r.limit is None,
    {
        EngineGlobals { initialized: false, cache: None, position: None, limit: None }
    }

    /// One-time initialization: builds the shared cache on the first call
    /// and does nothing on every later one.
    pub fn init_globals(&mut self)
        requires
            old(self).wf(),
        ensures
            final(self).wf(),
            *final(self) == old(self).spec_init(),
            final(self).initialized,
    {
        if !self.initialized {
            self.initialized = true;
            self.cache = Some(TransTable::new(DEFAULT_TT_SIZE));
        }
    }

    /// The shared cache, after initialization has run.
    pub fn tt(&self) -> (r: &TransTable)
        requires
            self.wf(),
            self.initialized,
        ensures
            Some(*r) == self.cache,
    {
        match &self.cache {
            Some(tt) => tt,
            None => unreached(),
        }
    }

    /// What setting the active limits leaves behind.
    pub open spec fn spec_set_limit(self, limit: Limits) -> EngineGlobals {
        EngineGlobals { limit: Some(limit), ..self }
    }

    /// What setting the active position leaves behind.
    pub open spec fn spec_set_board(self, board: Board) -> EngineGlobals {
        EngineGlobals { position: Some(board), ..self }
    }

    /// What clearing the active position leaves behind.
    pub open spec fn spec_clear_board(self) -> EngineGlobals {
        EngineGlobals { position: None, ..self }
    }

    /// A copy of the active limits, or their absence.
    pub fn global_limit(&self) -> (r: Option<Limits>)
        ensures
            r == self.limit,
    {
        self.limit
    }

    /// Overwrites the active-limits slot wholesale.
    pub fn set_limit(&mut self, limit: Limits)
        ensures
            *final(self) == old(self).spec_set_limit(limit),
            final(self).limit == Some(limit),
    {
        self.limit = Some(limit);
    }

    /// A copy of the active position, or its absence.
    pub fn global_board(&self) -> (r: Option<Board>)
        ensures
            r == self.position,
    {
        self.position
    }

    /// Overwrites the active-position slot wholesale.
    pub fn set_board(&mut self, board: Board)
        ensures
            *final(self) == old(self).spec_set_board(board),
            final(self).position == Some(board),
    {
        self.position = Some(board);
    }

    /// Empties the active-position slot.
    pub fn clear_board(&mut self)
        ensures
            *final(self) == old(self).spec_clear_board(),
            final(self).position == None::<Board>,
    {
        self.position = None;
    }
}

/// However many callers run initialization in turn, the cache is the one
/// built by the first of them: a second round changes nothing.
pub proof fn lemma_init_idempotent(g: EngineGlobals)
    ensures
        g.spec_init().spec_init() == g.spec_init(),
        g.spec_init().initialized,
{
}

/// The slot protocol: clearing the active-position slot makes a following
/// read report absence; setting a value makes a following read return
/// exactly that value, and neither touches the other slot or the cache.
pub proof fn lemma_slot_protocol(g: EngineGlobals, b: Board, l: Limits)
    ensures
        g.spec_clear_board().position is None,
        g.spec_set_board(b).position == Some(b),
        g.spec_set_limit(l).limit == Some(l),
        g.spec_set_board(b).limit == g.limit,
        g.spec_set_board(b).cache == g.cache,
        g.spec_clear_board().limit == g.limit,
        g.spec_clear_board().cache == g.cache,
        g.spec_set_limit(l).position == g.position,
        g.spec_set_limit(l).cache == g.cache,
{
}

/// Whether a node lies on the principal variation, resolved at compile
/// time through the implementing tag type.
pub trait PVNode {
    /// The answer the tag stands for.
    spec fn spec_is_pv() -> bool;

    /// Whether this is a principal-variation node.
    fn is_pv() -> (r: bool)
        ensures
            r == Self::spec_is_pv(),
    ;
}

/// Tag for nodes on the principal variation.
pub struct PV {}

/// Tag for nodes off the principal variation.
pub struct NonPV {}

impl PVNode for PV {
    open spec fn spec_is_pv() -> bool {
        true
    }

    fn is_pv() -> bool {
        true
    }
}

impl PVNode for NonPV {
    open spec fn spec_is_pv() -> bool {
        false
    }

    fn is_pv() -> bool {
        false
    }
}

/// Whether the side to move is in check, resolved at compile time through
/// the implementing tag type.
pub trait CheckState {
    /// The answer the tag stands for.
    spec fn spec_in_check() -> bool;

    /// Whether the side to move is in check.
    fn in_check() -> (r: bool)
        ensures
            r == Self::spec_in_check(),
    ;
}

/// Tag for positions where the side to move is in check.
pub struct InCheck {}

/// Tag for positions where the side to move is not in check.
pub struct NoCheck {}

impl CheckState for InCheck {
    open spec fn spec_in_check() -> bool {
        true
    }

    fn in_check() -> bool {
        true
    }
}

impl CheckState for NoCheck {
    open spec fn spec_in_check() -> bool {
        false
    }

    fn in_check() -> bool {
        false
    }
}

} // verus!
