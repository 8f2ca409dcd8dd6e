//! Beat-synchronised grid puzzle engine: a player token and wind-driven
//! clouds on a bounded board, with push chains, a tempo-locked clock, a
//! rotating cloud director and loss detection.
pub mod clock;
pub mod director;
pub mod grid;
pub mod logic;
pub mod player;
