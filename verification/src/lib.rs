//! Doomslug: when a validator approves blocks, and when enough others have approved one for it to be
//! produced.
//!
//! `doomslugs` is where to start. It issues approvals as time passes (`timer`) and collects those of
//! others, by height (`height`) and by block (`tracker`), with the stake behind them (`stakes`).
//! `laws` says what holds over several steps.
pub mod clock;
pub mod doomslugs;
pub mod duration;
pub mod hash;
pub mod height;
pub mod keys;
pub mod laws;
pub mod model;
pub mod stakes;
pub mod timer;
pub mod tracker;
