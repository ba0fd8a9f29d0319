//! A per-user "hot or not" prediction-market engine: posts host time-sliced
//! betting tournaments; bettors are grouped into capped rooms, slots close on
//! a wall-clock schedule, winners are tabulated per room, and a one-shot
//! migration handshake can move a user's posts and token balance to another
//! actor.  All state-machine logic is verified; calls into the actor runtime
//! and stable storage stand behind a small trusted boundary.

pub mod bet_flow;
pub mod constant;
pub mod error;
pub mod feed;
pub mod hot_or_not;
pub mod migration;
pub mod omap;
pub mod post;
pub mod reconcile;
pub mod scheduler;
pub mod stable_kv;
pub mod state;
pub mod tabulation;
