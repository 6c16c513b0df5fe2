//! A verified draw service: a bounded pseudorandom integer in `[1, 100000]`,
//! mixed from several weak entropy sources with a two-round BLAKE3 chain,
//! reduced without modulo bias by rejection sampling, and stored per caller.
pub mod bytes;
pub mod digest;
pub mod reduce;
pub mod store;
pub mod draw;

pub use bytes::Identity;
pub use draw::{
    authorize, collect, generate_random, settle, AccessPolicy, Draw, Error, Outcome, Random,
    TimeReading, MAX_UID_LEN,
};
pub use reduce::{reduce_digest, MAX_SAFE, RANGE};
pub use store::{derive_key, LotteryResult, ResultStore};
