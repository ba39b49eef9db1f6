pub mod bytes;
pub mod ckb;
pub mod error;
pub mod fields;
pub mod hash;
pub mod keys;
pub mod lock_time;
pub mod messages;
pub mod molecule;
pub mod schema;
