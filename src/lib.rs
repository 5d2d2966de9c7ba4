//! Many-to-one-then-many-out payment pooling: contributors each pay a fixed
//! amount into a job's pool, and the pool is later split across recipients.
use vstd::prelude::*;

pub mod accounts;
pub mod job;
pub mod laws;
pub mod program;
pub mod pubkey;
pub mod qr;
pub mod text;
