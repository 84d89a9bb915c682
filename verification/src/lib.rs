//! Logic of an Aleo mining pool: the stratum message model, the PPLNS
//! share window, prover bookkeeping, share checks and the small caches and
//! rate meters the pool server is built from.

pub mod cache;
pub mod clock;
pub mod pool;
pub mod speedometer;
pub mod stratum;
