//! A multi-block election verifier.
//!
//! A large electorate is frozen into a paged snapshot: one global list of
//! targets, and one page of voters per block of processing.  An off-chain
//! miner proposes a paged solution together with a claimed score; the
//! verifier consumes one page per tick, converts each compact page into a
//! bounded support map, and finally recomputes the aggregate score from the
//! per-page backings.  Only a solution whose every page is feasible and whose
//! recomputed score matches the claim becomes the queued solution.
//!
//! The crate is organised around the pieces of that pipeline:
//! * [`types`] — plain data: supports, partial backings, errors, phases;
//! * [`score`] — election scores, their ordering and their evaluation;
//! * [`snapshot`] — the frozen electorate one round works against;
//! * [`solution`] — paged, index-encoded solutions and their conversion
//!   into supports (the per-page feasibility check);
//! * [`queued`] — the double-buffered store holding the queued solution;
//! * [`pallet`] — the per-tick verifier state machine and its force paths;
//! * [`laws`] — proofs of the global properties the pipeline maintains;
//! * [`miner`] — a reference miner producing feasible solutions;
//! * [`mock`] — a self-contained fixture runtime used by the tests.

pub mod types;

pub mod score;

pub mod queued;

pub mod snapshot;

pub mod solution;

pub mod pallet;

pub mod laws;

pub mod miner;

pub mod mock;
