//! Verified search for a private key whose compressed public key hashes to a
//! known 20-byte digest, over a bounded interval of candidate scalars.

pub mod bignat;
pub mod curve;
pub mod puzzle;
pub mod speed_checker;

pub use bignat::BigNat;
pub use curve::CurveContext;
pub use puzzle::{Mode, Puzzle, PuzzleError, PuzzleJson, ScanWindow, SearchResult};
pub use speed_checker::SpeedChecker;
