//! Text objects for a modal editor: resolving an object code (word,
//! paragraph, syntax node, surrounding pair, diff hunk) against every range
//! of a selection, with the pending-key machine that waits for the code, the
//! matching-bracket jump, whole-line operations and the directory listing.

pub mod range;
pub mod text;
pub mod pairs;
pub mod object;
pub mod lines;
pub mod resolve;
pub mod driver;
pub mod pending;
pub mod jump;
pub mod lineops;
pub mod laws;
pub mod listing;
pub mod removal;
