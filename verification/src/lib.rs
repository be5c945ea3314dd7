//! Locate the nearest fleet config file by walking up from a directory.
//!
//! Every fleet library is configured by a dotfile that belongs at the root of
//! the repository it governs: `.ores-mw.toml`, `.ores-rl.toml`, and so on. A
//! process does not necessarily run from that root. So discovery walks upward
//! from the starting directory and takes the **first** match: nearest wins,
//! which is what makes a nested override work at all.
//!
//! Two boundaries stop the walk. A config above the repository belongs to
//! nobody, and letting it in would let an unrelated parent checkout or a
//! home-directory file govern the process.
//!
//! * The walk ends at the first **repository root**, a directory that holds a
//!   `.git` entry. That directory is searched; its parents are not.
//! * Outside any repository the walk ends at the home directory, or at the
//!   bound that the caller gives.
//!
//! A config found somewhere other than a repository root is usually a stray copy
//! that shadows the real one. It is honoured, and it is reported. A symlinked
//! candidate is refused outright, and a path that cannot be resolved or
//! inspected is an error, never an absent config.
//!
//! Discovery decides; it does no input or output itself. A search is a
//! [`Step`]: it is done, or it asks for one thing, and goes on with the answer.
//! ```text
//! match step {
//!     Step::Done(outcome) => ...
//!     Step::Ask(inquiry) => step = inquiry.resume(answer to inquiry.request()),
//! }
//! ```
//! What a search asks and what it concludes is stated, for every world that may
//! answer it, by the `*_script` functions of [`search`] and [`batch`]. [`laws`]
//! and [`batch_laws`] say what holds of every search, [`batch_lookup_laws`] what
//! a batch looks up for each of its names, [`start_laws`] and
//! [`batch_start_laws`] what holds of two: that the same config is found from
//! whichever subdirectory the process runs in.
//!
//! What all this means to a caller is told without scripts. [`search_meaning`] and
//! [`batch_meaning`] say what a search gives from what stands at which path;
//! [`part_laws`], [`run_laws`] and [`batch_run_laws`] say what the calls give, from
//! the first one to the last answer.

pub mod batch;
pub mod batch_laws;
pub mod batch_lookup_laws;
pub mod batch_meaning;
pub mod batch_run_laws;
pub mod batch_start_laws;
pub mod candidate;
pub mod dialogue;
pub mod laws;
pub mod name;
pub mod part_laws;
pub mod path;
pub mod report;
pub mod resolve;
pub mod run_laws;
pub mod search;
pub mod search_meaning;
pub mod start_laws;

pub use batch::{
    discover_many, discover_many_bounded, discover_many_from, BatchInquiry, BatchResult,
    BatchSearch, BatchStep,
};
pub use dialogue::{Answer, Request};
pub use path::PathParts;
pub use report::{DiscoveryError, EntryKind, ErrorKind, GitMarker, Located};
pub use search::{
    locate, locate_and_report, locate_and_report_from, locate_bounded, locate_from, Inquiry, Search,
    Step, MAX_ANCESTORS,
};
