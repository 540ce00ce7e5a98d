//! Preparation of a vendored source tree for building: a cleanliness guard,
//! an ordered patch-application procedure, and a reset back to the committed
//! state.
//!
//! The library holds the decisions of the two procedures: which directory
//! entries count as patch files, in which order they are applied, when the
//! procedure aborts, and what it reports. The external commands themselves
//! (the version-control queries, the patch tool, the hard reset) are run by
//! the surrounding program, which feeds their exit statuses back into the
//! state machine defined here.

pub mod apply;
pub mod reset;
pub mod selection;
