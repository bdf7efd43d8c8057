//! Exception stack traces enriched with the live parameter values of every frame.
//!
//! The library holds the class-file codec (model, reader and writer), the rewriter that
//! splices the capture hooks into the two runtime classes, and the decisions of the
//! stack inspector (descriptor parsing, debug-table reconciliation, value kinds and the
//! layout of the captured arrays).

pub mod bytes;
pub mod instruction;
pub mod names;
pub mod classfile;
pub mod encode;
pub mod writer;
pub mod blockreader;
pub mod reader;
pub mod symbols;
pub mod rewriter;
pub mod manip;
pub mod descriptor;
pub mod inspector;
