//! The harness's selection machine is the transcript selection machine.

pub use crate::selection::{LeftPress, SelState, SelectionController, Trigger};
