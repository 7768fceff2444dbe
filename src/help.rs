//! The help screen.
use vstd::prelude::*;

verus! {

/// The help screen. It holds no state; its text is drawn by the front end.
pub struct InstructionView {}

impl InstructionView {
    pub fn new() -> (r: InstructionView) {
        InstructionView {  }
    }
}

} // verus!
