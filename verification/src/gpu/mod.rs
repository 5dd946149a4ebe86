//! Handing a GPU of the host to a virtual machine and taking it back.

pub mod bind;
pub mod checks;
pub mod choice;
pub mod laws;
pub mod meaning;
pub mod moves;
pub mod obstacle;
pub mod overrides;
pub mod prepare;
pub mod probe;
pub mod probing;
pub mod reads;
pub mod replay;
pub mod round_trip;
pub mod safety;
pub mod selection;
pub mod touches;
pub mod undo;
pub mod writes;
