pub mod content;
pub mod deltas;
pub mod estimate;
pub mod laws;
pub mod script;
pub mod split;
