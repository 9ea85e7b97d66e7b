//! The transformation engine: the buffer, the syllable parser, the
//! transformations, and the state machine with its model and its laws.

pub mod buffer;
pub mod history;
pub mod ime;
pub mod laws;
pub mod model;
pub mod syllable;
pub mod transform;
