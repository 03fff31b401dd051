//! Wire codec and message framing for the game servers.
//!
//! Every value that crosses a connection has one exact byte image. The
//! modules below say, as mathematical functions, what that image is and how
//! it is read back, and the executable code is proved against them.

pub mod array;
pub mod error;
pub mod lobby;
pub mod monolith;
pub mod serial;
pub mod shipgate;
pub mod staticvec;
pub mod text;
pub mod wire;
