//! Read-only access to the identification data of a tachograph driver card:
//! command construction, record slicing and field decoding, and the state
//! machine that sequences them.

pub mod error;
pub mod layout;
pub mod records;
pub mod session;
pub mod slicer;
pub mod apdu;
pub mod codec;
