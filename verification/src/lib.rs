//! A small family of manually-managed container types: a growable array with
//! an explicit growth policy ([`ChillVec`]), a packed array of strings stored
//! in one shared byte buffer, a width-adaptive array of unsigned integers,
//! and a never-empty cyclic cursor.
//!
//! Every public operation is total on the inputs its contract admits: an
//! out-of-range access yields an explicit absent marker, never a failure.
//! The only unrecoverable conditions are allocation failure and a request
//! whose size in bytes would exceed the largest single allocation the
//! platform can address; inputs that would force the latter are excluded by
//! the contracts.

pub mod chill_vec;
pub mod compact_int;
pub mod cursor_vec;
pub mod str_vec;

pub use chill_vec::ChillVec;
pub use compact_int::CompactIntArray;
pub use cursor_vec::CursorVec;
pub use cursor_vec::CursorVecIter;
pub use str_vec::StrVec;
pub use str_vec::StrVecIter;
