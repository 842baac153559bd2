//! Run-time checked interior-mutability and shared-ownership primitives.
//!
//! Every aliasing rule that a borrow checker would enforce at compile time is
//! enforced here by explicit, verified bookkeeping: a borrow-state machine for
//! [`MyRefCell`] and a reference count per allocation for [`MyRc`].
pub mod cell;
pub mod my_box;
pub mod rc;
pub mod refcell;

pub use cell::MyCell;
pub use my_box::MyBox;
pub use rc::{MyRc, RcArena};
pub use refcell::{MyRef, MyRefCell, MyRefMut, ReferenceState};
