//! Identity-keyed, type-segregated state cells for view code that re-runs
//! from scratch on every traversal.
//!
//! Each position in the traversal has an [`Id`]. A [`Store`] gives every
//! live id one slot; a [`Table`] holds the values of one type by slot, so an
//! id can own state of several types at once. A [`StateAccess`] names one
//! cell and can be kept past the traversal that made it. Cells whose id goes
//! a whole epoch unvisited are reclaimed by the reset / touch / purge
//! protocol of the store.
pub mod access;
pub mod list;
pub mod memo;
pub mod slots;
pub mod store;

pub use access::{use_state, StateAccess};
pub use list::{use_list, List, ListControl};
pub use memo::{do_once, use_memo, watch, MemoControl, Watch};
pub use store::{Id, Store, StoreError, StoreModel, Table};
