//! A sequence container that separates the physical location of a value from
//! its logical position.  Logical order is kept in a layer of indirection
//! handles (stable slot identifiers into the backing storage), so that
//! repositioning two elements exchanges only their handles and never moves the
//! values themselves.

mod iter;
mod laws;
mod vec_ptr;

pub use iter::VecPtrIntoIter;
pub use iter::VecPtrIter;
pub use laws::lemma_push_then_get_last;
pub use laws::lemma_pushed_all_appends;
pub use laws::lemma_pushes_then_get;
pub use laws::lemma_swap_involution;
pub use laws::pushed_all;
pub use vec_ptr::swapped;
pub use vec_ptr::VecPtr;
pub use vec_ptr::VecPtrError;
