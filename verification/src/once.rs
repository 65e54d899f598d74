//! The write-once cell of the `once_cell` crate, as far as the accounting
//! uses it. Nothing here is proved: these are the claims made of that crate.
//!
//! The cell is shared between executions, so what it holds when a call is
//! made is not a function of the call's arguments, and no claim speaks of it.

use once_cell::sync::OnceCell;
use vstd::prelude::*;

verus! {

/// `once_cell::sync::OnceCell`, a thread-safe cell that is written at most
/// once. Its contents are hidden from the verifier.
#[verifier::external_type_specification]
#[verifier::external_body]
#[verifier::reject_recursive_types(T)]
pub struct ExOnceCell<T>(OnceCell<T>);

/// `OnceCell::new` makes an empty cell. Nothing is claimed of it.
pub assume_specification<T>[ OnceCell::<T>::new ]() -> (cell: OnceCell<T>);

/// `OnceCell::get` returns the value if the cell is full. Nothing is claimed
/// of which it is.
pub assume_specification<T>[ OnceCell::<T>::get ](cell: &OnceCell<T>) -> (value: Option<&T>);

/// `OnceCell::set` fills the cell if it was empty and returns `Ok`, and
/// otherwise leaves it and returns the value in `Err`. Claimed: only that the
/// value in `Err` is the one that was passed.
pub assume_specification<T>[ OnceCell::<T>::set ](cell: &OnceCell<T>, value: T) -> (outcome: Result<
    (),
    T,
>)
    ensures
        outcome matches Err(back) ==> back == value,
;

} // verus!
