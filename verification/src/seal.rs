//! Keeps the set of page kinds closed.

use vstd::prelude::*;

verus! {

/// Only the kinds of page that this library names can be a `Mode`.
pub trait Seal {

}

} // verus!
