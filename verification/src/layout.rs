//! The keyboard layouts told apart.
use vstd::prelude::*;

verus! {

#[derive(Debug, Clone, Copy, PartialEq, Eq, Structural)]
pub enum LayoutId {
    English,
    Russian,
}

} // verus!
