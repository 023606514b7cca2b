//! Three-address code: the places instructions read and write.
use vstd::prelude::*;

verus! {

/// A jump target.
#[derive(Debug)]
pub struct Label(pub u32);

/// A compiler temporary.
#[derive(Debug)]
pub struct Temp(pub u32);

/// What an instruction reads or writes.
#[derive(Debug)]
pub enum Address {
    Label(Label),
    Temp(Temp),
}

} // verus!
