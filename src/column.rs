//! A column of the database, as its descriptor declares it.
use vstd::prelude::*;
use crate::binary_option::BinaryOption;

verus! {

/// A column's name and the flags that give its type.
#[derive(Clone, Debug)]
pub struct Column {
    pub name: String,
    pub record_type: BinaryOption,
}

impl View for Column {
    type V = (Seq<char>, u8);

    open spec fn view(&self) -> (Seq<char>, u8) {
        (self.name@, self.record_type.data)
    }
}

} // verus!
