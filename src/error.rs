use vstd::prelude::*;

verus! {

/// Why a record could not be transformed. Options and annotations that
/// cannot be read are refused by the front end before the record gets here.
#[derive(Clone, Copy, PartialEq, Eq, Debug, Structural)]
pub enum Error {
    /// The record does not have named fields.
    UnsupportedShape,
    /// More flag bits were needed than the widest backing integer holds;
    /// carries the number of bits that were needed.
    FlagOverflow(usize),
}

} // verus!
