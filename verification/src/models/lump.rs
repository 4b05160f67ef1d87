use vstd::prelude::*;

use crate::error::WadError;
use crate::lump::{LumpData, LumpModel};

verus! {

/// What every kind of lump can do: decode its payload, hand out and take
/// back its data, and take new content in the format it is exported in.
pub trait Lump {
    /// The payload, entry and kind the lump holds.
    spec fn held(&self) -> LumpModel;

    /// Decodes the payload. The data itself stays as it is.
    fn parse(&mut self) -> (r: Result<(), WadError>)
        ensures
            final(self).held() == old(self).held(),
    ;

    /// A copy of the payload, entry and kind.
    fn data(&self) -> (d: LumpData)
        ensures
            d@ == self.held(),
    ;

    /// Replaces payload, entry and kind.
    fn set_data(&mut self, data: LumpData)
        ensures
            final(self).held() == data@,
    ;

    /// Would replace the payload by what `buffer`, a file in the format the
    /// lump is exported in, encodes. No kind of lump can do this yet: the call
    /// fails and changes nothing.
    fn update(&mut self, buffer: &Vec<u8>) -> (r: Result<(), WadError>)
        ensures
            r == Err::<(), WadError>(WadError::Unknown),
            final(self).held() == old(self).held(),
    ;
}

} // verus!
