use vstd::prelude::*;

use crate::error::WadError;
use crate::lump::{LumpData, LumpInfo, LumpModel};
use crate::models::lump::Lump;

verus! {

/// A lump of no known kind: it is carried along undecoded.
pub struct Unknown {
    /// Payload, entry and kind.
    pub data: LumpData,
}

impl View for Unknown {
    type V = LumpModel;

    open spec fn view(&self) -> LumpModel {
        self.data@
    }
}

impl Clone for Unknown {
    fn clone(&self) -> (r: Self)
        ensures
            r@ == self@,
    {
        Unknown { data: self.data.clone() }
    }
}

impl Unknown {
    /// The name of the lump has eight bytes and its id twelve.
    pub proof fn lemma_whole(&self)
        ensures
            self@.metadata.name.len() == 8,
            self@.metadata.id.len() == 12,
    {
        self.data.lemma_whole();
    }

    /// The directory entry.
    pub fn info(&self) -> (r: LumpInfo)
        ensures
            r@ == self@.metadata,
    {
        self.data.metadata
    }

    /// The payload.
    pub fn payload(&self) -> (r: &Vec<u8>)
        ensures
            r@ == self@.buffer,
    {
        &self.data.buffer
    }
}

impl Lump for Unknown {
    open spec fn held(&self) -> LumpModel {
        self.data@
    }

    /// There is nothing to decode.
    fn parse(&mut self) -> (r: Result<(), WadError>)
        ensures
            r is Ok,
            final(self)@ == old(self)@,
    {
        Ok(())
    }

    fn data(&self) -> (d: LumpData) {
        self.data.clone()
    }

    fn set_data(&mut self, data: LumpData) {
        self.data = data;
    }

    fn update(&mut self, buffer: &Vec<u8>) -> (r: Result<(), WadError>)
        ensures
            final(self)@ == old(self)@,
    {
        Err(WadError::Unknown)
    }
}

} // verus!
