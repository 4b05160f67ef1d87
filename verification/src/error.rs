use vstd::prelude::*;
use vstd::string::*;

verus! {

/// What can go wrong while loading, selecting in or rebuilding a container.
#[derive(Debug)]
pub enum WadError {
    /// The source could not be read; carries the underlying message.
    Read(String),
    /// The magic tag is not one of the two known ones.
    Type(&'static str),
    /// The buffer cannot hold what its header or directory announce.
    Load(&'static str),
    /// A lump is malformed, or a lump named as an anchor does not exist.
    InvalidLumpName,
    /// A selection pattern does not compile.
    InvalidRegex,
    /// An operation selector is not known.
    InvalidOperation,
    /// The operation is not available.
    Unknown,
}

impl WadError {
    /// The text shown for this error.
    pub open spec fn message_spec(self) -> Seq<char> {
        match self {
            WadError::Read(m) => "Unable to read this file: "@ + m@,
            WadError::Type(m) => "Wrong WAD file type: "@ + m@,
            WadError::Load(m) => "Unable to load the program: "@ + m@,
            WadError::InvalidLumpName => "Invalid lump name"@,
            WadError::InvalidRegex => "Invalid Regex"@,
            WadError::InvalidOperation => "Invalid operation"@,
            WadError::Unknown => "Unable to use this API"@,
        }
    }

    /// The text shown for this error.
    pub fn message(&self) -> (r: String)
        ensures
            r@ == self.message_spec(),
    {
        match self {
            WadError::Read(m) => String::from_str("Unable to read this file: ").concat(m.as_str()),
            WadError::Type(m) => String::from_str("Wrong WAD file type: ").concat(m),
            WadError::Load(m) => String::from_str("Unable to load the program: ").concat(m),
            WadError::InvalidLumpName => String::from_str("Invalid lump name"),
            WadError::InvalidRegex => String::from_str("Invalid Regex"),
            WadError::InvalidOperation => String::from_str("Invalid operation"),
            WadError::Unknown => String::from_str("Unable to use this API"),
        }
    }
}

} // verus!
