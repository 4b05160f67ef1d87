use vstd::prelude::*;
use vstd::slice::slice_subrange;
use vstd::std_specs::convert::{FromSpecImpl, IntoSpec};
use vstd::string::*;
use vstd::utf8::*;

use crate::codec::{i32_le_bytes, le_i32, push_all, push_i32_le, read_i32_le};
use crate::error::WadError;
use crate::names::{ascii_bytes, is_word, same_bytes};

verus! {

/// What a header announces for the build of a container.
#[derive(Clone, Copy, PartialEq, Eq, Debug, Structural)]
pub enum HeaderKind {
    Delete,
    Update,
    Unknown,
}

/// The kind that a text names; every text but `DELETE` and `UPDATE` names
/// the unknown kind.
pub open spec fn kind_named(s: Seq<char>) -> HeaderKind {
    if s == "DELETE"@ {
        HeaderKind::Delete
    } else if s == "UPDATE"@ {
        HeaderKind::Update
    } else {
        HeaderKind::Unknown
    }
}

/// The kind that a tag of bytes names.
pub open spec fn kind_tagged(bytes: Seq<u8>) -> HeaderKind {
    if bytes == ascii_bytes("DELETE"@) {
        HeaderKind::Delete
    } else if bytes == ascii_bytes("UPDATE"@) {
        HeaderKind::Update
    } else {
        HeaderKind::Unknown
    }
}

/// Whether two texts are the same.
fn same_text(a: &str, b: &str) -> (r: bool)
    ensures
        r == (a@ == b@),
{
    proof {
        encode_utf8_decode_utf8(a@);
        encode_utf8_decode_utf8(b@);
    }
    same_bytes(a.as_bytes(), b.as_bytes())
}

impl HeaderKind {
    /// The name of the kind.
    pub open spec fn text(self) -> Seq<char> {
        match self {
            HeaderKind::Delete => "DELETE"@,
            HeaderKind::Update => "UPDATE"@,
            HeaderKind::Unknown => "UNKNOWN"@,
        }
    }

    /// The name of the kind.
    pub fn to_string(&self) -> (r: String)
        ensures
            r@ == self.text(),
    {
        match self {
            HeaderKind::Delete => String::from_str("DELETE"),
            HeaderKind::Update => String::from_str("UPDATE"),
            HeaderKind::Unknown => String::from_str("UNKNOWN"),
        }
    }

    /// The name of the kind in bytes.
    pub fn to_bytes(&self) -> (r: Vec<u8>)
        ensures
            r@ == ascii_bytes(self.text()),
    {
        broadcast use is_ascii_spec_bytes;

        proof {
            reveal_strlit("DELETE");
            reveal_strlit("UPDATE");
            reveal_strlit("UNKNOWN");
        }
        let name: &str = match self {
            HeaderKind::Delete => "DELETE",
            HeaderKind::Update => "UPDATE",
            HeaderKind::Unknown => "UNKNOWN",
        };
        assert(name.is_ascii());
        let mut r: Vec<u8> = Vec::new();
        push_all(&mut r, name.as_bytes());
        assert(r@ =~= ascii_bytes(self.text()));
        r
    }

    /// The kind that `s` names. Every text names a kind.
    pub fn from_str(s: &str) -> (r: Result<Self, WadError>)
        ensures
            r matches Ok(kind) && kind == kind_named(s@),
    {
        if same_text(s, "DELETE") {
            Ok(HeaderKind::Delete)
        } else if same_text(s, "UPDATE") {
            Ok(HeaderKind::Update)
        } else {
            Ok(HeaderKind::Unknown)
        }
    }

    /// The kind that the tag `value` names.
    pub fn from_bytes(value: &[u8]) -> (r: Self)
        ensures
            r == kind_tagged(value@),
    {
        proof {
            reveal_strlit("DELETE");
            reveal_strlit("UPDATE");
        }
        if is_word(value, "DELETE") {
            HeaderKind::Delete
        } else if is_word(value, "UPDATE") {
            HeaderKind::Update
        } else {
            HeaderKind::Unknown
        }
    }
}

impl From<&[u8]> for HeaderKind {
    fn from(value: &[u8]) -> (r: Self) {
        HeaderKind::from_bytes(value)
    }
}

impl FromSpecImpl<&[u8]> for HeaderKind {
    open spec fn obeys_from_spec() -> bool {
        true
    }

    open spec fn from_spec(value: &[u8]) -> Self {
        kind_tagged(value@)
    }
}

/// The size that a header announces.
#[derive(Clone, Copy, Debug)]
pub struct HeaderSize(pub i32);

impl From<i32> for HeaderSize {
    fn from(value: i32) -> (r: Self) {
        HeaderSize(value)
    }
}

impl FromSpecImpl<i32> for HeaderSize {
    open spec fn obeys_from_spec() -> bool {
        true
    }

    open spec fn from_spec(value: i32) -> Self {
        HeaderSize(value)
    }
}

impl HeaderSize {
    /// The size that the first four bytes of `value` stand for,
    /// little-endian.
    pub fn from_bytes(value: &[u8]) -> (r: Self)
        requires
            value.len() >= 4,
        ensures
            r.0 == le_i32(value@.subrange(0, 4)),
    {
        HeaderSize(read_i32_le(value, 0))
    }

    /// The four bytes of the size, little-endian.
    pub fn to_bytes(&self) -> (r: Vec<u8>)
        ensures
            r@ == i32_le_bytes(self.0 as int),
    {
        let mut r: Vec<u8> = Vec::new();
        push_i32_le(&mut r, self.0);
        r
    }
}

/// A header: what is announced, and the size of the content, the header
/// included.
pub struct Header {
    /// What the header announces.
    pub kind: HeaderKind,
    /// The size of the content.
    size: HeaderSize,
}

impl Header {
    /// What the header announces.
    pub closed spec fn kind_spec(&self) -> HeaderKind {
        self.kind
    }

    /// The size of the content.
    pub closed spec fn size_spec(&self) -> i32 {
        self.size.0
    }

    /// What the header announces.
    pub fn kind(&self) -> (r: HeaderKind)
        ensures
            r == self.kind_spec(),
    {
        self.kind
    }

    /// A header of this kind and size.
    pub fn new(kind: HeaderKind, size: i32) -> (r: Self)
        ensures
            r.kind_spec() == kind,
            r.size_spec() == size,
    {
        Header { kind, size: HeaderSize(size) }
    }

    /// The size of the content.
    pub fn size(&self) -> (r: i32)
        ensures
            r == self.size_spec(),
    {
        self.size.0
    }

    /// The four bytes of the size, little-endian.
    pub fn size_as_vec(&self) -> (r: Vec<u8>)
        ensures
            r@ == i32_le_bytes(self.size_spec() as int),
    {
        self.size.to_bytes()
    }

    /// Sets the size to what `value` converts to.
    pub fn set_size<T: Into<HeaderSize>>(&mut self, value: T)
        ensures
            final(self).kind_spec() == old(self).kind_spec(),
            T::obeys_into_spec() ==> final(self).size_spec() == value.into_spec().0,
    {
        self.size = value.into();
    }

    /// The header that `value` stands for: a tag of six bytes, then the size
    /// in four bytes.
    pub fn from_bytes(value: &[u8]) -> (r: Self)
        requires
            value.len() >= 10,
        ensures
            r.kind_spec() == kind_tagged(value@.subrange(0, 6)),
            r.size_spec() == le_i32(value@.subrange(6, 10)),
    {
        let kind = HeaderKind::from_bytes(slice_subrange(value, 0, 6));
        let rest = slice_subrange(value, 6, value.len());
        assert(rest@.subrange(0, 4) =~= value@.subrange(6, 10));
        Header { kind, size: HeaderSize::from_bytes(rest) }
    }

    /// The bytes of the header: the name of the kind, then the size in four
    /// bytes.
    pub fn to_bytes(&self) -> (r: Vec<u8>)
        ensures
            r@ == ascii_bytes(self.kind_spec().text()) + i32_le_bytes(self.size_spec() as int),
    {
        let mut r = self.kind.to_bytes();
        let size = self.size_as_vec();
        push_all(&mut r, size.as_slice());
        r
    }
}

} // verus!
