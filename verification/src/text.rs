use vstd::prelude::*;
use vstd::utf8::*;

verus! {

/// A byte that is an ASCII letter, digit or punctuation mark: every visible
/// ASCII character, the space left out.
pub open spec fn is_graphic(b: u8) -> bool {
    0x21 <= b <= 0x7e
}

/// What is left of `bytes` when everything but visible ASCII is dropped.
pub open spec fn printable(bytes: Seq<u8>) -> Seq<u8> {
    bytes.filter(|b: u8| is_graphic(b))
}

/// ASCII bytes read as characters, one for one.
pub open spec fn ascii_chars(bytes: Seq<u8>) -> Seq<char> {
    Seq::new(bytes.len(), |i: int| bytes[i] as char)
}

/// Every byte is below 128.
pub open spec fn all_ascii(bytes: Seq<u8>) -> bool {
    forall|i: int| 0 <= i < bytes.len() ==> bytes[i] < 128
}

/// Filtering never lengthens, and leaves only visible ASCII.
pub proof fn lemma_printable(bytes: Seq<u8>)
    ensures
        printable(bytes).len() <= bytes.len(),
        all_ascii(printable(bytes)),
        forall|i: int| 0 <= i < printable(bytes).len() ==> is_graphic(#[trigger] printable(bytes)[i]),
{
    broadcast use vstd::seq_lib::group_filter_ensures;

    let pred = |b: u8| is_graphic(b);
    assert forall|i: int| 0 <= i < printable(bytes).len() implies is_graphic(
        #[trigger] printable(bytes)[i],
    ) by {
        assert(pred(bytes.filter(pred)[i]));
    }
}

/// ASCII bytes are valid UTF-8 and decode to themselves.
pub proof fn lemma_ascii_is_utf8(bytes: Seq<u8>)
    requires
        all_ascii(bytes),
    ensures
        valid_utf8(bytes),
        decode_utf8(bytes) == ascii_chars(bytes),
        encode_utf8(ascii_chars(bytes)) == bytes,
{
    let chars = ascii_chars(bytes);
    assert forall|i: int| 0 <= i < chars.len() implies '\0' <= #[trigger] chars[i] <= '\u{7f}' by {
        assert(bytes[i] < 128);
    }
    assert(is_ascii_chars(chars));
    is_ascii_chars_encode_utf8(chars);
    assert forall|i: int| 0 <= i < chars.len() implies encode_utf8(chars)[i] == bytes[i] by {
        assert(chars[i] as u8 == encode_utf8(chars)[i]);
        assert(bytes[i] < 128);
        assert((bytes[i] as char) as u8 == bytes[i]);
    }
    assert(encode_utf8(chars) =~= bytes);
    encode_utf8_valid_utf8(chars);
    encode_utf8_decode_utf8(chars);
}

/// ASCII bytes are told by their characters.
pub proof fn lemma_ascii_chars_decide(a: Seq<u8>, b: Seq<u8>)
    requires
        all_ascii(a),
        all_ascii(b),
        ascii_chars(a) == ascii_chars(b),
    ensures
        a == b,
{
    assert(a.len() == ascii_chars(a).len());
    assert(b.len() == ascii_chars(b).len());
    assert forall|i: int| 0 <= i < a.len() implies a[i] == b[i] by {
        assert(ascii_chars(a)[i] == a[i] as char);
        assert(ascii_chars(b)[i] == b[i] as char);
        assert(a[i] < 128 && b[i] < 128);
        assert((a[i] as char) as u8 == a[i]);
        assert((b[i] as char) as u8 == b[i]);
    }
    assert(a =~= b);
}

/// `String::from_utf8`: the bytes as a string where they are valid UTF-8, and
/// nothing otherwise. The contract says so over vstd's model of UTF-8.
#[verifier::external_body]
pub(crate) fn string_from_utf8(bytes: Vec<u8>) -> (r: Option<String>)
    ensures
        r is Some <==> valid_utf8(bytes@),
        r matches Some(s) ==> s@ == decode_utf8(bytes@),
{
    String::from_utf8(bytes).ok()
}

/// A copy of `bytes` without what is not visible ASCII.
pub fn printable_bytes(bytes: &[u8]) -> (r: Vec<u8>)
    ensures
        r@ == printable(bytes@),
{
    let mut r: Vec<u8> = Vec::new();
    let mut i: usize = 0;
    while i < bytes.len()
        invariant
            i <= bytes@.len(),
            r@ == printable(bytes@.take(i as int)),
        decreases bytes@.len() - i,
    {
        let b = bytes[i];
        proof {
            let pred = |b: u8| is_graphic(b);
            assert(bytes@.take(i + 1) =~= bytes@.take(i as int) + seq![b]);
            Seq::filter_distributes_over_add(bytes@.take(i as int), seq![b], pred);
            reveal_with_fuel(Seq::filter, 2);
            assert(seq![b].drop_last() =~= Seq::<u8>::empty());
            assert(seq![b].filter(pred) =~= if is_graphic(b) { seq![b] } else { Seq::empty() });
        }
        if 0x21 <= b && b <= 0x7e {
            r.push(b);
        }
        i += 1;
    }
    assert(bytes@.take(i as int) =~= bytes@);
    r
}

/// The visible ASCII of `bytes` as a string.
pub fn printable_string(bytes: &[u8]) -> (r: String)
    ensures
        r@ == ascii_chars(printable(bytes@)),
{
    let kept = printable_bytes(bytes);
    proof {
        lemma_printable(bytes@);
        lemma_ascii_is_utf8(kept@);
    }
    match string_from_utf8(kept) {
        Some(s) => s,
        None => String::new(),
    }
}

} // verus!
