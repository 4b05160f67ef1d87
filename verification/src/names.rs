use vstd::prelude::*;
use vstd::string::*;

verus! {

/// The bytes of an ASCII text.
pub open spec fn ascii_bytes(s: Seq<char>) -> Seq<u8> {
    Seq::new(s.len(), |i: int| s[i] as u8)
}

/// `word` stands in `name` at position `at`.
pub open spec fn has_word_at(name: Seq<u8>, at: int, word: Seq<u8>) -> bool {
    &&& 0 <= at
    &&& at + word.len() <= name.len()
    &&& name.subrange(at, at + word.len()) == word
}

/// An ASCII decimal digit.
pub open spec fn is_digit(b: u8) -> bool {
    '0' as u8 <= b <= '9' as u8
}

/// One of the three letters that open a namespace marker's name.
pub open spec fn is_fps(b: u8) -> bool {
    b == 'F' as u8 || b == 'P' as u8 || b == 'S' as u8
}

/// At `at` stand the letter `lead`, then `digits` decimal digits, then `tail`.
pub open spec fn numbered_at(name: Seq<u8>, at: int, lead: u8, digits: int, tail: Seq<u8>) -> bool {
    &&& 0 <= at < name.len()
    &&& 1 <= digits
    &&& name[at] == lead
    &&& forall|k: int| at < k <= at + digits ==> k < name.len() && is_digit(#[trigger] name[k])
    &&& has_word_at(name, at + 1 + digits, tail)
}

/// Somewhere in `name` stand `lead`, one or more decimal digits and `tail`.
pub open spec fn has_numbered(name: Seq<u8>, lead: u8, tail: Seq<u8>) -> bool {
    exists|at: int, digits: int| numbered_at(name, at, lead, digits, tail)
}

/// A flat range opens here: `F`, digits, `_START`.
pub open spec fn is_numbered_flat_start(name: Seq<u8>) -> bool {
    has_numbered(name, 'F' as u8, ascii_bytes("_START"@))
}

/// A flat range closes here: `F`, digits, `_END`.
pub open spec fn is_numbered_flat_end(name: Seq<u8>) -> bool {
    has_numbered(name, 'F' as u8, ascii_bytes("_END"@))
}

/// A sprite range opens here: `S`, digits, `_START`.
pub open spec fn is_numbered_patch_start(name: Seq<u8>) -> bool {
    has_numbered(name, 'S' as u8, ascii_bytes("_START"@))
}

/// A sprite range closes here: `S`, digits, `_END`.
pub open spec fn is_numbered_patch_end(name: Seq<u8>) -> bool {
    has_numbered(name, 'S' as u8, ascii_bytes("_END"@))
}

/// One of the four numbered marker forms.
pub open spec fn is_numbered_marker(name: Seq<u8>) -> bool {
    ||| is_numbered_flat_start(name)
    ||| is_numbered_flat_end(name)
    ||| is_numbered_patch_start(name)
    ||| is_numbered_patch_end(name)
}

/// The name of a piece of music: it begins with `D_`.
pub open spec fn is_music_name(name: Seq<u8>) -> bool {
    name.len() >= 2 && name[0] == 'D' as u8 && name[1] == '_' as u8
}

/// `_START` or `_END` stands at `at`.
pub open spec fn has_bound_at(name: Seq<u8>, at: int) -> bool {
    has_word_at(name, at, ascii_bytes("_START"@)) || has_word_at(name, at, ascii_bytes("_END"@))
}

/// `_START` or `_END` stands at `at` and ends the name.
pub open spec fn ends_with_bound_at(name: Seq<u8>, at: int) -> bool {
    ||| has_word_at(name, at, ascii_bytes("_START"@)) && at + 6 == name.len()
    ||| has_word_at(name, at, ascii_bytes("_END"@)) && at + 4 == name.len()
}

/// The name begins with `letters` of `F`, `P`, `S`, then `_START` or `_END`.
pub open spec fn lettered_marker(name: Seq<u8>, letters: int) -> bool {
    &&& 1 <= letters <= 2
    &&& forall|k: int| 0 <= k < letters ==> k < name.len() && is_fps(#[trigger] name[k])
    &&& has_bound_at(name, letters)
}

/// The name ends with one of `F`, `P`, `S` at `at`, then `under` underscores,
/// `digits` decimal digits, and `_START` or `_END`.
pub open spec fn counted_marker(name: Seq<u8>, at: int, under: int, digits: int) -> bool {
    &&& 0 <= at < name.len()
    &&& 0 <= under <= 1
    &&& 0 <= digits <= 2
    &&& is_fps(name[at])
    &&& under == 1 ==> at + 1 < name.len() && name[at + 1] == '_' as u8
    &&& forall|k: int|
        at + under < k <= at + under + digits ==> k < name.len() && is_digit(#[trigger] name[k])
    &&& ends_with_bound_at(name, at + 1 + under + digits)
}

/// The name of a virtual lump, one that marks a namespace and has no payload
/// of its own. Either the name begins with one or two of `F`, `P`, `S`
/// followed by `_START` or `_END`; or it ends with one of these letters, an
/// optional underscore, up to two digits, and `_START` or `_END`.
pub open spec fn is_virtual_marker(name: Seq<u8>) -> bool {
    ||| lettered_marker(name, 1)
    ||| lettered_marker(name, 2)
    ||| exists|at: int, under: int, digits: int| counted_marker(name, at, under, digits)
}

/// What `"_START"` and `"_END"` are, byte by byte.
pub proof fn lemma_bound_words()
    ensures
        ascii_bytes("_START"@) == seq![
            '_' as u8,
            'S' as u8,
            'T' as u8,
            'A' as u8,
            'R' as u8,
            'T' as u8,
        ],
        ascii_bytes("_END"@) == seq!['_' as u8, 'E' as u8, 'N' as u8, 'D' as u8],
        "_START".is_ascii(),
        "_END".is_ascii(),
{
    reveal_strlit("_START");
    reveal_strlit("_END");
    assert(ascii_bytes("_START"@) =~= seq![
        '_' as u8,
        'S' as u8,
        'T' as u8,
        'A' as u8,
        'R' as u8,
        'T' as u8,
    ]);
    assert(ascii_bytes("_END"@) =~= seq!['_' as u8, 'E' as u8, 'N' as u8, 'D' as u8]);
}

/// Whether two byte strings are the same.
pub fn same_bytes(a: &[u8], b: &[u8]) -> (r: bool)
    ensures
        r == (a@ == b@),
{
    if a.len() != b.len() {
        return false;
    }
    let mut i: usize = 0;
    while i < a.len()
        invariant
            i <= a@.len(),
            a@.len() == b@.len(),
            a@.take(i as int) == b@.take(i as int),
        decreases a@.len() - i,
    {
        if a[i] != b[i] {
            return false;
        }
        assert(a@.take(i + 1) =~= a@.take(i as int).push(a@[i as int]));
        assert(b@.take(i + 1) =~= b@.take(i as int).push(b@[i as int]));
        i += 1;
    }
    assert(a@.take(i as int) =~= a@);
    assert(b@.take(i as int) =~= b@);
    true
}

/// Whether `name` is the ASCII text `word`.
pub fn is_word(name: &[u8], word: &str) -> (r: bool)
    requires
        word.is_ascii(),
    ensures
        r == (name@ == ascii_bytes(word@)),
{
    broadcast use is_ascii_spec_bytes;

    same_bytes(name, word.as_bytes())
}

/// Whether the ASCII text `word` stands in `name` at `at`.
pub fn word_at(name: &[u8], at: usize, word: &str) -> (r: bool)
    requires
        word.is_ascii(),
    ensures
        r == has_word_at(name@, at as int, ascii_bytes(word@)),
{
    broadcast use is_ascii_spec_bytes;

    let w = word.as_bytes();
    assert(w@ =~= ascii_bytes(word@));
    if at > name.len() || w.len() > name.len() - at {
        return false;
    }
    let mut i: usize = 0;
    while i < w.len()
        invariant
            i <= w@.len(),
            at + w@.len() <= name@.len() <= usize::MAX,
            w@ == ascii_bytes(word@),
            name@.subrange(at as int, at + i) == w@.take(i as int),
        decreases w@.len() - i,
    {
        if name[at + i] != w[i] {
            assert(name@.subrange(at as int, at + w@.len())[i as int] != w@[i as int]);
            return false;
        }
        assert(name@.subrange(at as int, at + i + 1) =~= name@.subrange(at as int, at + i).push(
            name@[at + i],
        ));
        assert(w@.take(i + 1) =~= w@.take(i as int).push(w@[i as int]));
        i += 1;
    }
    assert(w@.take(i as int) =~= w@);
    true
}

/// Whether `lead`, one or more digits and `tail` stand somewhere in `name`.
fn find_numbered(name: &[u8], lead: u8, tail: &str) -> (r: bool)
    requires
        tail.is_ascii(),
        tail@.len() > 0,
        !is_digit(tail@[0] as u8),
    ensures
        r == has_numbered(name@, lead, ascii_bytes(tail@)),
{
    let ghost word = ascii_bytes(tail@);
    let mut at: usize = 0;
    while at < name.len()
        invariant
            at <= name@.len(),
            tail.is_ascii(),
            word == ascii_bytes(tail@),
            word.len() > 0,
            !is_digit(word[0]),
            forall|a: int, d: int| 0 <= a < at ==> !numbered_at(name@, a, lead, d, word),
        decreases name@.len() - at,
    {
        if name[at] == lead {
            let mut end: usize = at + 1;
            while end < name.len() && '0' as u8 <= name[end] && name[end] <= '9' as u8
                invariant
                    at < end <= name@.len(),
                    forall|k: int| at < k < end ==> is_digit(#[trigger] name@[k]),
                decreases name@.len() - end,
            {
                end += 1;
            }
            let found = end > at + 1 && word_at(name, end, tail);
            if found {
                assert(numbered_at(name@, at as int, lead, end - at - 1, word));
                return true;
            }
            assert forall|d: int| !numbered_at(name@, at as int, lead, d, word) by {
                if numbered_at(name@, at as int, lead, d, word) {
                    let stop = at + 1 + d;
                    assert(name@.subrange(stop, stop + word.len())[0] == word[0]);
                    assert(!is_digit(name@[stop]));
                    if stop < end {
                        assert(is_digit(name@[stop]));
                    } else if stop > end {
                        assert(is_digit(name@[end as int]));
                    }
                }
            }
        }
        at += 1;
    }
    false
}

/// Whether `name` opens a numbered flat range.
pub fn numbered_flat_start(name: &[u8]) -> (r: bool)
    ensures
        r == is_numbered_flat_start(name@),
{
    proof {
        lemma_bound_words();
        reveal_strlit("_START");
    }
    find_numbered(name, 'F' as u8, "_START")
}

/// Whether `name` closes a numbered flat range.
pub fn numbered_flat_end(name: &[u8]) -> (r: bool)
    ensures
        r == is_numbered_flat_end(name@),
{
    proof {
        lemma_bound_words();
        reveal_strlit("_END");
    }
    find_numbered(name, 'F' as u8, "_END")
}

/// Whether `name` opens a numbered sprite range.
pub fn numbered_patch_start(name: &[u8]) -> (r: bool)
    ensures
        r == is_numbered_patch_start(name@),
{
    proof {
        lemma_bound_words();
        reveal_strlit("_START");
    }
    find_numbered(name, 'S' as u8, "_START")
}

/// Whether `name` closes a numbered sprite range.
pub fn numbered_patch_end(name: &[u8]) -> (r: bool)
    ensures
        r == is_numbered_patch_end(name@),
{
    proof {
        lemma_bound_words();
        reveal_strlit("_END");
    }
    find_numbered(name, 'S' as u8, "_END")
}

/// Whether `name` is that of a piece of music.
pub fn music_name(name: &[u8]) -> (r: bool)
    ensures
        r == is_music_name(name@),
{
    name.len() >= 2 && name[0] == 'D' as u8 && name[1] == '_' as u8
}

/// Whether `b` is one of `F`, `P`, `S`.
fn fps(b: u8) -> (r: bool)
    ensures
        r == is_fps(b),
{
    b == 'F' as u8 || b == 'P' as u8 || b == 'S' as u8
}

/// Whether `_START` or `_END` stands at `at`.
fn bound_at(name: &[u8], at: usize) -> (r: bool)
    ensures
        r == has_bound_at(name@, at as int),
{
    proof {
        lemma_bound_words();
    }
    word_at(name, at, "_START") || word_at(name, at, "_END")
}

/// Whether `_START` or `_END` stands at `at` and ends the name.
fn bound_ends_at(name: &[u8], at: usize) -> (r: bool)
    ensures
        r == ends_with_bound_at(name@, at as int),
{
    proof {
        lemma_bound_words();
    }
    if at > name.len() {
        return false;
    }
    let left = name.len() - at;
    (left == 6 && word_at(name, at, "_START")) || (left == 4 && word_at(name, at, "_END"))
}

/// Whether the name begins with `letters` of `F`, `P`, `S` and a bound.
fn lettered(name: &[u8], letters: usize) -> (r: bool)
    requires
        1 <= letters <= 2,
    ensures
        r == lettered_marker(name@, letters as int),
{
    if name.len() < letters {
        assert(!(letters - 1 < name@.len()));
        return false;
    }
    if !fps(name[0]) {
        return false;
    }
    if letters == 2 && !fps(name[1]) {
        return false;
    }
    bound_at(name, letters)
}

/// Whether a counted marker with this shape begins at `at`.
fn counted(name: &[u8], at: usize, under: usize, digits: usize) -> (r: bool)
    requires
        at < name.len(),
        under <= 1,
        digits <= 2,
    ensures
        r == counted_marker(name@, at as int, under as int, digits as int),
{
    if !fps(name[at]) {
        return false;
    }
    if name.len() - at <= under + digits {
        if digits > 0 {
            assert(!(at + under + digits < name@.len()));
        } else {
            assert(!(at + 1 < name@.len()));
        }
        return false;
    }
    if under == 1 && name[at + 1] != '_' as u8 {
        return false;
    }
    let mut k: usize = 0;
    while k < digits
        invariant
            k <= digits <= 2,
            under <= 1,
            at + under + digits < name@.len() <= usize::MAX,
            forall|j: int| at + under < j <= at + under + k ==> is_digit(#[trigger] name@[j]),
        decreases digits - k,
    {
        let b = name[at + under + k + 1];
        if !('0' as u8 <= b && b <= '9' as u8) {
            return false;
        }
        k += 1;
    }
    bound_ends_at(name, at + 1 + under + digits)
}

/// Whether `name` is that of a virtual lump.
pub fn virtual_marker(name: &[u8]) -> (r: bool)
    ensures
        r == is_virtual_marker(name@),
{
    if lettered(name, 1) || lettered(name, 2) {
        return true;
    }
    let mut at: usize = 0;
    while at < name.len()
        invariant
            at <= name@.len(),
            forall|a: int, u: int, d: int| 0 <= a < at ==> !counted_marker(name@, a, u, d),
        decreases name@.len() - at,
    {
        let hit = counted(name, at, 0, 0) || counted(name, at, 0, 1) || counted(name, at, 0, 2)
            || counted(name, at, 1, 0) || counted(name, at, 1, 1) || counted(name, at, 1, 2);
        if hit {
            return true;
        }
        assert forall|u: int, d: int| !counted_marker(name@, at as int, u, d) by {
            if counted_marker(name@, at as int, u, d) {
                assert(0 <= u <= 1 && 0 <= d <= 2);
            }
        }
        at += 1;
    }
    false
}

} // verus!
