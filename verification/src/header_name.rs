//! Header-name validity: RFC 9110 token characters, and the lowercase form that HTTP/2
//! and HTTP/3 require on the wire.
use vstd::prelude::*;

verus! {

/// RFC 9110 `tchar`.
pub open spec fn spec_is_tchar(c: u8) -> bool {
    (97 <= c <= 122) || (65 <= c <= 90) || (48 <= c <= 57) || c == 33 || c == 35 || c == 36
        || c == 37 || c == 38 || c == 39 || c == 42 || c == 43 || c == 45 || c == 46 || c == 94
        || c == 95 || c == 96 || c == 124 || c == 126
}

/// A `tchar` that is not an uppercase letter.
pub open spec fn spec_is_lower_tchar(c: u8) -> bool {
    spec_is_tchar(c) && !(65 <= c <= 90)
}

/// A non-empty string of token characters.
pub open spec fn valid_name(name: Seq<u8>) -> bool {
    name.len() > 0 && forall|i: int| 0 <= i < name.len() ==> spec_is_tchar(#[trigger] name[i])
}

/// A non-empty string of lowercase token characters.
pub open spec fn valid_lower_name(name: Seq<u8>) -> bool {
    name.len() > 0 && forall|i: int|
        0 <= i < name.len() ==> spec_is_lower_tchar(#[trigger] name[i])
}

/// ASCII lowercasing of one byte.
pub open spec fn lower_byte(c: u8) -> u8 {
    if 65 <= c <= 90 {
        (c + 32) as u8
    } else {
        c
    }
}

/// ASCII lowercasing of a name.
pub open spec fn lowercase(name: Seq<u8>) -> Seq<u8> {
    Seq::new(name.len(), |i: int| lower_byte(name[i]))
}

/// Whether `c` is an RFC 9110 token character.
pub fn is_tchar(c: u8) -> (b: bool)
    ensures
        b == spec_is_tchar(c),
{
    // a-z, A-Z, 0-9 and ! # $ % & ' * + - . ^ _ ` | ~
    (97 <= c && c <= 122) || (65 <= c && c <= 90) || (48 <= c && c <= 57) || c == 33 || c == 35
        || c == 36 || c == 37 || c == 38 || c == 39 || c == 42 || c == 43 || c == 45 || c == 46
        || c == 94 || c == 95 || c == 96 || c == 124 || c == 126
}

/// Whether `name` is a non-empty string of token characters.
pub fn is_valid(name: &[u8]) -> (b: bool)
    ensures
        b == valid_name(name@),
{
    if name.len() == 0 {
        return false;
    }
    let mut i: usize = 0;
    while i < name.len()
        invariant
            0 <= i <= name@.len(),
            forall|j: int| 0 <= j < i ==> spec_is_tchar(#[trigger] name@[j]),
        decreases name@.len() - i,
    {
        if !is_tchar(name[i]) {
            return false;
        }
        i = i + 1;
    }
    true
}

/// Whether `name` is a non-empty string of lowercase token characters — the form HTTP/2
/// and HTTP/3 require for field names on the wire.
pub fn is_valid_lower(name: &[u8]) -> (b: bool)
    ensures
        b == valid_lower_name(name@),
{
    if name.len() == 0 {
        return false;
    }
    let mut i: usize = 0;
    while i < name.len()
        invariant
            0 <= i <= name@.len(),
            forall|j: int| 0 <= j < i ==> spec_is_lower_tchar(#[trigger] name@[j]),
        decreases name@.len() - i,
    {
        let c = name[i];
        if !is_tchar(c) || (65 <= c && c <= 90) {
            return false;
        }
        i = i + 1;
    }
    true
}

/// The ASCII-lowercased form of a name.
pub fn into_lower(name: &[u8]) -> (lower: Vec<u8>)
    ensures
        lower@ == lowercase(name@),
{
    let mut lower: Vec<u8> = Vec::with_capacity(name.len());
    let mut i: usize = 0;
    while i < name.len()
        invariant
            0 <= i <= name@.len(),
            lower@ == lowercase(name@.take(i as int)),
        decreases name@.len() - i,
    {
        let c = name[i];
        let l = if 65 <= c && c <= 90 {
            c + 32
        } else {
            c
        };
        lower.push(l);
        i = i + 1;
        assert(lower@ =~= lowercase(name@.take(i as int)));
    }
    assert(name@.take(name@.len() as int) =~= name@);
    lower
}

/// Lowercasing leaves an already-lowercase name unchanged, and lowercasing twice is
/// lowercasing once.
pub proof fn lemma_lowercase_idempotent(name: Seq<u8>)
    ensures
        lowercase(lowercase(name)) == lowercase(name),
        (forall|i: int| 0 <= i < name.len() ==> !(65 <= #[trigger] name[i] <= 90)) ==> lowercase(
            name,
        ) == name,
{
    assert(lowercase(lowercase(name)) =~= lowercase(name));
    if forall|i: int| 0 <= i < name.len() ==> !(65 <= #[trigger] name[i] <= 90) {
        assert(lowercase(name) =~= name);
    }
}

/// Lowercasing a valid name gives a valid lowercase name.
pub proof fn lemma_lowercase_valid(name: Seq<u8>)
    requires
        valid_name(name),
    ensures
        valid_lower_name(lowercase(name)),
{
    assert forall|i: int| 0 <= i < lowercase(name).len() implies spec_is_lower_tchar(
        #[trigger] lowercase(name)[i],
    ) by {
        assert(spec_is_tchar(name[i]));
    }
}

} // verus!
