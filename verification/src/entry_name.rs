//! A name as it can appear in a QPACK table entry or field line: a known header, a
//! pseudo-header, or any other (lowercase, valid) header name.
use vstd::prelude::*;
use vstd::string::StringSliceAdditionalSpecFns;
use crate::bytes::bytes_equal;
use crate::header_name::{is_valid_lower, valid_lower_name};
use crate::instruction::QpackError;
use crate::static_table::{
    known_name_str, known_names, pseudo_name_str, KnownHeaderName, PseudoHeaderName,
};

verus! {

/// A field name — a known header, a pseudo-header, or another header name held by its
/// lowercase wire bytes.
#[derive(Debug, PartialEq, Eq, Hash)]
pub enum EntryName {
    Known(KnownHeaderName),
    Pseudo(PseudoHeaderName),
    Unknown(Vec<u8>),
}

/// The value of an [`EntryName`].
pub enum EntryNameView {
    Known(KnownHeaderName),
    Pseudo(PseudoHeaderName),
    Unknown(Seq<u8>),
}

impl View for EntryName {
    type V = EntryNameView;

    open spec fn view(&self) -> EntryNameView {
        match self {
            EntryName::Known(k) => EntryNameView::Known(*k),
            EntryName::Pseudo(p) => EntryNameView::Pseudo(*p),
            EntryName::Unknown(bytes) => EntryNameView::Unknown(bytes@),
        }
    }
}

impl Clone for EntryName {
    fn clone(&self) -> (copy: Self)
        ensures
            copy@ == self@,
    {
        match self {
            EntryName::Known(k) => EntryName::Known(*k),
            EntryName::Pseudo(p) => EntryName::Pseudo(*p),
            EntryName::Unknown(bytes) => EntryName::Unknown(vstd::slice::slice_to_vec(bytes.as_slice())),
        }
    }
}

/// The wire bytes of a name.
pub open spec fn name_bytes(name: EntryNameView) -> Seq<u8> {
    match name {
        EntryNameView::Known(k) => known_name_str(k).spec_bytes(),
        EntryNameView::Pseudo(p) => pseudo_name_str(p).spec_bytes(),
        EntryNameView::Unknown(bytes) => bytes,
    }
}

/// Names whose values are secrets: `authorization`, `cookie`, `set-cookie` and
/// `proxy-authorization`.
pub open spec fn uncacheable_name(name: EntryNameView) -> bool {
    match name {
        EntryNameView::Known(KnownHeaderName::Authorization) => true,
        EntryNameView::Known(KnownHeaderName::Cookie) => true,
        EntryNameView::Known(KnownHeaderName::SetCookie) => true,
        EntryNameView::Unknown(bytes) => bytes == "proxy-authorization".spec_bytes(),
        _ => false,
    }
}

/// The wire bytes of a name.
pub open spec fn entry_name_bytes(name: EntryName) -> Seq<u8> {
    name_bytes(name@)
}

impl EntryName {
    /// The wire bytes of this name.
    pub fn as_bytes(&self) -> (bytes: &[u8])
        ensures
            bytes@ == entry_name_bytes(*self),
    {
        match self {
            EntryName::Known(k) => k.as_lower_str().as_bytes(),
            EntryName::Pseudo(p) => p.as_str().as_bytes(),
            EntryName::Unknown(bytes) => bytes.as_slice(),
        }
    }

    /// The name of a static-table entry.
    pub fn from_static(name: crate::static_table::StaticHeaderName) -> (entry_name: EntryName)
        ensures
            entry_name@ == crate::static_table::static_name_view(name),
    {
        match name {
            crate::static_table::StaticHeaderName::Header(k) => EntryName::Known(k),
            crate::static_table::StaticHeaderName::Pseudo(p) => EntryName::Pseudo(p),
        }
    }

    /// Whether this is the same name as `other`.
    pub fn same_as(&self, other: &EntryName) -> (eq: bool)
        ensures
            eq == (self@ == other@),
    {
        match (self, other) {
            (EntryName::Known(x), EntryName::Known(y)) => *x == *y,
            (EntryName::Pseudo(x), EntryName::Pseudo(y)) => *x == *y,
            (EntryName::Unknown(x), EntryName::Unknown(y)) => bytes_equal(x.as_slice(), y.as_slice()),
            _ => false,
        }
    }

    /// Whether values under this name are secrets that must never be cached or
    /// inserted into a dynamic table.
    pub fn has_uncacheable_value(&self) -> (sensitive: bool)
        ensures
            sensitive == uncacheable_name(self@),
    {
        match self {
            EntryName::Known(KnownHeaderName::Authorization) => true,
            EntryName::Known(KnownHeaderName::Cookie) => true,
            EntryName::Known(KnownHeaderName::SetCookie) => true,
            EntryName::Unknown(bytes) => bytes_equal(bytes.as_slice(), "proxy-authorization".as_bytes()),
            _ => false,
        }
    }

    /// Length of the name's wire form in bytes.
    pub fn len(&self) -> (n: usize)
        ensures
            n == entry_name_bytes(*self).len(),
    {
        self.as_bytes().len()
    }
}

/// Every pseudo-header name.
pub open spec fn pseudo_names() -> Seq<PseudoHeaderName> {
    seq![
        PseudoHeaderName::Authority,
        PseudoHeaderName::Method,
        PseudoHeaderName::Path,
        PseudoHeaderName::Scheme,
        PseudoHeaderName::Status,
        PseudoHeaderName::Protocol,
    ]
}

/// The first known header name at or after position `from` of `known_names()` whose
/// wire form is `bytes`.
pub open spec fn known_with_bytes(bytes: Seq<u8>, from: int) -> Option<KnownHeaderName>
    decreases known_names().len() - from,
{
    if from < 0 || from >= known_names().len() {
        None
    } else if known_name_str(known_names()[from]).spec_bytes() == bytes {
        Some(known_names()[from])
    } else {
        known_with_bytes(bytes, from + 1)
    }
}

/// The first pseudo-header name at or after position `from` whose wire form is `bytes`.
pub open spec fn pseudo_with_bytes(bytes: Seq<u8>, from: int) -> Option<PseudoHeaderName>
    decreases pseudo_names().len() - from,
{
    if from < 0 || from >= pseudo_names().len() {
        None
    } else if pseudo_name_str(pseudo_names()[from]).spec_bytes() == bytes {
        Some(pseudo_names()[from])
    } else {
        pseudo_with_bytes(bytes, from + 1)
    }
}

/// Reading a name off the wire: a name starting with `:` must be a known pseudo-header;
/// otherwise a known header name, or any other non-empty lowercase token.
pub open spec fn name_from_wire(bytes: Seq<u8>) -> Option<EntryNameView> {
    if bytes.len() == 0 {
        None
    } else if bytes[0] == 58 {
        match pseudo_with_bytes(bytes, 0) {
            Some(p) => Some(EntryNameView::Pseudo(p)),
            None => None,
        }
    } else {
        match known_with_bytes(bytes, 0) {
            Some(k) => Some(EntryNameView::Known(k)),
            None => if valid_lower_name(bytes) {
                Some(EntryNameView::Unknown(bytes))
            } else {
                None
            },
        }
    }
}

/// A name is well formed when reading its wire form back gives the name itself.
pub open spec fn well_formed_name(name: EntryNameView) -> bool {
    name_from_wire(name_bytes(name)) == Some(name)
}

fn pseudo_from_bytes(bytes: &[u8]) -> (name: Option<PseudoHeaderName>)
    ensures
        name == pseudo_with_bytes(bytes@, 0),
{
    let names = [
        PseudoHeaderName::Authority,
        PseudoHeaderName::Method,
        PseudoHeaderName::Path,
        PseudoHeaderName::Scheme,
        PseudoHeaderName::Status,
        PseudoHeaderName::Protocol,
    ];
    assert(names@ =~= pseudo_names());
    let mut i: usize = 0;
    while i < 6
        invariant
            0 <= i <= 6,
            names@ == pseudo_names(),
            pseudo_with_bytes(bytes@, 0) == pseudo_with_bytes(bytes@, i as int),
        decreases 6 - i,
    {
        let p = names[i];
        if bytes_equal(bytes, p.as_str().as_bytes()) {
            return Some(p);
        }
        i = i + 1;
    }
    None
}

pub fn known_from_bytes(bytes: &[u8]) -> (name: Option<KnownHeaderName>)
    ensures
        name == known_with_bytes(bytes@, 0),
{
    let names = KnownHeaderName::all();
    let mut i: usize = 0;
    while i < names.len()
        invariant
            0 <= i <= names@.len(),
            names@ == known_names(),
            known_with_bytes(bytes@, 0) == known_with_bytes(bytes@, i as int),
        decreases names@.len() - i,
    {
        let k = names[i];
        if bytes_equal(bytes, k.as_lower_str().as_bytes()) {
            return Some(k);
        }
        i = i + 1;
    }
    None
}

impl EntryName {
    /// Read a name off the wire (see [`name_from_wire`]).
    pub fn from_wire(bytes: &[u8]) -> (name: Result<EntryName, QpackError>)
        ensures
            match name_from_wire(bytes@) {
                Some(n) => name matches Ok(v) && v@ == n,
                None => name == Err::<EntryName, QpackError>(QpackError::InvalidHeaderName),
            },
    {
        if bytes.len() == 0 {
            return Err(QpackError::InvalidHeaderName);
        }
        if bytes[0] == 58 {
            return match pseudo_from_bytes(bytes) {
                Some(p) => Ok(EntryName::Pseudo(p)),
                None => Err(QpackError::InvalidHeaderName),
            };
        }
        if let Some(k) = known_from_bytes(bytes) {
            return Ok(EntryName::Known(k));
        }
        if is_valid_lower(bytes) {
            Ok(EntryName::Unknown(vstd::slice::slice_to_vec(bytes)))
        } else {
            Err(QpackError::InvalidHeaderName)
        }
    }
}

} // verus!
