//! The values a field section carries: regular headers (a name with one or more values,
//! in the order the names first appeared) and the pseudo-headers of RFC 9114 §4.3.
use vstd::prelude::*;
use crate::entry_name::{EntryName, EntryNameView};
use crate::method::Method;
use crate::status::Status;

verus! {

/// The values of a list of byte strings.
pub open spec fn values_view(values: Seq<Vec<u8>>) -> Seq<Seq<u8>> {
    values.map_values(|v: Vec<u8>| v@)
}

/// The value of a header map: each name with its values, names in the order they were
/// first added.
pub type HeadersView = Seq<(EntryNameView, Seq<Seq<u8>>)>;

/// Header maps hold regular header names only, each once, each with at least one value.
pub open spec fn headers_wf(headers: HeadersView) -> bool {
    &&& forall|i: int| 0 <= i < headers.len() ==> !((#[trigger] headers[i]).0 is Pseudo)
    &&& forall|i: int| 0 <= i < headers.len() ==> (#[trigger] headers[i]).1.len() > 0
    &&& forall|i: int, j: int|
        0 <= i < j < headers.len() ==> (#[trigger] headers[i]).0 != (#[trigger] headers[j]).0
}

/// The position of `name` in a header map.
pub open spec fn header_position(headers: HeadersView, name: EntryNameView) -> Option<int> {
    if exists|i: int| 0 <= i < headers.len() && (#[trigger] headers[i]).0 == name {
        Some(choose|i: int| 0 <= i < headers.len() && (#[trigger] headers[i]).0 == name)
    } else {
        None
    }
}

/// Appending a value under a name: after the existing values of that name, or as a new
/// last name.
pub open spec fn headers_append(headers: HeadersView, name: EntryNameView, value: Seq<u8>) -> HeadersView {
    match header_position(headers, name) {
        Some(i) => headers.update(i, (name, headers[i].1.push(value))),
        None => headers.push((name, seq![value])),
    }
}

/// Inserting a value under a name: it replaces the existing values of that name, or the
/// name is added last.
pub open spec fn headers_insert(headers: HeadersView, name: EntryNameView, value: Seq<u8>) -> HeadersView {
    match header_position(headers, name) {
        Some(i) => headers.update(i, (name, seq![value])),
        None => headers.push((name, seq![value])),
    }
}

/// Marks of the values that arrived never-indexed (the N bit of RFC 9204 §4.5.4): a name
/// and the position of the value among that name's values, in the order they arrived.
pub type NeverIndexedView = Seq<(EntryNameView, nat)>;

/// The marks after a value is appended under `name`: a new mark for that value when it is
/// never-indexed.
pub open spec fn marks_append(
    marks: NeverIndexedView,
    headers: HeadersView,
    name: EntryNameView,
    never_indexed: bool,
) -> NeverIndexedView {
    if never_indexed {
        marks.push(
            (
                name,
                match header_position(headers, name) {
                    Some(i) => headers[i].1.len(),
                    None => 0,
                },
            ),
        )
    } else {
        marks
    }
}

/// The marks after the values of `name` are replaced: its marks are gone.
pub open spec fn marks_without(marks: NeverIndexedView, name: EntryNameView) -> NeverIndexedView {
    marks.filter(|m: (EntryNameView, nat)| m.0 != name)
}

/// A map from header names to their values.
#[derive(Debug, PartialEq, Eq)]
pub struct Headers {
    entries: Vec<(EntryName, Vec<Vec<u8>>)>,
    never_indexed: Vec<(EntryName, usize)>,
}

impl View for Headers {
    type V = HeadersView;

    closed spec fn view(&self) -> HeadersView {
        self.entries@.map_values(|e: (EntryName, Vec<Vec<u8>>)| (e.0@, values_view(e.1@)))
    }
}

impl Headers {
    pub closed spec fn wf(&self) -> bool {
        headers_wf(self@)
    }

    /// The marks of the values that arrived never-indexed.
    pub closed spec fn never_indexed_marks(&self) -> NeverIndexedView {
        self.never_indexed@.map_values(|m: (EntryName, usize)| (m.0@, m.1 as nat))
    }

    /// The marks of the values that arrived never-indexed, in the order they arrived.
    pub fn never_indexed(&self) -> (marks: &Vec<(EntryName, usize)>)
        ensures
            marks@.map_values(|m: (EntryName, usize)| (m.0@, m.1 as nat)) == self.never_indexed_marks(),
    {
        &self.never_indexed
    }

    /// An empty header map.
    pub fn new() -> (headers: Headers)
        ensures
            headers.wf(),
            headers@ == Seq::<(EntryNameView, Seq<Seq<u8>>)>::empty(),
            headers.never_indexed_marks() == Seq::<(EntryNameView, nat)>::empty(),
    {
        let headers = Headers { entries: Vec::new(), never_indexed: Vec::new() };
        assert(headers@ =~= Seq::<(EntryNameView, Seq<Seq<u8>>)>::empty());
        assert(headers.never_indexed_marks() =~= Seq::<(EntryNameView, nat)>::empty());
        headers
    }

    /// The number of distinct names.
    pub fn len(&self) -> (n: usize)
        ensures
            n == self@.len(),
    {
        self.entries.len()
    }

    pub fn is_empty(&self) -> (empty: bool)
        ensures
            empty == (self@.len() == 0),
    {
        self.entries.len() == 0
    }

    /// The `i`-th name and its values.
    pub fn entry(&self, i: usize) -> (entry: (&EntryName, &Vec<Vec<u8>>))
        requires
            i < self@.len(),
        ensures
            entry.0@ == self@[i as int].0,
            values_view(entry.1@) == self@[i as int].1,
    {
        let e = &self.entries[i];
        (&e.0, &e.1)
    }

    /// Where `name` stands, if it is present.
    pub fn position(&self, name: &EntryName) -> (position: Option<usize>)
        requires
            self.wf(),
        ensures
            match position {
                Some(i) => header_position(self@, name@) == Some(i as int),
                None => header_position(self@, name@) is None,
            },
    {
        let mut i: usize = 0;
        while i < self.entries.len()
            invariant
                0 <= i <= self@.len(),
                self@.len() == self.entries@.len(),
                self.wf(),
                forall|j: int| 0 <= j < i ==> (#[trigger] self@[j]).0 != name@,
            decreases self.entries@.len() - i,
        {
            if self.entries[i].0.same_as(name) {
                assert(self@[i as int].0 == name@);
                let ghost p = header_position(self@, name@);
                assert(p is Some);
                assert(p == Some(i as int)) by {
                    let k = p->Some_0;
                    assert(self@[k].0 == name@);
                    if k != i {
                        assert(k < i || k > i);
                    }
                }
                return Some(i);
            }
            i = i + 1;
        }
        None
    }

    /// The values under `name`, if it is present.
    pub fn get_values(&self, name: &EntryName) -> (values: Option<&Vec<Vec<u8>>>)
        requires
            self.wf(),
        ensures
            match header_position(self@, name@) {
                Some(i) => values matches Some(v) && values_view(v@) == self@[i].1,
                None => values is None,
            },
    {
        match self.position(name) {
            Some(i) => Some(&self.entries[i].1),
            None => None,
        }
    }

    /// Add `value` under `name`, after any values it already has.
    pub fn append(&mut self, name: EntryName, value: Vec<u8>)
        requires
            old(self).wf(),
            !(name@ is Pseudo),
        ensures
            final(self).wf(),
            final(self)@ == headers_append(old(self)@, name@, value@),
            final(self).never_indexed_marks() == old(self).never_indexed_marks(),
    {
        self.append_marked(name, value, false);
    }

    /// Add `value` under `name`, after any values it already has, marking it when it
    /// arrived never-indexed.
    pub fn append_marked(&mut self, name: EntryName, value: Vec<u8>, never_indexed: bool)
        requires
            old(self).wf(),
            !(name@ is Pseudo),
        ensures
            final(self).wf(),
            final(self)@ == headers_append(old(self)@, name@, value@),
            final(self).never_indexed_marks() == marks_append(
                old(self).never_indexed_marks(),
                old(self)@,
                name@,
                never_indexed,
            ),
    {
        let ghost h = self@;
        let ghost marks = self.never_indexed_marks();
        match self.position(&name) {
            Some(i) => {
                if never_indexed {
                    let count = self.entries[i].1.len();
                    assert(count == h[i as int].1.len()) by {
                        assert(values_view(self.entries@[i as int].1@) == h[i as int].1);
                    }
                    self.never_indexed.push((name.clone(), count));
                    assert(self.never_indexed_marks() =~= marks.push((name@, h[i as int].1.len())));
                }
                let (n, mut values) = self.entries.remove(i);
                assert(n@ == name@ && values_view(values@) == h[i as int].1) by {
                    assert(old(self).entries@[i as int] == (n, values));
                }
                values.push(value);
                assert(values_view(values@) =~= h[i as int].1.push(value@));
                self.entries.insert(i, (n, values));
                assert(self@ =~= h.update(i as int, (name@, h[i as int].1.push(value@))));
            },
            None => {
                if never_indexed {
                    self.never_indexed.push((name.clone(), 0));
                    assert(self.never_indexed_marks() =~= marks.push((name@, 0nat)));
                }
                let ghost v = value@;
                let one = vec![value];
                assert(values_view(one@) =~= seq![v]);
                self.entries.push((name, one));
                assert(self@ =~= h.push((name@, seq![value@])));
            },
        }
    }

    /// Set `value` as the only value under `name`.
    pub fn insert(&mut self, name: EntryName, value: Vec<u8>)
        requires
            old(self).wf(),
            !(name@ is Pseudo),
        ensures
            final(self).wf(),
            final(self)@ == headers_insert(old(self)@, name@, value@),
            final(self).never_indexed_marks() == marks_without(old(self).never_indexed_marks(), name@),
    {
        let ghost h = self@;
        self.drop_marks(&name);
        match self.position(&name) {
            Some(i) => {
                let (n, _) = self.entries.remove(i);
                assert(n@ == name@) by {
                    assert(old(self).entries@[i as int].0 == n);
                }
                let ghost v = value@;
                let one = vec![value];
                assert(values_view(one@) =~= seq![v]);
                self.entries.insert(i, (n, one));
                assert(self@ =~= h.update(i as int, (name@, seq![value@])));
            },
            None => {
                let ghost v = value@;
                let one = vec![value];
                assert(values_view(one@) =~= seq![v]);
                self.entries.push((name, one));
                assert(self@ =~= h.push((name@, seq![value@])));
            },
        }
    }
}

impl Headers {
    fn drop_marks(&mut self, name: &EntryName)
        ensures
            final(self)@ == old(self)@,
            final(self).entries@ == old(self).entries@,
            final(self).wf() == old(self).wf(),
            final(self).never_indexed_marks() == marks_without(old(self).never_indexed_marks(), name@),
    {
        let ghost marks = self.never_indexed_marks();
        let mut kept: Vec<(EntryName, usize)> = Vec::new();
        let mut i: usize = 0;
        proof {
            let none = marks.subrange(0, 0);
            assert(none =~= Seq::<(EntryNameView, nat)>::empty());
            reveal(Seq::filter);
            assert(none.filter(|m: (EntryNameView, nat)| m.0 != name@) =~= Seq::<(EntryNameView, nat)>::empty());
            assert(kept@.map_values(|m: (EntryName, usize)| (m.0@, m.1 as nat)) =~= Seq::<(EntryNameView, nat)>::empty());
        }
        while i < self.never_indexed.len()
            invariant
                i <= self.never_indexed@.len(),
                marks == self.never_indexed_marks(),
                kept@.map_values(|m: (EntryName, usize)| (m.0@, m.1 as nat)) == marks_without(
                    marks.subrange(0, i as int),
                    name@,
                ),
            decreases self.never_indexed@.len() - i,
        {
            let ghost before = kept@;
            proof {
                let next = marks.subrange(0, i + 1);
                assert(next.drop_last() =~= marks.subrange(0, i as int));
                assert(next.last() == marks[i as int]);
                marks.subrange(0, i as int).lemma_filter_push(
                    marks[i as int],
                    |m: (EntryNameView, nat)| m.0 != name@,
                );
                assert(marks.subrange(0, i as int).push(marks[i as int]) =~= next);
            }
            if !self.never_indexed[i].0.same_as(name) {
                let m = (self.never_indexed[i].0.clone(), self.never_indexed[i].1);
                kept.push(m);
                assert(kept@.map_values(|m: (EntryName, usize)| (m.0@, m.1 as nat)) =~= before.map_values(
                    |m: (EntryName, usize)| (m.0@, m.1 as nat),
                ).push(marks[i as int]));
            }
            i = i + 1;
        }
        assert(marks.subrange(0, i as int) =~= marks);
        self.never_indexed = kept;
    }
}

/// The pseudo-headers of a request or response.
#[derive(Debug)]
pub struct PseudoHeaders {
    pub method: Option<Method>,
    pub status: Option<Status>,
    pub path: Option<String>,
    pub scheme: Option<String>,
    pub authority: Option<String>,
    pub protocol: Option<String>,
}

/// The value of [`PseudoHeaders`].
pub struct PseudoHeadersView {
    pub method: Option<Method>,
    pub status: Option<Status>,
    pub path: Option<Seq<char>>,
    pub scheme: Option<Seq<char>>,
    pub authority: Option<Seq<char>>,
    pub protocol: Option<Seq<char>>,
}

pub open spec fn text_view(text: Option<String>) -> Option<Seq<char>> {
    match text {
        Some(t) => Some(t@),
        None => None,
    }
}

impl View for PseudoHeaders {
    type V = PseudoHeadersView;

    open spec fn view(&self) -> PseudoHeadersView {
        PseudoHeadersView {
            method: self.method,
            status: self.status,
            path: text_view(self.path),
            scheme: text_view(self.scheme),
            authority: text_view(self.authority),
            protocol: text_view(self.protocol),
        }
    }
}

pub open spec fn no_pseudo_headers() -> PseudoHeadersView {
    PseudoHeadersView {
        method: None,
        status: None,
        path: None,
        scheme: None,
        authority: None,
        protocol: None,
    }
}

impl PseudoHeaders {
    /// No pseudo-headers.
    pub fn default() -> (pseudos: PseudoHeaders)
        ensures
            pseudos@ == no_pseudo_headers(),
    {
        PseudoHeaders {
            method: None,
            status: None,
            path: None,
            scheme: None,
            authority: None,
            protocol: None,
        }
    }
}

/// A header block: pseudo-headers and headers.
#[derive(Debug)]
pub struct FieldSection {
    pub pseudo_headers: PseudoHeaders,
    pub headers: Headers,
}

/// The value of a [`FieldSection`].
pub struct FieldSectionView {
    pub pseudo_headers: PseudoHeadersView,
    pub headers: HeadersView,
    pub never_indexed: NeverIndexedView,
}

impl View for FieldSection {
    type V = FieldSectionView;

    open spec fn view(&self) -> FieldSectionView {
        FieldSectionView {
            pseudo_headers: self.pseudo_headers@,
            headers: self.headers@,
            never_indexed: self.headers.never_indexed_marks(),
        }
    }
}

impl FieldSection {
    /// A field section of the given pseudo-headers and headers.
    pub fn new(pseudo_headers: PseudoHeaders, headers: Headers) -> (section: FieldSection)
        ensures
            section@ == (FieldSectionView {
                pseudo_headers: pseudo_headers@,
                headers: headers@,
                never_indexed: headers.never_indexed_marks(),
            }),
            section.headers.wf() == headers.wf(),
    {
        FieldSection { pseudo_headers, headers }
    }

    /// Split into pseudo-headers and headers.
    pub fn into_parts(self) -> (parts: (PseudoHeaders, Headers))
        ensures
            parts.0@ == self@.pseudo_headers,
            parts.1@ == self@.headers,
            parts.1.wf() == self.headers.wf(),
    {
        (self.pseudo_headers, self.headers)
    }
}

} // verus!
