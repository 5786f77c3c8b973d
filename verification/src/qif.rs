//! The QPACK Interop Format (QIF): header blocks written as text, one `name<TAB>value`
//! line per field line, blocks separated by blank lines, `#` lines ignored. Pseudo-headers
//! keep their `:` prefix.
use vstd::prelude::*;
use vstd::string::StringSliceAdditionalSpecFns;
use vstd::utf8::encode_utf8;
use crate::entry_name::{name_from_wire, EntryName, EntryNameView};
use crate::headers::{FieldSection, PseudoHeaders, PseudoHeadersView};
use crate::instruction::QpackError;
use crate::method::method_bytes;
use crate::status::{decimal, status_code, Status};

verus! {

/// The value of a parsed block: its `(name, value)` lines in file order.
pub open spec fn group_view(group: Vec<(Vec<u8>, Vec<u8>)>) -> Seq<(Seq<u8>, Seq<u8>)> {
    group@.map_values(|p: (Vec<u8>, Vec<u8>)| (p.0@, p.1@))
}

/// The value of parsed blocks.
pub open spec fn groups_view(groups: Seq<Vec<(Vec<u8>, Vec<u8>)>>) -> Seq<Seq<(Seq<u8>, Seq<u8>)>> {
    groups.map_values(|g: Vec<(Vec<u8>, Vec<u8>)>| group_view(g))
}

/// The position of the first line feed at or after `from`, or the end of the content.
pub open spec fn next_newline(content: Seq<u8>, from: int) -> int
    decreases content.len() - from,
{
    if from < 0 || from >= content.len() {
        content.len() as int
    } else if content[from] == 10 {
        from
    } else {
        next_newline(content, from + 1)
    }
}

/// A line without its trailing carriage returns.
pub open spec fn trim_cr(line: Seq<u8>) -> Seq<u8>
    decreases line.len(),
{
    if line.len() > 0 && line.last() == 13 {
        trim_cr(line.drop_last())
    } else {
        line
    }
}

/// The position of the first tab at or after `from`.
pub open spec fn tab_position(line: Seq<u8>, from: int) -> Option<int>
    decreases line.len() - from,
{
    if from < 0 || from >= line.len() {
        None
    } else if line[from] == 9 {
        Some(from)
    } else {
        tab_position(line, from + 1)
    }
}

/// One line read into the blocks so far and the block being read: a comment is
/// skipped; a blank line ends a non-empty block; a line with a tab adds the pair around
/// its first tab; any other line is skipped.
pub open spec fn qif_line(
    groups: Seq<Seq<(Seq<u8>, Seq<u8>)>>,
    current: Seq<(Seq<u8>, Seq<u8>)>,
    line: Seq<u8>,
) -> (Seq<Seq<(Seq<u8>, Seq<u8>)>>, Seq<(Seq<u8>, Seq<u8>)>) {
    if line.len() > 0 && line[0] == 35 {
        (groups, current)
    } else if line.len() == 0 {
        if current.len() > 0 {
            (groups.push(current), Seq::empty())
        } else {
            (groups, current)
        }
    } else {
        match tab_position(line, 0) {
            Some(t) => (
                groups,
                current.push((line.subrange(0, t), line.subrange(t + 1, line.len() as int))),
            ),
            None => (groups, current),
        }
    }
}

/// Reading the lines from byte `from` on; the last block is kept when non-empty.
pub open spec fn qif_from(
    content: Seq<u8>,
    from: int,
    groups: Seq<Seq<(Seq<u8>, Seq<u8>)>>,
    current: Seq<(Seq<u8>, Seq<u8>)>,
) -> Seq<Seq<(Seq<u8>, Seq<u8>)>>
    decreases content.len() - from,
{
    if from < 0 || from > content.len() {
        groups
    } else {
        let end = next_newline(content, from);
        let (g, c) = qif_line(groups, current, trim_cr(content.subrange(from, end)));
        if end >= content.len() || end < from {
            if c.len() > 0 {
                g.push(c)
            } else {
                g
            }
        } else {
            qif_from(content, end + 1, g, c)
        }
    }
}

proof fn lemma_next_newline(content: Seq<u8>, from: int)
    requires
        0 <= from <= content.len(),
    ensures
        from <= next_newline(content, from) <= content.len(),
        next_newline(content, from) < content.len() ==> content[next_newline(content, from)] == 10,
        forall|k: int| from <= k < next_newline(content, from) ==> content[k] != 10,
    decreases content.len() - from,
{
    if from < content.len() && content[from] != 10 {
        lemma_next_newline(content, from + 1);
    }
}

proof fn lemma_tab_position(line: Seq<u8>, from: int)
    requires
        0 <= from,
    ensures
        tab_position(line, from) matches Some(t) ==> from <= t < line.len() && line[t] == 9,
    decreases line.len() - from,
{
    if from < line.len() && line[from] != 9 {
        lemma_tab_position(line, from + 1);
    }
}

fn find_newline(content: &[u8], from: usize) -> (end: usize)
    requires
        from <= content@.len(),
    ensures
        end == next_newline(content@, from as int),
{
    let mut k = from;
    while k < content.len()
        invariant
            from <= k <= content@.len(),
            next_newline(content@, from as int) == next_newline(content@, k as int),
        decreases content@.len() - k,
    {
        if content[k] == 10 {
            return k;
        }
        k = k + 1;
    }
    k
}

fn trimmed_end(content: &[u8], from: usize, end: usize) -> (trimmed: usize)
    requires
        from <= end <= content@.len(),
    ensures
        from <= trimmed <= end,
        content@.subrange(from as int, trimmed as int) == trim_cr(content@.subrange(from as int, end as int)),
{
    let mut k = end;
    while k > from && content[k - 1] == 13
        invariant
            from <= k <= end <= content@.len(),
            trim_cr(content@.subrange(from as int, end as int)) == trim_cr(content@.subrange(from as int, k as int)),
        decreases k,
    {
        assert(content@.subrange(from as int, k as int).drop_last() =~= content@.subrange(from as int, k - 1));
        k = k - 1;
    }
    k
}

fn find_tab(content: &[u8], from: usize, end: usize) -> (tab: Option<usize>)
    requires
        from <= end <= content@.len(),
    ensures
        match tab_position(content@.subrange(from as int, end as int), 0) {
            Some(t) => tab == Some((from + t) as usize),
            None => tab is None,
        },
{
    let ghost line = content@.subrange(from as int, end as int);
    let mut k = from;
    while k < end
        invariant
            from <= k <= end <= content@.len(),
            line == content@.subrange(from as int, end as int),
            tab_position(line, 0) == tab_position(line, k - from),
        decreases end - k,
    {
        if content[k] == 9 {
            return Some(k);
        }
        k = k + 1;
    }
    None
}

/// Parse QIF text into its blocks, each a list of `(name, value)` lines in file order.
pub fn parse(content: &str) -> (groups: Vec<Vec<(Vec<u8>, Vec<u8>)>>)
    ensures
        groups_view(groups@) == qif_from(content.spec_bytes(), 0, Seq::empty(), Seq::empty()),
{
    let bytes = content.as_bytes();
    let mut groups: Vec<Vec<(Vec<u8>, Vec<u8>)>> = Vec::new();
    let mut current: Vec<(Vec<u8>, Vec<u8>)> = Vec::new();
    let mut from: usize = 0;
    assert(groups_view(groups@) =~= Seq::<Seq<(Seq<u8>, Seq<u8>)>>::empty());
    assert(group_view(current) =~= Seq::<(Seq<u8>, Seq<u8>)>::empty());
    loop
        invariant
            from <= bytes@.len(),
            bytes@ == content.spec_bytes(),
            qif_from(bytes@, 0, Seq::empty(), Seq::empty()) == qif_from(
                bytes@,
                from as int,
                groups_view(groups@),
                group_view(current),
            ),
        decreases bytes@.len() - from,
    {
        let end = find_newline(bytes, from);
        proof {
            lemma_next_newline(bytes@, from as int);
        }
        let stop = trimmed_end(bytes, from, end);
        let ghost line = bytes@.subrange(from as int, stop as int);
        let ghost before_groups = groups_view(groups@);
        let ghost before_current = group_view(current);
        if stop > from && bytes[from] == 35 {
        } else if stop == from {
            if current.len() > 0 {
                let done = current;
                current = Vec::new();
                groups.push(done);
                proof {
                    assert(groups_view(groups@) =~= before_groups.push(before_current));
                    assert(group_view(current) =~= Seq::<(Seq<u8>, Seq<u8>)>::empty());
                }
            }
        } else {
            proof {
                lemma_tab_position(line, 0);
            }
            if let Some(t) = find_tab(bytes, from, stop) {
                let name = vstd::slice::slice_to_vec(slice_range(bytes, from, t));
                let value = vstd::slice::slice_to_vec(slice_range(bytes, t + 1, stop));
                current.push((name, value));
                proof {
                    assert(line.subrange(0, t - from) =~= bytes@.subrange(from as int, t as int));
                    assert(line.subrange(t - from + 1, line.len() as int) =~= bytes@.subrange(t + 1, stop as int));
                    assert(group_view(current) =~= before_current.push(
                        (bytes@.subrange(from as int, t as int), bytes@.subrange(t + 1, stop as int)),
                    ));
                }
            }
        }
        if end >= bytes.len() {
            if current.len() > 0 {
                let ghost g = groups_view(groups@);
                let ghost c = group_view(current);
                groups.push(current);
                assert(groups_view(groups@) =~= g.push(c));
            }
            return groups;
        }
        from = end + 1;
    }
}

/// `bytes[from..to]`.
fn slice_range(bytes: &[u8], from: usize, to: usize) -> (part: &[u8])
    requires
        from <= to <= bytes@.len(),
    ensures
        part@ == bytes@.subrange(from as int, to as int),
{
    let (head, _) = bytes.split_at(to);
    let (_, part) = head.split_at(from);
    part
}

/// The field lines to encode for a block: each name read as it is on the wire, the
/// values as given, none of them never-indexed.  Refused at the first name that does not
/// read as a known header, a pseudo-header or a valid lowercase name.
pub open spec fn block_field_lines(group: Seq<(Seq<u8>, Seq<u8>)>) -> Result<Seq<(EntryNameView, Seq<u8>, bool)>, QpackError>
    decreases group.len(),
{
    if group.len() == 0 {
        Ok(Seq::empty())
    } else {
        match block_field_lines(group.drop_last()) {
            Err(e) => Err(e),
            Ok(lines) => match name_from_wire(group.last().0) {
                None => Err(QpackError::InvalidHeaderName),
                Some(n) => Ok(lines.push((n, group.last().1, false))),
            },
        }
    }
}

proof fn lemma_block_error_stays(g: Seq<(Seq<u8>, Seq<u8>)>, k: int)
    requires
        0 <= k <= g.len(),
        block_field_lines(g.subrange(0, k)) is Err,
    ensures
        block_field_lines(g) == block_field_lines(g.subrange(0, k)),
    decreases g.len() - k,
{
    if k == g.len() {
        assert(g.subrange(0, k) =~= g);
    } else {
        let next = g.subrange(0, k + 1);
        assert(next.drop_last() =~= g.subrange(0, k));
        lemma_block_error_stays(g, k + 1);
    }
}

/// The field lines to encode for a parsed block (see [`block_field_lines`]).
pub fn build_field_lines(group: &Vec<(Vec<u8>, Vec<u8>)>) -> (lines: Result<Vec<(EntryName, Vec<u8>, bool)>, QpackError>)
    ensures
        match block_field_lines(group_view(*group)) {
            Ok(v) => lines matches Ok(l) && l@.map_values(|x: (EntryName, Vec<u8>, bool)| (x.0@, x.1@, x.2)) == v,
            Err(e) => lines == Err::<Vec<(EntryName, Vec<u8>, bool)>, QpackError>(e),
        },
{
    let ghost g = group_view(*group);
    let mut out: Vec<(EntryName, Vec<u8>, bool)> = Vec::new();
    let mut i: usize = 0;
    assert(g.subrange(0, 0) =~= Seq::<(Seq<u8>, Seq<u8>)>::empty());
    assert(out@.map_values(|x: (EntryName, Vec<u8>, bool)| (x.0@, x.1@, x.2)) =~= Seq::<
        (EntryNameView, Seq<u8>, bool),
    >::empty());
    while i < group.len()
        invariant
            i <= group@.len(),
            g == group_view(*group),
            block_field_lines(g.subrange(0, i as int)) == Ok::<Seq<(EntryNameView, Seq<u8>, bool)>, QpackError>(
                out@.map_values(|x: (EntryName, Vec<u8>, bool)| (x.0@, x.1@, x.2)),
            ),
        decreases group@.len() - i,
    {
        proof {
            let next = g.subrange(0, i + 1);
            assert(next.drop_last() =~= g.subrange(0, i as int));
        }
        let pair = &group[i];
        let name = match EntryName::from_wire(pair.0.as_slice()) {
            Ok(n) => n,
            Err(e) => {
                proof {
                    assert(pair.0@ == g[i as int].0);
                    lemma_block_error_stays(g, i + 1);
                }
                return Err(e);
            },
        };
        let ghost before = out@;
        assert(pair.0@ == g[i as int].0 && pair.1@ == g[i as int].1);
        assert(name_from_wire(g[i as int].0) == Some(name@));
        out.push((name, vstd::slice::slice_to_vec(pair.1.as_slice()), false));
        assert(out@.map_values(|x: (EntryName, Vec<u8>, bool)| (x.0@, x.1@, x.2)) =~= before.map_values(
            |x: (EntryName, Vec<u8>, bool)| (x.0@, x.1@, x.2),
        ).push((name@, g[i as int].1, false)));
        i = i + 1;
    }
    assert(g.subrange(0, i as int) =~= g);
    Ok(out)
}

/// A status as QIF writes it: its three-digit code alone.
pub fn status_code_str(status: Status) -> (text: Vec<u8>)
    ensures
        text@ == decimal(status_code(status) as nat),
{
    status.code()
}

/// The bytes of optional text.
pub open spec fn text_bytes(text: Option<Seq<char>>) -> Option<Seq<u8>> {
    match text {
        Some(t) => Some(encode_utf8(t)),
        None => None,
    }
}

/// A pseudo-header line when the value is present.
pub open spec fn optional_pair(name: Seq<u8>, value: Option<Seq<u8>>) -> Seq<(Seq<u8>, Seq<u8>)> {
    match value {
        Some(v) => seq![(name, v)],
        None => Seq::empty(),
    }
}

/// The pseudo-header lines in QIF order: method, status, path, scheme, authority,
/// protocol.
pub open spec fn pseudo_lines(p: PseudoHeadersView) -> Seq<(Seq<u8>, Seq<u8>)> {
    optional_pair(
        ":method".spec_bytes(),
        match p.method {
            Some(m) => Some(method_bytes(m)),
            None => None,
        },
    ) + optional_pair(
        ":status".spec_bytes(),
        match p.status {
            Some(s) => Some(decimal(status_code(s) as nat)),
            None => None,
        },
    ) + optional_pair(":path".spec_bytes(), text_bytes(p.path)) + optional_pair(
        ":scheme".spec_bytes(),
        text_bytes(p.scheme),
    ) + optional_pair(":authority".spec_bytes(), text_bytes(p.authority)) + optional_pair(
        ":protocol".spec_bytes(),
        text_bytes(p.protocol),
    )
}

fn push_optional(out: &mut Vec<(Vec<u8>, Vec<u8>)>, name: &str, value: Option<Vec<u8>>)
    ensures
        group_view(*final(out)) == group_view(*old(out)) + optional_pair(
            name.spec_bytes(),
            match value {
                Some(v) => Some(v@),
                None => None,
            },
        ),
{
    let ghost before = group_view(*out);
    if let Some(v) = value {
        let n = vstd::slice::slice_to_vec(name.as_bytes());
        out.push((n, v));
    }
    assert(group_view(*out) =~= before + optional_pair(
        name.spec_bytes(),
        match value {
            Some(v) => Some(v@),
            None => None,
        },
    ));
}

fn text_to_bytes(text: &Option<String>) -> (bytes: Option<Vec<u8>>)
    ensures
        match bytes {
            Some(b) => text_bytes(crate::headers::text_view(*text)) == Some(b@),
            None => text_bytes(crate::headers::text_view(*text)) is None,
        },
{
    match text {
        Some(t) => Some(vstd::slice::slice_to_vec(t.as_str().as_bytes())),
        None => None,
    }
}

proof fn lemma_concat_step(o: Seq<(Seq<u8>, Seq<u8>)>, acc: Seq<(Seq<u8>, Seq<u8>)>, x: Seq<(Seq<u8>, Seq<u8>)>)
    ensures
        (o + acc) + x == o + (acc + x),
{
    assert((o + acc) + x =~= o + (acc + x));
}

fn push_method_status(p: &PseudoHeaders, out: &mut Vec<(Vec<u8>, Vec<u8>)>)
    ensures
        group_view(*final(out)) == group_view(*old(out)) + (optional_pair(
            ":method".spec_bytes(),
            match p@.method {
                Some(m) => Some(method_bytes(m)),
                None => None,
            },
        ) + optional_pair(
            ":status".spec_bytes(),
            match p@.status {
                Some(s) => Some(decimal(status_code(s) as nat)),
                None => None,
            },
        )),
{
    let ghost o = group_view(*out);
    let method = match p.method {
        Some(m) => Some(vstd::slice::slice_to_vec(m.as_str().as_bytes())),
        None => None,
    };
    push_optional(out, ":method", method);
    let status = match p.status {
        Some(s) => Some(status_code_str(s)),
        None => None,
    };
    let ghost mid = group_view(*out);
    push_optional(out, ":status", status);
    proof {
        let a = optional_pair(
            ":method".spec_bytes(),
            match p@.method {
                Some(m) => Some(method_bytes(m)),
                None => None,
            },
        );
        let b = optional_pair(
            ":status".spec_bytes(),
            match p@.status {
                Some(s) => Some(decimal(status_code(s) as nat)),
                None => None,
            },
        );
        lemma_concat_step(o, a, b);
    }
}

fn push_texts(p: &PseudoHeaders, out: &mut Vec<(Vec<u8>, Vec<u8>)>)
    ensures
        group_view(*final(out)) == group_view(*old(out)) + (optional_pair(":path".spec_bytes(), text_bytes(p@.path))
            + optional_pair(":scheme".spec_bytes(), text_bytes(p@.scheme)) + optional_pair(
            ":authority".spec_bytes(),
            text_bytes(p@.authority),
        ) + optional_pair(":protocol".spec_bytes(), text_bytes(p@.protocol))),
{
    let ghost o = group_view(*out);
    let ghost c = optional_pair(":path".spec_bytes(), text_bytes(p@.path));
    let ghost d = optional_pair(":scheme".spec_bytes(), text_bytes(p@.scheme));
    let ghost e = optional_pair(":authority".spec_bytes(), text_bytes(p@.authority));
    let ghost f = optional_pair(":protocol".spec_bytes(), text_bytes(p@.protocol));
    push_optional(out, ":path", text_to_bytes(&p.path));
    push_optional(out, ":scheme", text_to_bytes(&p.scheme));
    proof {
        lemma_concat_step(o, c, d);
    }
    push_optional(out, ":authority", text_to_bytes(&p.authority));
    proof {
        lemma_concat_step(o, c + d, e);
    }
    push_optional(out, ":protocol", text_to_bytes(&p.protocol));
    proof {
        lemma_concat_step(o, c + d + e, f);
    }
}

/// Append the pseudo-header lines of `p` to `out` (see [`pseudo_lines`]).
pub fn pseudo_pairs(p: &PseudoHeaders, out: &mut Vec<(Vec<u8>, Vec<u8>)>)
    ensures
        group_view(*final(out)) == group_view(*old(out)) + pseudo_lines(p@),
{
    let ghost o = group_view(*out);
    push_method_status(p, out);
    let ghost mid = group_view(*out);
    push_texts(p, out);
    proof {
        let ab = mid.subrange(o.len() as int, mid.len() as int);
        assert(mid =~= o + ab);
        let rest = group_view(*out).subrange(mid.len() as int, group_view(*out).len() as int);
        lemma_concat_step(o, ab, rest);
        assert(pseudo_lines(p@) =~= ab + rest);
    }
}

/// The lines of headers: each name's bytes with each of its values, in order.
pub open spec fn header_lines(headers: Seq<(EntryNameView, Seq<Seq<u8>>)>) -> Seq<(Seq<u8>, Seq<u8>)>
    decreases headers.len(),
{
    if headers.len() == 0 {
        Seq::empty()
    } else {
        header_lines(headers.drop_last()) + headers.last().1.map_values(
            |v: Seq<u8>| (crate::entry_name::name_bytes(headers.last().0), v),
        )
    }
}

/// A decoded field section as QIF lines: the pseudo-headers, then every header value
/// under its lowercase name.
pub fn field_section_to_pairs(fs: FieldSection) -> (pairs: Vec<(Vec<u8>, Vec<u8>)>)
    ensures
        group_view(pairs) == pseudo_lines(fs@.pseudo_headers) + header_lines(fs@.headers),
{
    let (pseudos, headers) = fs.into_parts();
    let mut pairs: Vec<(Vec<u8>, Vec<u8>)> = Vec::new();
    assert(group_view(pairs) =~= Seq::<(Seq<u8>, Seq<u8>)>::empty());
    pseudo_pairs(&pseudos, &mut pairs);
    let ghost start = group_view(pairs);
    let mut i: usize = 0;
    assert(headers@.subrange(0, 0) =~= Seq::<(EntryNameView, Seq<Seq<u8>>)>::empty());
    while i < headers.len()
        invariant
            i <= headers@.len(),
            group_view(pairs) == start + header_lines(headers@.subrange(0, i as int)),
        decreases headers@.len() - i,
    {
        let (name, values) = headers.entry(i);
        let ghost base = group_view(pairs);
        let ghost name_view = name@;
        let mut k: usize = 0;
        assert(values@.subrange(0, 0) =~= Seq::<Vec<u8>>::empty());
        while k < values.len()
            invariant
                k <= values@.len(),
                name@ == name_view,
                group_view(pairs) == base + crate::headers::values_view(values@.subrange(0, k as int)).map_values(
                    |v: Seq<u8>| (crate::entry_name::name_bytes(name_view), v),
                ),
            decreases values@.len() - k,
        {
            let ghost before = group_view(pairs);
            pairs.push((vstd::slice::slice_to_vec(name.as_bytes()), vstd::slice::slice_to_vec(values[k].as_slice())));
            proof {
                let nb = crate::entry_name::name_bytes(name_view);
                let prev = crate::headers::values_view(values@.subrange(0, k as int));
                let next = crate::headers::values_view(values@.subrange(0, k + 1));
                assert(next =~= prev.push(values@[k as int]@));
                let f = |v: Seq<u8>| (nb, v);
                assert(next.map_values(f) =~= prev.map_values(f).push((nb, values@[k as int]@)));
                assert(group_view(pairs) =~= before.push((nb, values@[k as int]@)));
            }
            k = k + 1;
        }
        proof {
            let next = headers@.subrange(0, i + 1);
            assert(next.drop_last() =~= headers@.subrange(0, i as int));
            assert(values@.subrange(0, k as int) =~= values@);
            assert(group_view(pairs) =~= start + header_lines(next));
        }
        i = i + 1;
    }
    assert(headers@.subrange(0, i as int) =~= headers@);
    pairs
}

} // verus!
