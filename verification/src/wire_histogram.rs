//! Wire-level instruction histograms of encoded QPACK output, for comparing encoders bucket
//! for bucket: how many of each encoder-stream instruction (RFC 9204 §4.3) and of each
//! field-line representation (§4.5) a run produced, with section and byte totals. The
//! histogram of an interop record stream (see [`crate::interop_records`]) is built by
//! walking its records; a truncated last record ends the walk.
use vstd::prelude::*;
use crate::encoder_instruction::{encoder_instruction_decoding, EncoderInstruction, EncoderInstructionView};
use crate::field_section::{field_line_decoding, prefix_decoding, FieldLine, FieldLineInstruction, FieldSectionPrefix};
use crate::interop_records::{big_endian, pow256, read_big_endian};

verus! {

/// Wire-visible instruction counts for a run of encoded bytes.
#[derive(Debug, Default, Clone, Copy)]
pub struct WireHistogram {
    pub set_capacity: u64,
    pub insert_literal_name: u64,
    pub insert_static_name_ref: u64,
    pub insert_dynamic_name_ref: u64,
    pub duplicate: u64,
    pub indexed_static: u64,
    pub indexed_dynamic_pre_base: u64,
    pub indexed_post_base: u64,
    pub literal_static_name_ref: u64,
    pub literal_dynamic_name_ref: u64,
    pub literal_post_base_name_ref: u64,
    pub literal_literal_name: u64,
    /// Header-block records seen.
    pub n_sections: u64,
    /// Bytes in header-block records.
    pub section_bytes: u64,
    /// Bytes in encoder-stream records.
    pub encoder_stream_bytes: u64,
}

/// The value of a [`WireHistogram`].
pub struct HistogramView {
    pub set_capacity: nat,
    pub insert_literal_name: nat,
    pub insert_static_name_ref: nat,
    pub insert_dynamic_name_ref: nat,
    pub duplicate: nat,
    pub indexed_static: nat,
    pub indexed_dynamic_pre_base: nat,
    pub indexed_post_base: nat,
    pub literal_static_name_ref: nat,
    pub literal_dynamic_name_ref: nat,
    pub literal_post_base_name_ref: nat,
    pub literal_literal_name: nat,
    pub n_sections: nat,
    pub section_bytes: nat,
    pub encoder_stream_bytes: nat,
}

impl View for WireHistogram {
    type V = HistogramView;

    open spec fn view(&self) -> HistogramView {
        HistogramView {
            set_capacity: self.set_capacity as nat,
            insert_literal_name: self.insert_literal_name as nat,
            insert_static_name_ref: self.insert_static_name_ref as nat,
            insert_dynamic_name_ref: self.insert_dynamic_name_ref as nat,
            duplicate: self.duplicate as nat,
            indexed_static: self.indexed_static as nat,
            indexed_dynamic_pre_base: self.indexed_dynamic_pre_base as nat,
            indexed_post_base: self.indexed_post_base as nat,
            literal_static_name_ref: self.literal_static_name_ref as nat,
            literal_dynamic_name_ref: self.literal_dynamic_name_ref as nat,
            literal_post_base_name_ref: self.literal_post_base_name_ref as nat,
            literal_literal_name: self.literal_literal_name as nat,
            n_sections: self.n_sections as nat,
            section_bytes: self.section_bytes as nat,
            encoder_stream_bytes: self.encoder_stream_bytes as nat,
        }
    }
}

/// The histogram with every count zero.
pub open spec fn empty_histogram() -> HistogramView {
    HistogramView {
        set_capacity: 0,
        insert_literal_name: 0,
        insert_static_name_ref: 0,
        insert_dynamic_name_ref: 0,
        duplicate: 0,
        indexed_static: 0,
        indexed_dynamic_pre_base: 0,
        indexed_post_base: 0,
        literal_static_name_ref: 0,
        literal_dynamic_name_ref: 0,
        literal_post_base_name_ref: 0,
        literal_literal_name: 0,
        n_sections: 0,
        section_bytes: 0,
        encoder_stream_bytes: 0,
    }
}

/// Two histograms summed bucket by bucket.
pub open spec fn histogram_sum(a: HistogramView, b: HistogramView) -> HistogramView {
    HistogramView {
        set_capacity: a.set_capacity + b.set_capacity,
        insert_literal_name: a.insert_literal_name + b.insert_literal_name,
        insert_static_name_ref: a.insert_static_name_ref + b.insert_static_name_ref,
        insert_dynamic_name_ref: a.insert_dynamic_name_ref + b.insert_dynamic_name_ref,
        duplicate: a.duplicate + b.duplicate,
        indexed_static: a.indexed_static + b.indexed_static,
        indexed_dynamic_pre_base: a.indexed_dynamic_pre_base + b.indexed_dynamic_pre_base,
        indexed_post_base: a.indexed_post_base + b.indexed_post_base,
        literal_static_name_ref: a.literal_static_name_ref + b.literal_static_name_ref,
        literal_dynamic_name_ref: a.literal_dynamic_name_ref + b.literal_dynamic_name_ref,
        literal_post_base_name_ref: a.literal_post_base_name_ref + b.literal_post_base_name_ref,
        literal_literal_name: a.literal_literal_name + b.literal_literal_name,
        n_sections: a.n_sections + b.n_sections,
        section_bytes: a.section_bytes + b.section_bytes,
        encoder_stream_bytes: a.encoder_stream_bytes + b.encoder_stream_bytes,
    }
}

/// The sum of all buckets.
pub open spec fn histogram_total(h: HistogramView) -> nat {
    h.set_capacity + h.insert_literal_name + h.insert_static_name_ref + h.insert_dynamic_name_ref
        + h.duplicate + h.indexed_static + h.indexed_dynamic_pre_base + h.indexed_post_base
        + h.literal_static_name_ref + h.literal_dynamic_name_ref + h.literal_post_base_name_ref
        + h.literal_literal_name + h.n_sections + h.section_bytes + h.encoder_stream_bytes
}

/// Every bucket can grow by `n` without leaving 64 bits.
pub open spec fn room_for(h: HistogramView, n: nat) -> bool {
    histogram_total(h) + n <= u64::MAX
}

/// One encoder-stream instruction counted.
pub open spec fn count_encoder_instruction(h: HistogramView, i: EncoderInstructionView) -> HistogramView {
    match i {
        EncoderInstructionView::SetCapacity(_) => HistogramView { set_capacity: h.set_capacity + 1, ..h },
        EncoderInstructionView::InsertWithLiteralName { .. } => HistogramView {
            insert_literal_name: h.insert_literal_name + 1,
            ..h
        },
        EncoderInstructionView::InsertWithStaticNameRef { .. } => HistogramView {
            insert_static_name_ref: h.insert_static_name_ref + 1,
            ..h
        },
        EncoderInstructionView::InsertWithDynamicNameRef { .. } => HistogramView {
            insert_dynamic_name_ref: h.insert_dynamic_name_ref + 1,
            ..h
        },
        EncoderInstructionView::Duplicate { .. } => HistogramView { duplicate: h.duplicate + 1, ..h },
    }
}

/// Encoder-stream instructions counted in order.
pub open spec fn count_encoder_instructions(h: HistogramView, s: Seq<EncoderInstructionView>) -> HistogramView
    decreases s.len(),
{
    if s.len() == 0 {
        h
    } else {
        count_encoder_instruction(count_encoder_instructions(h, s.drop_last()), s.last())
    }
}

/// One field line counted.
pub open spec fn count_field_line(h: HistogramView, line: FieldLine) -> HistogramView {
    match line {
        FieldLine::IndexedStatic { .. } => HistogramView { indexed_static: h.indexed_static + 1, ..h },
        FieldLine::IndexedDynamic { .. } => HistogramView {
            indexed_dynamic_pre_base: h.indexed_dynamic_pre_base + 1,
            ..h
        },
        FieldLine::IndexedPostBase { .. } => HistogramView { indexed_post_base: h.indexed_post_base + 1, ..h },
        FieldLine::LiteralStaticNameRef { .. } => HistogramView {
            literal_static_name_ref: h.literal_static_name_ref + 1,
            ..h
        },
        FieldLine::LiteralDynamicNameRef { .. } => HistogramView {
            literal_dynamic_name_ref: h.literal_dynamic_name_ref + 1,
            ..h
        },
        FieldLine::LiteralPostBaseNameRef { .. } => HistogramView {
            literal_post_base_name_ref: h.literal_post_base_name_ref + 1,
            ..h
        },
        FieldLine::LiteralLiteralName { .. } => HistogramView {
            literal_literal_name: h.literal_literal_name + 1,
            ..h
        },
    }
}

/// Field lines counted in order.
pub open spec fn count_field_lines(h: HistogramView, s: Seq<FieldLine>) -> HistogramView
    decreases s.len(),
{
    if s.len() == 0 {
        h
    } else {
        count_field_line(count_field_lines(h, s.drop_last()), s.last())
    }
}

/// The encoder-stream instructions at the start of `input`, read one after another until
/// one does not parse (string lengths unbounded).
pub open spec fn encoder_stream_instructions(input: Seq<u8>) -> Seq<EncoderInstructionView>
    decreases input.len(),
{
    match encoder_instruction_decoding(input, usize::MAX as nat) {
        Ok((i, n)) => if 0 < n <= input.len() {
            seq![i] + encoder_stream_instructions(input.subrange(n as int, input.len() as int))
        } else {
            Seq::empty()
        },
        Err(_) => Seq::empty(),
    }
}

/// The field lines at the start of `input`, read one after another until one does not
/// parse or the input ends.
pub open spec fn field_lines_until_error(input: Seq<u8>) -> Seq<FieldLine>
    decreases input.len(),
{
    if input.len() == 0 {
        Seq::empty()
    } else {
        match field_line_decoding(input) {
            Ok((line, n)) => if 0 < n <= input.len() {
                seq![line] + field_lines_until_error(input.subrange(n as int, input.len() as int))
            } else {
                Seq::empty()
            },
            Err(_) => Seq::empty(),
        }
    }
}

/// The field lines of a header block: none when its prefix does not parse.
pub open spec fn header_block_lines(block: Seq<u8>) -> Seq<FieldLine> {
    match prefix_decoding(block) {
        Ok((_, n)) => field_lines_until_error(block.subrange(n as int, block.len() as int)),
        Err(_) => Seq::empty(),
    }
}

/// The histogram of an interop record stream from byte `pos` on, added to `h`. A record
/// that claims more bytes than remain ends the walk, as do fewer than 12 trailing bytes.
pub open spec fn out_histogram(data: Seq<u8>, pos: nat, h: HistogramView) -> HistogramView
    decreases data.len() - pos,
{
    if pos + 12 > data.len() {
        h
    } else {
        let stream_id = big_endian(data.subrange(pos as int, (pos + 8) as int));
        let length = big_endian(data.subrange((pos + 8) as int, (pos + 12) as int));
        let start = pos + 12;
        if start + length > data.len() {
            h
        } else {
            let payload = data.subrange(start as int, (start + length) as int);
            let next = if stream_id == 0 {
                count_encoder_instructions(
                    HistogramView { encoder_stream_bytes: h.encoder_stream_bytes + length, ..h },
                    encoder_stream_instructions(payload),
                )
            } else {
                count_field_lines(
                    HistogramView {
                        n_sections: h.n_sections + 1,
                        section_bytes: h.section_bytes + length,
                        ..h
                    },
                    header_block_lines(payload),
                )
            };
            out_histogram(data, start + length, next)
        }
    }
}

/// Counting instructions adds one to the total per instruction.
proof fn lemma_count_encoder_total(h: HistogramView, s: Seq<EncoderInstructionView>)
    ensures
        histogram_total(count_encoder_instructions(h, s)) == histogram_total(h) + s.len(),
    decreases s.len(),
{
    if s.len() > 0 {
        lemma_count_encoder_total(h, s.drop_last());
    }
}

/// Counting field lines adds one to the total per line.
proof fn lemma_count_lines_total(h: HistogramView, s: Seq<FieldLine>)
    ensures
        histogram_total(count_field_lines(h, s)) == histogram_total(h) + s.len(),
    decreases s.len(),
{
    if s.len() > 0 {
        lemma_count_lines_total(h, s.drop_last());
    }
}

/// There are no more instructions than bytes.
proof fn lemma_encoder_stream_length(input: Seq<u8>)
    ensures
        encoder_stream_instructions(input).len() <= input.len(),
    decreases input.len(),
{
    if let Ok((i, n)) = encoder_instruction_decoding(input, usize::MAX as nat) {
        if 0 < n <= input.len() {
            lemma_encoder_stream_length(input.subrange(n as int, input.len() as int));
        }
    }
}

/// There are no more field lines than bytes.
proof fn lemma_field_lines_length(input: Seq<u8>)
    ensures
        field_lines_until_error(input).len() <= input.len(),
    decreases input.len(),
{
    if input.len() > 0 {
        if let Ok((line, n)) = field_line_decoding(input) {
            if 0 < n <= input.len() {
                lemma_field_lines_length(input.subrange(n as int, input.len() as int));
            }
        }
    }
}

/// A header block holds no more field lines than bytes.
proof fn lemma_header_block_length(block: Seq<u8>)
    ensures
        header_block_lines(block).len() <= block.len(),
{
    if let Ok((_, k)) = prefix_decoding(block) {
        crate::varint::lemma_decoding_bounded(block, 8);
        if let Ok((_, n)) = crate::varint::decoding(block, 8) {
            if n < block.len() {
                crate::varint::lemma_decoding_bounded(block.subrange(n as int, block.len() as int), 7);
            }
        }
        lemma_field_lines_length(block.subrange(k as int, block.len() as int));
    }
}

impl WireHistogram {
    /// A histogram with every count zero.
    pub fn new() -> (h: WireHistogram)
        ensures
            h@ == empty_histogram(),
    {
        WireHistogram {
            set_capacity: 0,
            insert_literal_name: 0,
            insert_static_name_ref: 0,
            insert_dynamic_name_ref: 0,
            duplicate: 0,
            indexed_static: 0,
            indexed_dynamic_pre_base: 0,
            indexed_post_base: 0,
            literal_static_name_ref: 0,
            literal_dynamic_name_ref: 0,
            literal_post_base_name_ref: 0,
            literal_literal_name: 0,
            n_sections: 0,
            section_bytes: 0,
            encoder_stream_bytes: 0,
        }
    }

    /// Sum `other` into `self`, bucket by bucket.
    pub fn add(&mut self, other: &Self)
        requires
            histogram_total(old(self)@) + histogram_total(other@) <= u64::MAX,
        ensures
            final(self)@ == histogram_sum(old(self)@, other@),
    {
        self.set_capacity = self.set_capacity + other.set_capacity;
        self.insert_literal_name = self.insert_literal_name + other.insert_literal_name;
        self.insert_static_name_ref = self.insert_static_name_ref + other.insert_static_name_ref;
        self.insert_dynamic_name_ref = self.insert_dynamic_name_ref + other.insert_dynamic_name_ref;
        self.duplicate = self.duplicate + other.duplicate;
        self.indexed_static = self.indexed_static + other.indexed_static;
        self.indexed_dynamic_pre_base = self.indexed_dynamic_pre_base + other.indexed_dynamic_pre_base;
        self.indexed_post_base = self.indexed_post_base + other.indexed_post_base;
        self.literal_static_name_ref = self.literal_static_name_ref + other.literal_static_name_ref;
        self.literal_dynamic_name_ref = self.literal_dynamic_name_ref + other.literal_dynamic_name_ref;
        self.literal_post_base_name_ref = self.literal_post_base_name_ref + other.literal_post_base_name_ref;
        self.literal_literal_name = self.literal_literal_name + other.literal_literal_name;
        self.n_sections = self.n_sections + other.n_sections;
        self.section_bytes = self.section_bytes + other.section_bytes;
        self.encoder_stream_bytes = self.encoder_stream_bytes + other.encoder_stream_bytes;
    }

    /// Encoder-stream inserts of every flavour (not Duplicate or Set Capacity).
    pub fn inserts_total(&self) -> (total: u64)
        requires
            histogram_total(self@) <= u64::MAX,
        ensures
            total == self.insert_literal_name + self.insert_static_name_ref + self.insert_dynamic_name_ref,
    {
        self.insert_literal_name + self.insert_static_name_ref + self.insert_dynamic_name_ref
    }

    /// Indexed dynamic field lines, pre-base and post-base together.
    pub fn indexed_dynamic_total(&self) -> (total: u64)
        requires
            histogram_total(self@) <= u64::MAX,
        ensures
            total == self.indexed_dynamic_pre_base + self.indexed_post_base,
    {
        self.indexed_dynamic_pre_base + self.indexed_post_base
    }

    /// Literal field lines with a dynamic name reference, pre-base and post-base together.
    pub fn literal_dyn_name_total(&self) -> (total: u64)
        requires
            histogram_total(self@) <= u64::MAX,
        ensures
            total == self.literal_dynamic_name_ref + self.literal_post_base_name_ref,
    {
        self.literal_dynamic_name_ref + self.literal_post_base_name_ref
    }

    /// Count one encoder-stream instruction.
    fn count_encoder(&mut self, instruction: &EncoderInstruction)
        requires
            histogram_total(old(self)@) < u64::MAX,
        ensures
            final(self)@ == count_encoder_instruction(old(self)@, instruction@),
    {
        match instruction {
            EncoderInstruction::SetCapacity(_) => self.set_capacity = self.set_capacity + 1,
            EncoderInstruction::InsertWithLiteralName { .. } => {
                self.insert_literal_name = self.insert_literal_name + 1
            },
            EncoderInstruction::InsertWithStaticNameRef { .. } => {
                self.insert_static_name_ref = self.insert_static_name_ref + 1
            },
            EncoderInstruction::InsertWithDynamicNameRef { .. } => {
                self.insert_dynamic_name_ref = self.insert_dynamic_name_ref + 1
            },
            EncoderInstruction::Duplicate { .. } => self.duplicate = self.duplicate + 1,
        }
    }

    /// Count one field line.
    fn count_line(&mut self, line: &FieldLineInstruction)
        requires
            histogram_total(old(self)@) < u64::MAX,
        ensures
            final(self)@ == count_field_line(old(self)@, line@),
    {
        match line {
            FieldLineInstruction::IndexedStatic { .. } => self.indexed_static = self.indexed_static + 1,
            FieldLineInstruction::IndexedDynamic { .. } => {
                self.indexed_dynamic_pre_base = self.indexed_dynamic_pre_base + 1
            },
            FieldLineInstruction::IndexedPostBase { .. } => {
                self.indexed_post_base = self.indexed_post_base + 1
            },
            FieldLineInstruction::LiteralStaticNameRef { .. } => {
                self.literal_static_name_ref = self.literal_static_name_ref + 1
            },
            FieldLineInstruction::LiteralDynamicNameRef { .. } => {
                self.literal_dynamic_name_ref = self.literal_dynamic_name_ref + 1
            },
            FieldLineInstruction::LiteralPostBaseNameRef { .. } => {
                self.literal_post_base_name_ref = self.literal_post_base_name_ref + 1
            },
            FieldLineInstruction::LiteralLiteralName { .. } => {
                self.literal_literal_name = self.literal_literal_name + 1
            },
        }
    }
}

/// Read encoder-stream instructions from `bytes` one after another until one does not
/// parse.
pub fn parse_encoder_stream_for_dump(bytes: &[u8]) -> (instructions: Vec<EncoderInstruction>)
    ensures
        instructions@.map_values(|i: EncoderInstruction| i@) == encoder_stream_instructions(bytes@),
{
    let mut out: Vec<EncoderInstruction> = Vec::new();
    let mut stream = bytes;
    let ghost whole = encoder_stream_instructions(bytes@);
    loop
        invariant
            whole == encoder_stream_instructions(bytes@),
            whole == out@.map_values(|i: EncoderInstruction| i@) + encoder_stream_instructions(stream@),
        decreases stream@.len(),
    {
        let ghost before = out@.map_values(|i: EncoderInstruction| i@);
        match EncoderInstruction::parse(stream, usize::MAX) {
            Ok((instruction, rest)) => {
                if rest.len() == stream.len() {
                    assert(encoder_stream_instructions(stream@) =~= Seq::<EncoderInstructionView>::empty());
                    assert(whole =~= before);
                    return out;
                }
                let ghost i = instruction@;
                out.push(instruction);
                proof {
                    assert(out@.map_values(|i: EncoderInstruction| i@) =~= before.push(i));
                    assert(before + encoder_stream_instructions(stream@) =~= before.push(i)
                        + encoder_stream_instructions(rest@));
                }
                stream = rest;
            },
            Err(_) => {
                assert(whole =~= before);
                return out;
            },
        }
    }
}

/// Read a header block's prefix and then its field lines until one does not parse;
/// `None` when the prefix does not parse.
pub fn parse_header_block_for_dump(bytes: &[u8]) -> (parsed: Option<(FieldSectionPrefix, Vec<FieldLineInstruction>)>)
    ensures
        match prefix_decoding(bytes@) {
            Ok((prefix, n)) => parsed matches Some((p, lines)) && p == prefix && lines@.map_values(
                |l: FieldLineInstruction| l@,
            ) == field_lines_until_error(bytes@.subrange(n as int, bytes@.len() as int)),
            Err(_) => parsed is None,
        },
{
    let (prefix, mut rest) = match FieldSectionPrefix::parse(bytes) {
        Ok(parsed) => parsed,
        Err(_) => {
            return None;
        },
    };
    let ghost start_rest = rest@;
    let ghost whole = field_lines_until_error(rest@);
    let mut lines: Vec<FieldLineInstruction> = Vec::new();
    while rest.len() > 0
        invariant
            whole == field_lines_until_error(start_rest),
            match prefix_decoding(bytes@) {
                Ok((pp, n)) => pp == prefix && start_rest == bytes@.subrange(n as int, bytes@.len() as int),
                Err(_) => false,
            },
            whole == lines@.map_values(|l: FieldLineInstruction| l@) + field_lines_until_error(rest@),
        decreases rest@.len(),
    {
        let ghost before = lines@.map_values(|l: FieldLineInstruction| l@);
        proof {
            crate::field_section::lemma_field_line_length(rest@);
        }
        match FieldLineInstruction::parse(rest) {
            Ok((line, remaining)) => {
                let ghost l = line@;
                lines.push(line);
                proof {
                    assert(lines@.map_values(|l: FieldLineInstruction| l@) =~= before.push(l));
                    assert(before + field_lines_until_error(rest@) =~= before.push(l)
                        + field_lines_until_error(remaining@));
                }
                rest = remaining;
            },
            Err(_) => {
                assert(field_lines_until_error(rest@) =~= Seq::<FieldLine>::empty());
                assert(whole =~= before);
                return Some((prefix, lines));
            },
        }
    }
    assert(whole =~= lines@.map_values(|l: FieldLineInstruction| l@));
    Some((prefix, lines))
}

/// Count the encoder-stream instructions of `bytes` into `hist`, stopping at the first
/// one that does not parse.
pub fn classify_encoder_stream(bytes: &[u8], hist: &mut WireHistogram)
    requires
        room_for(old(hist)@, bytes@.len()),
    ensures
        final(hist)@ == count_encoder_instructions(old(hist)@, encoder_stream_instructions(bytes@)),
{
    let instructions = parse_encoder_stream_for_dump(bytes);
    let ghost s = encoder_stream_instructions(bytes@);
    proof {
        lemma_encoder_stream_length(bytes@);
    }
    let mut i: usize = 0;
    while i < instructions.len()
        invariant
            i <= instructions@.len(),
            s == instructions@.map_values(|i: EncoderInstruction| i@),
            s.len() <= bytes@.len(),
            room_for(old(hist)@, bytes@.len()),
            hist@ == count_encoder_instructions(old(hist)@, s.subrange(0, i as int)),
        decreases instructions@.len() - i,
    {
        proof {
            lemma_count_encoder_total(old(hist)@, s.subrange(0, i as int));
            let next = s.subrange(0, i + 1);
            assert(next.drop_last() =~= s.subrange(0, i as int));
            assert(next.last() == instructions@[i as int]@);
        }
        hist.count_encoder(&instructions[i]);
        i = i + 1;
    }
    assert(s.subrange(0, i as int) =~= s);
}

/// Count the field lines of header block `bytes` into `hist`, stopping at the first that
/// does not parse; nothing when its prefix does not parse.
pub fn classify_header_block(bytes: &[u8], hist: &mut WireHistogram)
    requires
        room_for(old(hist)@, bytes@.len()),
    ensures
        final(hist)@ == count_field_lines(old(hist)@, header_block_lines(bytes@)),
{
    let lines = match parse_header_block_for_dump(bytes) {
        Some((_, lines)) => lines,
        None => {
            return;
        },
    };
    let ghost s = header_block_lines(bytes@);
    proof {
        lemma_header_block_length(bytes@);
    }
    let mut i: usize = 0;
    while i < lines.len()
        invariant
            i <= lines@.len(),
            s == lines@.map_values(|l: FieldLineInstruction| l@),
            s.len() <= bytes@.len(),
            room_for(old(hist)@, bytes@.len()),
            hist@ == count_field_lines(old(hist)@, s.subrange(0, i as int)),
        decreases lines@.len() - i,
    {
        proof {
            lemma_count_lines_total(old(hist)@, s.subrange(0, i as int));
            let next = s.subrange(0, i + 1);
            assert(next.drop_last() =~= s.subrange(0, i as int));
            assert(next.last() == lines@[i as int]@);
        }
        hist.count_line(&lines[i]);
        i = i + 1;
    }
    assert(s.subrange(0, i as int) =~= s);
}

/// The histogram of the interop record stream `data` (see [`out_histogram`]).
pub fn histogram_from_out_bytes(data: &[u8]) -> (hist: WireHistogram)
    requires
        2 * data@.len() + 1 <= u64::MAX,
    ensures
        hist@ == out_histogram(data@, 0, empty_histogram()),
{
    let mut hist = WireHistogram::new();
    let mut pos: usize = 0;
    while pos < data.len() && data.len() - pos >= 12
        invariant
            pos <= data@.len(),
            2 * data@.len() + 1 <= u64::MAX,
            histogram_total(hist@) <= 2 * pos,
            out_histogram(data@, 0, empty_histogram()) == out_histogram(data@, pos as nat, hist@),
        decreases data@.len() - pos,
    {
        let stream_id = read_big_endian(data, pos, 8);
        let length64 = read_big_endian(data, pos + 8, 4);
        proof {
            reveal_with_fuel(pow256, 5);
        }
        let length = length64 as usize;
        let start = pos + 12;
        if length > data.len() - start {
            return hist;
        }
        let payload = vstd::slice::slice_subrange(data, start, start + length);
        if stream_id == 0 {
            hist.encoder_stream_bytes = hist.encoder_stream_bytes + length64;
            let ghost h1 = hist@;
            classify_encoder_stream(payload, &mut hist);
            proof {
                lemma_count_encoder_total(h1, encoder_stream_instructions(payload@));
                lemma_encoder_stream_length(payload@);
            }
        } else {
            hist.n_sections = hist.n_sections + 1;
            hist.section_bytes = hist.section_bytes + length64;
            let ghost h1 = hist@;
            classify_header_block(payload, &mut hist);
            proof {
                lemma_count_lines_total(h1, header_block_lines(payload@));
                lemma_header_block_length(payload@);
            }
        }
        pos = start + length;
    }
    hist
}

/// One header block of an interop record stream with the encoder-stream records that
/// came before it (since the previous header block).
#[derive(Debug)]
pub struct OutGroup {
    pub enc_stream: Vec<Vec<u8>>,
    pub header_block: Vec<u8>,
}

/// The groups of an interop record stream from byte `pos` on, `pending` holding the
/// encoder-stream payloads not yet attached to a header block. A truncated record ends the
/// walk; encoder-stream records after the last header block belong to no group.
pub open spec fn groups_from(data: Seq<u8>, pos: nat, pending: Seq<Seq<u8>>) -> Seq<(Seq<Seq<u8>>, Seq<u8>)>
    decreases data.len() - pos,
{
    if pos + 12 > data.len() {
        Seq::empty()
    } else {
        let stream_id = big_endian(data.subrange(pos as int, (pos + 8) as int));
        let length = big_endian(data.subrange((pos + 8) as int, (pos + 12) as int));
        let start = pos + 12;
        if start + length > data.len() {
            Seq::empty()
        } else {
            let payload = data.subrange(start as int, (start + length) as int);
            if stream_id == 0 {
                groups_from(data, start + length, pending.push(payload))
            } else {
                seq![(pending, payload)] + groups_from(data, start + length, Seq::empty())
            }
        }
    }
}

/// The value of a list of byte strings.
pub open spec fn payloads_view(payloads: Seq<Vec<u8>>) -> Seq<Seq<u8>> {
    payloads.map_values(|p: Vec<u8>| p@)
}

/// The value of parsed groups.
pub open spec fn out_groups_view(groups: Seq<OutGroup>) -> Seq<(Seq<Seq<u8>>, Seq<u8>)> {
    groups.map_values(|g: OutGroup| (payloads_view(g.enc_stream@), g.header_block@))
}

/// Split an interop record stream into groups, each header block with the encoder-stream
/// payloads that preceded it.
pub fn parse_out_groups(data: &[u8]) -> (groups: Vec<OutGroup>)
    ensures
        out_groups_view(groups@) == groups_from(data@, 0, Seq::empty()),
{
    let mut groups: Vec<OutGroup> = Vec::new();
    let mut pending: Vec<Vec<u8>> = Vec::new();
    let mut pos: usize = 0;
    assert(payloads_view(pending@) =~= Seq::<Seq<u8>>::empty());
    while pos < data.len() && data.len() - pos >= 12
        invariant
            pos <= data@.len(),
            groups_from(data@, 0, Seq::empty()) == out_groups_view(groups@) + groups_from(
                data@,
                pos as nat,
                payloads_view(pending@),
            ),
        decreases data@.len() - pos,
    {
        let stream_id = read_big_endian(data, pos, 8);
        let length64 = read_big_endian(data, pos + 8, 4);
        proof {
            reveal_with_fuel(pow256, 5);
        }
        let length = length64 as usize;
        let start = pos + 12;
        if length > data.len() - start {
            assert(out_groups_view(groups@) + Seq::<(Seq<Seq<u8>>, Seq<u8>)>::empty() =~= out_groups_view(groups@));
            return groups;
        }
        let payload = vstd::slice::slice_to_vec(vstd::slice::slice_subrange(data, start, start + length));
        let ghost before_groups = out_groups_view(groups@);
        let ghost before_pending = payloads_view(pending@);
        if stream_id == 0 {
            pending.push(payload);
            assert(payloads_view(pending@) =~= before_pending.push(payload@));
        } else {
            let enc_stream = pending;
            pending = Vec::new();
            let ghost block = payload@;
            groups.push(OutGroup { enc_stream, header_block: payload });
            proof {
                assert(out_groups_view(groups@) =~= before_groups.push((before_pending, block)));
                assert(payloads_view(pending@) =~= Seq::<Seq<u8>>::empty());
                let rest = groups_from(data@, (start + length) as nat, Seq::empty());
                assert(before_groups + (seq![(before_pending, block)] + rest) =~= before_groups.push(
                    (before_pending, block),
                ) + rest);
            }
        }
        pos = start + length;
    }
    assert(out_groups_view(groups@) + Seq::<(Seq<Seq<u8>>, Seq<u8>)>::empty() =~= out_groups_view(groups@));
    groups
}

} // verus!
