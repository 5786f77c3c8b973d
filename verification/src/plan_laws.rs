//! What the encoder's plan for a field section means on the peer's side. Every dynamic
//! reference a section makes still holds in the table the whole section leaves behind;
//! every planned line, against a decoder table holding the same entries, reads back as
//! exactly what the line's own name and value make, whichever representation was chosen;
//! and the section's bytes decode to the very field section the peer makes of the lines
//! themselves.
use vstd::prelude::*;
use vstd::string::StringSliceAdditionalSpecFns;
use crate::decoder_table::{
    entry_size, evict_to, lemma_evict_to, lemma_required_insert_count_roundtrip, required_insert_count_encoding,
    table_get, table_wf, total_size, EntryView, H3ErrorCode, TableView,
};
use crate::dynamic_decode::{
    valid_value, add_line, dynamic_lines, entry_line, initial_lines_state, resolve_line, section_lines, section_start, LinesState,
};
use crate::encoder_instruction::duplicate_encoding;
use crate::encoder_plan::{
    emission_line, emission_ref, fast_path, hashed_line, initial_planner, lines_encoding, oldest_is_hot, plan_line, plan_lines,
    refresh_step, section_prefix, EmissionView, PlannerView,
};
use crate::encoder_table::{
    encoder_table_wf, entry_at, eviction_blocked, full_match, insert_instruction, lemma_full_match_live,
    lemma_pinned_entry_survives, min_floor, name_match, oldest_abs, pinned_floor, table_duplicate,
    table_insert_pair, with_new_entry, EncoderTableView,
};
use crate::encoder_laws::mirrors;
use crate::headers::FieldSectionView;
use crate::entry_name::{name_bytes, well_formed_name, EntryNameView};
use crate::field_section::{
    FieldLine, field_line_encoding, lemma_field_line_length, lemma_field_line_roundtrip, lemma_prefix_roundtrip, prefix_encoding,
    well_formed_line,
};
use crate::recent_pairs::pair_hash;
use crate::static_table::{
    lemma_first_value_match, lemma_static_indices_name, lemma_static_indices_valid, static_indices,
    static_name_view, static_table_entry,
};

verus! {

/// An entry still live after an entry joins the kept ones holds what it held before.
proof fn lemma_new_entry_survivor(t: EncoderTableView, target: nat, entry: EntryView, wire: Seq<u8>, abs_idx: int)
    requires
        t.entries.len() <= t.insert_count,
    ensures
        ({
            let t2 = with_new_entry(t, evict_to(t.entries, target), entry, wire);
            &&& t2.entries.len() <= t2.insert_count
            &&& (abs_idx < t.insert_count && entry_at(t2, abs_idx) is Some) ==> entry_at(t2, abs_idx) == entry_at(
                t,
                abs_idx,
            )
        }),
{
    lemma_evict_to(t.entries, target);
    let kept = evict_to(t.entries, target);
    let t2 = with_new_entry(t, kept, entry, wire);
    let pos = t.insert_count - 1 - abs_idx;
    if abs_idx < t.insert_count && entry_at(t2, abs_idx) is Some {
        assert(t2.entries[pos + 1] == kept[pos]);
    }
}

/// A duplicate or an insert leaves every entry it does not evict as it was.
proof fn lemma_insert_survivors(t: EncoderTableView, name: EntryNameView, value: Seq<u8>, src: nat, extra: Option<u64>, abs_idx: int)
    requires
        t.entries.len() <= t.insert_count,
    ensures
        table_duplicate(t, src, extra) matches Ok((t2, _)) ==> t2.entries.len() <= t2.insert_count
            && t2.insert_count == t.insert_count + 1 && ((abs_idx < t.insert_count && entry_at(t2, abs_idx) is Some)
            ==> entry_at(t2, abs_idx) == entry_at(t, abs_idx)),
        table_insert_pair(t, name, value, extra) matches Ok((t2, _)) ==> t2.entries.len() <= t2.insert_count
            && t2.insert_count == t.insert_count + 1 && ((abs_idx < t.insert_count && entry_at(t2, abs_idx) is Some)
            ==> entry_at(t2, abs_idx) == entry_at(t, abs_idx)),
{
    if let Some(e) = entry_at(t, src as int) {
        lemma_new_entry_survivor(
            t,
            (t.capacity - entry_size(e)) as nat,
            e,
            duplicate_encoding((t.insert_count - 1 - src) as nat),
            abs_idx,
        );
    }
    match full_match(t, name, value) {
        Some(dup) => if let Some(e) = entry_at(t, dup as int) {
            lemma_new_entry_survivor(
                t,
                (t.capacity - entry_size(e)) as nat,
                e,
                duplicate_encoding((t.insert_count - 1 - dup) as nat),
                abs_idx,
            );
        },
        None => {
            let entry = EntryView { name, value };
            let (wire, _) = insert_instruction(t, name, value);
            lemma_new_entry_survivor(t, (t.capacity - entry_size(entry)) as nat, entry, wire, abs_idx);
        },
    }
}

/// Every static-table value holds no CR, LF or NUL.
pub proof fn lemma_static_value_valid(index: u8)
    ensures
        valid_value(static_table_entry(index).1.spec_bytes()),
{
    broadcast use vstd::string::is_ascii_spec_bytes;
    match index {
        0 => {
            reveal_strlit("");
            assert(vstd::string::is_ascii(static_table_entry(0u8).1));
            assert(valid_value(static_table_entry(0u8).1.spec_bytes()));
        },
        1 => {
            reveal_strlit("/");
            assert(vstd::string::is_ascii(static_table_entry(1u8).1));
            assert(valid_value(static_table_entry(1u8).1.spec_bytes()));
        },
        2 => {
            reveal_strlit("0");
            assert(vstd::string::is_ascii(static_table_entry(2u8).1));
            assert(valid_value(static_table_entry(2u8).1.spec_bytes()));
        },
        3 => {
            reveal_strlit("");
            assert(vstd::string::is_ascii(static_table_entry(3u8).1));
            assert(valid_value(static_table_entry(3u8).1.spec_bytes()));
        },
        4 => {
            reveal_strlit("0");
            assert(vstd::string::is_ascii(static_table_entry(4u8).1));
            assert(valid_value(static_table_entry(4u8).1.spec_bytes()));
        },
        5 => {
            reveal_strlit("");
            assert(vstd::string::is_ascii(static_table_entry(5u8).1));
            assert(valid_value(static_table_entry(5u8).1.spec_bytes()));
        },
        6 => {
            reveal_strlit("");
            assert(vstd::string::is_ascii(static_table_entry(6u8).1));
            assert(valid_value(static_table_entry(6u8).1.spec_bytes()));
        },
        7 => {
            reveal_strlit("");
            assert(vstd::string::is_ascii(static_table_entry(7u8).1));
            assert(valid_value(static_table_entry(7u8).1.spec_bytes()));
        },
        8 => {
            reveal_strlit("");
            assert(vstd::string::is_ascii(static_table_entry(8u8).1));
            assert(valid_value(static_table_entry(8u8).1.spec_bytes()));
        },
        9 => {
            reveal_strlit("");
            assert(vstd::string::is_ascii(static_table_entry(9u8).1));
            assert(valid_value(static_table_entry(9u8).1.spec_bytes()));
        },
        10 => {
            reveal_strlit("");
            assert(vstd::string::is_ascii(static_table_entry(10u8).1));
            assert(valid_value(static_table_entry(10u8).1.spec_bytes()));
        },
        11 => {
            reveal_strlit("");
            assert(vstd::string::is_ascii(static_table_entry(11u8).1));
            assert(valid_value(static_table_entry(11u8).1.spec_bytes()));
        },
        12 => {
            reveal_strlit("");
            assert(vstd::string::is_ascii(static_table_entry(12u8).1));
            assert(valid_value(static_table_entry(12u8).1.spec_bytes()));
        },
        13 => {
            reveal_strlit("");
            assert(vstd::string::is_ascii(static_table_entry(13u8).1));
            assert(valid_value(static_table_entry(13u8).1.spec_bytes()));
        },
        14 => {
            reveal_strlit("");
            assert(vstd::string::is_ascii(static_table_entry(14u8).1));
            assert(valid_value(static_table_entry(14u8).1.spec_bytes()));
        },
        15 => {
            reveal_strlit("CONNECT");
            assert(vstd::string::is_ascii(static_table_entry(15u8).1));
            assert(valid_value(static_table_entry(15u8).1.spec_bytes()));
        },
        16 => {
            reveal_strlit("DELETE");
            assert(vstd::string::is_ascii(static_table_entry(16u8).1));
            assert(valid_value(static_table_entry(16u8).1.spec_bytes()));
        },
        17 => {
            reveal_strlit("GET");
            assert(vstd::string::is_ascii(static_table_entry(17u8).1));
            assert(valid_value(static_table_entry(17u8).1.spec_bytes()));
        },
        18 => {
            reveal_strlit("HEAD");
            assert(vstd::string::is_ascii(static_table_entry(18u8).1));
            assert(valid_value(static_table_entry(18u8).1.spec_bytes()));
        },
        19 => {
            reveal_strlit("OPTIONS");
            assert(vstd::string::is_ascii(static_table_entry(19u8).1));
            assert(valid_value(static_table_entry(19u8).1.spec_bytes()));
        },
        20 => {
            reveal_strlit("POST");
            assert(vstd::string::is_ascii(static_table_entry(20u8).1));
            assert(valid_value(static_table_entry(20u8).1.spec_bytes()));
        },
        21 => {
            reveal_strlit("PUT");
            assert(vstd::string::is_ascii(static_table_entry(21u8).1));
            assert(valid_value(static_table_entry(21u8).1.spec_bytes()));
        },
        22 => {
            reveal_strlit("http");
            assert(vstd::string::is_ascii(static_table_entry(22u8).1));
            assert(valid_value(static_table_entry(22u8).1.spec_bytes()));
        },
        23 => {
            reveal_strlit("https");
            assert(vstd::string::is_ascii(static_table_entry(23u8).1));
            assert(valid_value(static_table_entry(23u8).1.spec_bytes()));
        },
        24 => {
            reveal_strlit("103");
            assert(vstd::string::is_ascii(static_table_entry(24u8).1));
            assert(valid_value(static_table_entry(24u8).1.spec_bytes()));
        },
        25 => {
            reveal_strlit("200");
            assert(vstd::string::is_ascii(static_table_entry(25u8).1));
            assert(valid_value(static_table_entry(25u8).1.spec_bytes()));
        },
        26 => {
            reveal_strlit("304");
            assert(vstd::string::is_ascii(static_table_entry(26u8).1));
            assert(valid_value(static_table_entry(26u8).1.spec_bytes()));
        },
        27 => {
            reveal_strlit("404");
            assert(vstd::string::is_ascii(static_table_entry(27u8).1));
            assert(valid_value(static_table_entry(27u8).1.spec_bytes()));
        },
        28 => {
            reveal_strlit("503");
            assert(vstd::string::is_ascii(static_table_entry(28u8).1));
            assert(valid_value(static_table_entry(28u8).1.spec_bytes()));
        },
        29 => {
            reveal_strlit("*/*");
            assert(vstd::string::is_ascii(static_table_entry(29u8).1));
            assert(valid_value(static_table_entry(29u8).1.spec_bytes()));
        },
        30 => {
            reveal_strlit("application/dns-message");
            assert(vstd::string::is_ascii(static_table_entry(30u8).1));
            assert(valid_value(static_table_entry(30u8).1.spec_bytes()));
        },
        31 => {
            reveal_strlit("gzip, deflate, br");
            assert(vstd::string::is_ascii(static_table_entry(31u8).1));
            assert(valid_value(static_table_entry(31u8).1.spec_bytes()));
        },
        32 => {
            reveal_strlit("bytes");
            assert(vstd::string::is_ascii(static_table_entry(32u8).1));
            assert(valid_value(static_table_entry(32u8).1.spec_bytes()));
        },
        33 => {
            reveal_strlit("cache-control");
            assert(vstd::string::is_ascii(static_table_entry(33u8).1));
            assert(valid_value(static_table_entry(33u8).1.spec_bytes()));
        },
        34 => {
            reveal_strlit("content-type");
            assert(vstd::string::is_ascii(static_table_entry(34u8).1));
            assert(valid_value(static_table_entry(34u8).1.spec_bytes()));
        },
        35 => {
            reveal_strlit("*");
            assert(vstd::string::is_ascii(static_table_entry(35u8).1));
            assert(valid_value(static_table_entry(35u8).1.spec_bytes()));
        },
        36 => {
            reveal_strlit("max-age=0");
            assert(vstd::string::is_ascii(static_table_entry(36u8).1));
            assert(valid_value(static_table_entry(36u8).1.spec_bytes()));
        },
        37 => {
            reveal_strlit("max-age=2592000");
            assert(vstd::string::is_ascii(static_table_entry(37u8).1));
            assert(valid_value(static_table_entry(37u8).1.spec_bytes()));
        },
        38 => {
            reveal_strlit("max-age=604800");
            assert(vstd::string::is_ascii(static_table_entry(38u8).1));
            assert(valid_value(static_table_entry(38u8).1.spec_bytes()));
        },
        39 => {
            reveal_strlit("no-cache");
            assert(vstd::string::is_ascii(static_table_entry(39u8).1));
            assert(valid_value(static_table_entry(39u8).1.spec_bytes()));
        },
        40 => {
            reveal_strlit("no-store");
            assert(vstd::string::is_ascii(static_table_entry(40u8).1));
            assert(valid_value(static_table_entry(40u8).1.spec_bytes()));
        },
        41 => {
            reveal_strlit("public, max-age=31536000");
            assert(vstd::string::is_ascii(static_table_entry(41u8).1));
            assert(valid_value(static_table_entry(41u8).1.spec_bytes()));
        },
        42 => {
            reveal_strlit("br");
            assert(vstd::string::is_ascii(static_table_entry(42u8).1));
            assert(valid_value(static_table_entry(42u8).1.spec_bytes()));
        },
        43 => {
            reveal_strlit("gzip");
            assert(vstd::string::is_ascii(static_table_entry(43u8).1));
            assert(valid_value(static_table_entry(43u8).1.spec_bytes()));
        },
        44 => {
            reveal_strlit("application/dns-message");
            assert(vstd::string::is_ascii(static_table_entry(44u8).1));
            assert(valid_value(static_table_entry(44u8).1.spec_bytes()));
        },
        45 => {
            reveal_strlit("application/javascript");
            assert(vstd::string::is_ascii(static_table_entry(45u8).1));
            assert(valid_value(static_table_entry(45u8).1.spec_bytes()));
        },
        46 => {
            reveal_strlit("application/json");
            assert(vstd::string::is_ascii(static_table_entry(46u8).1));
            assert(valid_value(static_table_entry(46u8).1.spec_bytes()));
        },
        47 => {
            reveal_strlit("application/x-www-form-urlencoded");
            assert(vstd::string::is_ascii(static_table_entry(47u8).1));
            assert(valid_value(static_table_entry(47u8).1.spec_bytes()));
        },
        48 => {
            reveal_strlit("image/gif");
            assert(vstd::string::is_ascii(static_table_entry(48u8).1));
            assert(valid_value(static_table_entry(48u8).1.spec_bytes()));
        },
        49 => {
            reveal_strlit("image/jpeg");
            assert(vstd::string::is_ascii(static_table_entry(49u8).1));
            assert(valid_value(static_table_entry(49u8).1.spec_bytes()));
        },
        50 => {
            reveal_strlit("image/png");
            assert(vstd::string::is_ascii(static_table_entry(50u8).1));
            assert(valid_value(static_table_entry(50u8).1.spec_bytes()));
        },
        51 => {
            reveal_strlit("text/css");
            assert(vstd::string::is_ascii(static_table_entry(51u8).1));
            assert(valid_value(static_table_entry(51u8).1.spec_bytes()));
        },
        52 => {
            reveal_strlit("text/html;charset=utf-8");
            assert(vstd::string::is_ascii(static_table_entry(52u8).1));
            assert(valid_value(static_table_entry(52u8).1.spec_bytes()));
        },
        53 => {
            reveal_strlit("text/plain");
            assert(vstd::string::is_ascii(static_table_entry(53u8).1));
            assert(valid_value(static_table_entry(53u8).1.spec_bytes()));
        },
        54 => {
            reveal_strlit("text/plain;charset=utf-8");
            assert(vstd::string::is_ascii(static_table_entry(54u8).1));
            assert(valid_value(static_table_entry(54u8).1.spec_bytes()));
        },
        55 => {
            reveal_strlit("bytes=0-");
            assert(vstd::string::is_ascii(static_table_entry(55u8).1));
            assert(valid_value(static_table_entry(55u8).1.spec_bytes()));
        },
        56 => {
            reveal_strlit("max-age=31536000");
            assert(vstd::string::is_ascii(static_table_entry(56u8).1));
            assert(valid_value(static_table_entry(56u8).1.spec_bytes()));
        },
        57 => {
            reveal_strlit("max-age=31536000;includesubdomains");
            assert(vstd::string::is_ascii(static_table_entry(57u8).1));
            assert(valid_value(static_table_entry(57u8).1.spec_bytes()));
        },
        58 => {
            reveal_strlit("max-age=31536000;includesubdomains;preload");
            assert(vstd::string::is_ascii(static_table_entry(58u8).1));
            assert(valid_value(static_table_entry(58u8).1.spec_bytes()));
        },
        59 => {
            reveal_strlit("accept-encoding");
            assert(vstd::string::is_ascii(static_table_entry(59u8).1));
            assert(valid_value(static_table_entry(59u8).1.spec_bytes()));
        },
        60 => {
            reveal_strlit("origin");
            assert(vstd::string::is_ascii(static_table_entry(60u8).1));
            assert(valid_value(static_table_entry(60u8).1.spec_bytes()));
        },
        61 => {
            reveal_strlit("nosniff");
            assert(vstd::string::is_ascii(static_table_entry(61u8).1));
            assert(valid_value(static_table_entry(61u8).1.spec_bytes()));
        },
        62 => {
            reveal_strlit("1; mode=block");
            assert(vstd::string::is_ascii(static_table_entry(62u8).1));
            assert(valid_value(static_table_entry(62u8).1.spec_bytes()));
        },
        63 => {
            reveal_strlit("100");
            assert(vstd::string::is_ascii(static_table_entry(63u8).1));
            assert(valid_value(static_table_entry(63u8).1.spec_bytes()));
        },
        64 => {
            reveal_strlit("204");
            assert(vstd::string::is_ascii(static_table_entry(64u8).1));
            assert(valid_value(static_table_entry(64u8).1.spec_bytes()));
        },
        65 => {
            reveal_strlit("206");
            assert(vstd::string::is_ascii(static_table_entry(65u8).1));
            assert(valid_value(static_table_entry(65u8).1.spec_bytes()));
        },
        66 => {
            reveal_strlit("302");
            assert(vstd::string::is_ascii(static_table_entry(66u8).1));
            assert(valid_value(static_table_entry(66u8).1.spec_bytes()));
        },
        67 => {
            reveal_strlit("400");
            assert(vstd::string::is_ascii(static_table_entry(67u8).1));
            assert(valid_value(static_table_entry(67u8).1.spec_bytes()));
        },
        68 => {
            reveal_strlit("403");
            assert(vstd::string::is_ascii(static_table_entry(68u8).1));
            assert(valid_value(static_table_entry(68u8).1.spec_bytes()));
        },
        69 => {
            reveal_strlit("421");
            assert(vstd::string::is_ascii(static_table_entry(69u8).1));
            assert(valid_value(static_table_entry(69u8).1.spec_bytes()));
        },
        70 => {
            reveal_strlit("425");
            assert(vstd::string::is_ascii(static_table_entry(70u8).1));
            assert(valid_value(static_table_entry(70u8).1.spec_bytes()));
        },
        71 => {
            reveal_strlit("500");
            assert(vstd::string::is_ascii(static_table_entry(71u8).1));
            assert(valid_value(static_table_entry(71u8).1.spec_bytes()));
        },
        72 => {
            reveal_strlit("");
            assert(vstd::string::is_ascii(static_table_entry(72u8).1));
            assert(valid_value(static_table_entry(72u8).1.spec_bytes()));
        },
        73 => {
            reveal_strlit("FALSE");
            assert(vstd::string::is_ascii(static_table_entry(73u8).1));
            assert(valid_value(static_table_entry(73u8).1.spec_bytes()));
        },
        74 => {
            reveal_strlit("TRUE");
            assert(vstd::string::is_ascii(static_table_entry(74u8).1));
            assert(valid_value(static_table_entry(74u8).1.spec_bytes()));
        },
        75 => {
            reveal_strlit("*");
            assert(vstd::string::is_ascii(static_table_entry(75u8).1));
            assert(valid_value(static_table_entry(75u8).1.spec_bytes()));
        },
        76 => {
            reveal_strlit("get");
            assert(vstd::string::is_ascii(static_table_entry(76u8).1));
            assert(valid_value(static_table_entry(76u8).1.spec_bytes()));
        },
        77 => {
            reveal_strlit("get, post, options");
            assert(vstd::string::is_ascii(static_table_entry(77u8).1));
            assert(valid_value(static_table_entry(77u8).1.spec_bytes()));
        },
        78 => {
            reveal_strlit("options");
            assert(vstd::string::is_ascii(static_table_entry(78u8).1));
            assert(valid_value(static_table_entry(78u8).1.spec_bytes()));
        },
        79 => {
            reveal_strlit("content-length");
            assert(vstd::string::is_ascii(static_table_entry(79u8).1));
            assert(valid_value(static_table_entry(79u8).1.spec_bytes()));
        },
        80 => {
            reveal_strlit("content-type");
            assert(vstd::string::is_ascii(static_table_entry(80u8).1));
            assert(valid_value(static_table_entry(80u8).1.spec_bytes()));
        },
        81 => {
            reveal_strlit("get");
            assert(vstd::string::is_ascii(static_table_entry(81u8).1));
            assert(valid_value(static_table_entry(81u8).1.spec_bytes()));
        },
        82 => {
            reveal_strlit("post");
            assert(vstd::string::is_ascii(static_table_entry(82u8).1));
            assert(valid_value(static_table_entry(82u8).1.spec_bytes()));
        },
        83 => {
            reveal_strlit("clear");
            assert(vstd::string::is_ascii(static_table_entry(83u8).1));
            assert(valid_value(static_table_entry(83u8).1.spec_bytes()));
        },
        84 => {
            reveal_strlit("");
            assert(vstd::string::is_ascii(static_table_entry(84u8).1));
            assert(valid_value(static_table_entry(84u8).1.spec_bytes()));
        },
        85 => {
            reveal_strlit("script-src 'none';object-src 'none';base-uri 'none'");
            assert(vstd::string::is_ascii(static_table_entry(85u8).1));
            assert(valid_value(static_table_entry(85u8).1.spec_bytes()));
        },
        86 => {
            reveal_strlit("1");
            assert(vstd::string::is_ascii(static_table_entry(86u8).1));
            assert(valid_value(static_table_entry(86u8).1.spec_bytes()));
        },
        87 => {
            reveal_strlit("");
            assert(vstd::string::is_ascii(static_table_entry(87u8).1));
            assert(valid_value(static_table_entry(87u8).1.spec_bytes()));
        },
        88 => {
            reveal_strlit("");
            assert(vstd::string::is_ascii(static_table_entry(88u8).1));
            assert(valid_value(static_table_entry(88u8).1.spec_bytes()));
        },
        89 => {
            reveal_strlit("");
            assert(vstd::string::is_ascii(static_table_entry(89u8).1));
            assert(valid_value(static_table_entry(89u8).1.spec_bytes()));
        },
        90 => {
            reveal_strlit("");
            assert(vstd::string::is_ascii(static_table_entry(90u8).1));
            assert(valid_value(static_table_entry(90u8).1.spec_bytes()));
        },
        91 => {
            reveal_strlit("prefetch");
            assert(vstd::string::is_ascii(static_table_entry(91u8).1));
            assert(valid_value(static_table_entry(91u8).1.spec_bytes()));
        },
        92 => {
            reveal_strlit("");
            assert(vstd::string::is_ascii(static_table_entry(92u8).1));
            assert(valid_value(static_table_entry(92u8).1.spec_bytes()));
        },
        93 => {
            reveal_strlit("*");
            assert(vstd::string::is_ascii(static_table_entry(93u8).1));
            assert(valid_value(static_table_entry(93u8).1.spec_bytes()));
        },
        94 => {
            reveal_strlit("1");
            assert(vstd::string::is_ascii(static_table_entry(94u8).1));
            assert(valid_value(static_table_entry(94u8).1.spec_bytes()));
        },
        95 => {
            reveal_strlit("");
            assert(vstd::string::is_ascii(static_table_entry(95u8).1));
            assert(valid_value(static_table_entry(95u8).1.spec_bytes()));
        },
        96 => {
            reveal_strlit("");
            assert(vstd::string::is_ascii(static_table_entry(96u8).1));
            assert(valid_value(static_table_entry(96u8).1.spec_bytes()));
        },
        97 => {
            reveal_strlit("deny");
            assert(vstd::string::is_ascii(static_table_entry(97u8).1));
            assert(valid_value(static_table_entry(97u8).1.spec_bytes()));
        },
        _ => {
            reveal_strlit("sameorigin");
            assert(vstd::string::is_ascii(static_table_entry(index).1));
            assert(valid_value(static_table_entry(index).1.spec_bytes()));
        },
    }
}


/// Resolving a static-table reference gives what the entry's name and value make.
proof fn lemma_static_reference_line(d: TableView, base: nat, index: u8)
    requires
        index < 99,
    ensures
        resolve_line(d, base, FieldLine::IndexedStatic { index: index as usize }) == entry_line(
            static_name_view(static_table_entry(index).0),
            static_table_entry(index).1.spec_bytes(),
            false,
        ),
{
    broadcast use vstd::utf8::encode_utf8_valid_utf8, vstd::utf8::encode_utf8_decode_utf8;

    lemma_static_value_valid(index);
    let s = static_table_entry(index).1;
    assert(s.spec_bytes() == vstd::utf8::encode_utf8(s@));
    assert(vstd::utf8::valid_utf8(s.spec_bytes()));
    assert(vstd::utf8::decode_utf8(s.spec_bytes()) == s@);
}

/// A planned line reads back on the peer's side: decoded with a Base above any entry it
/// references, against a decoder table that holds at that index what the encoder's table
/// held after the line was planned, it resolves to exactly what the line's own name,
/// value and never-indexed flag make, whichever representation the planner chose.
pub proof fn lemma_planned_line_reads_back(
    p: PlannerView,
    t: EncoderTableView,
    ring: (Seq<u32>, int),
    name: EntryNameView,
    value: Seq<u8>,
    never_indexed: bool,
    oldest_hot: bool,
    d: TableView,
    base: nat,
)
    requires
        encoder_table_wf(t),
        emission_ref(plan_line(p, t, ring, name, value, never_indexed, oldest_hot).0.emissions.last()) matches Some(
            a,
        ) ==> table_get(d, a as int) == entry_at(plan_line(p, t, ring, name, value, never_indexed, oldest_hot).1, a as int),
        d.failed is None,
        emission_ref(plan_line(p, t, ring, name, value, never_indexed, oldest_hot).0.emissions.last()) matches Some(
            a,
        ) ==> a < base && base - 1 - a <= usize::MAX,
    ensures
        resolve_line(
            d,
            base,
            emission_line(plan_line(p, t, ring, name, value, never_indexed, oldest_hot).0.emissions.last(), base),
        ) == entry_line(name, value, never_indexed),
{
    let hash = pair_hash(name_bytes(name), value);
    let should_index = hashed_line(name, never_indexed) && ring.0.contains(hash);
    lemma_full_match_live(t, name, value);
    lemma_static_indices_name(name);
    lemma_static_indices_valid(name);
    if let Some(indices) = static_indices(name) {
        lemma_first_value_match(indices, value, 0);
    }
    if let EmissionView::IndexedStatic(i) = plan_line(p, t, ring, name, value, never_indexed, oldest_hot).0.emissions.last() {
        lemma_static_reference_line(d, base, i);
    }
    if fast_path(p, t, name, value, never_indexed) is None {
        let (pa, ta) = if should_index {
            refresh_step(p, t, oldest_hot)
        } else {
            (p, t)
        };
        if let Some(a) = name_match(t, name) {
            if should_index {
                let src = oldest_abs(t) as nat;
                lemma_insert_survivors(t, name, value, src, p.min_ref, a as int);
                lemma_insert_survivors(ta, name, value, src, pa.min_ref, a as int);
            }
        }
    }
}

/// What a planned line promises about a table: a static reference names a static entry
/// holding the line's name (and, indexed, its value); an indexed dynamic reference points
/// at a live entry holding the line's pair, a dynamic name reference at a live entry with
/// the line's name, either of them below `ric` and at or above `min_ref`; a literal carries
/// the line's own name or value and its never-indexed flag; only a line that is not
/// never-indexed is indexed.
pub open spec fn reference_holds(
    e: EmissionView,
    line: (EntryNameView, Seq<u8>, bool),
    t: EncoderTableView,
    min_ref: Option<u64>,
    ric: nat,
) -> bool {
    match e {
        EmissionView::IndexedStatic(i) => {
            &&& i < 99
            &&& static_name_view(static_table_entry(i).0) == line.0
            &&& static_table_entry(i).1.spec_bytes() == line.1
            &&& !line.2
        },
        EmissionView::IndexedDynamicPreBase(a) => {
            &&& entry_at(t, a as int) == Some(EntryView { name: line.0, value: line.1 })
            &&& !line.2
            &&& min_ref matches Some(m) && m <= a
            &&& a < ric
        },
        EmissionView::LiteralStaticNameRef { name_index, value, never_indexed } => {
            &&& name_index < 99
            &&& static_name_view(static_table_entry(name_index).0) == line.0
            &&& value == line.1
            &&& never_indexed == line.2
        },
        EmissionView::LiteralDynamicNameRefPreBase { abs_idx, value, never_indexed } => {
            &&& entry_at(t, abs_idx as int) is Some
            &&& entry_at(t, abs_idx as int)->0.name == line.0
            &&& value == line.1
            &&& never_indexed == line.2
            &&& min_ref matches Some(m) && m <= abs_idx
            &&& abs_idx < ric
        },
        EmissionView::LiteralLiteralName { name, value, never_indexed } => name == line.0 && value == line.1
            && never_indexed == line.2,
    }
}

/// Whether `floor` is set and at or below `a`.
pub open spec fn floor_at_most(floor: Option<u64>, a: int) -> bool {
    match floor {
        Some(m) => m <= a,
        None => false,
    }
}

/// The entry just below the section's Required Insert Count, when it has one, is live in
/// `t` and at or above the section's smallest reference.
pub open spec fn ric_live(p: PlannerView, t: EncoderTableView) -> bool {
    p.section_ric > 0 ==> entry_at(t, p.section_ric - 1) is Some && floor_at_most(p.min_ref, p.section_ric - 1)
}

/// Every planned line's reference holds in `t`.
pub open spec fn references_hold(p: PlannerView, t: EncoderTableView, lines: Seq<(EntryNameView, Seq<u8>, bool)>) -> bool {
    &&& p.emissions.len() == lines.len()
    &&& p.section_ric <= t.insert_count
    &&& ric_live(p, t)
    &&& forall|k: int| 0 <= k < lines.len() ==> reference_holds(#[trigger] p.emissions[k], lines[k], t, p.min_ref, p.section_ric)
}

/// An entry at or above a floor in force survives an entry joining the kept ones.
proof fn lemma_floor_survivor(t: EncoderTableView, target: nat, floor: Option<u64>, entry: EntryView, wire: Seq<u8>, abs_idx: int)
    requires
        t.entries.len() <= t.insert_count,
        entry_at(t, abs_idx) is Some,
        !eviction_blocked(t, target, floor),
        floor matches Some(f) && f <= abs_idx,
    ensures
        entry_at(with_new_entry(t, evict_to(t.entries, target), entry, wire), abs_idx) == entry_at(t, abs_idx),
{
    lemma_pinned_entry_survives(t, target, floor->0, abs_idx);
    lemma_new_entry_survivor(t, target, entry, wire, abs_idx);
    let kept = evict_to(t.entries, target);
    let pos = t.insert_count - 1 - abs_idx;
    assert(entry_at(EncoderTableView { entries: kept, ..t }, abs_idx) is Some);
    assert(0 <= pos < kept.len());
}

/// A duplicate or an insert under an extra floor at or below `abs_idx` keeps that entry.
proof fn lemma_floor_keeps(t: EncoderTableView, name: EntryNameView, value: Seq<u8>, src: nat, m: u64, abs_idx: int)
    requires
        t.entries.len() <= t.insert_count,
        entry_at(t, abs_idx) is Some,
        m <= abs_idx,
    ensures
        table_duplicate(t, src, Some(m)) matches Ok((t2, _)) ==> entry_at(t2, abs_idx) == entry_at(t, abs_idx),
        table_insert_pair(t, name, value, Some(m)) matches Ok((t2, _)) ==> entry_at(t2, abs_idx) == entry_at(t, abs_idx),
{
    let pinned = pinned_floor(t.outstanding);
    if let Some(e) = entry_at(t, src as int) {
        let target = (t.capacity - entry_size(e)) as nat;
        let floor = min_floor(pinned, min_floor(Some(src as u64), Some(m)));
        if !eviction_blocked(t, target, floor) && entry_size(e) <= t.capacity {
            lemma_floor_survivor(t, target, floor, e, duplicate_encoding((t.insert_count - 1 - src) as nat), abs_idx);
        }
    }
    match full_match(t, name, value) {
        Some(dup) => if let Some(e) = entry_at(t, dup as int) {
            let target = (t.capacity - entry_size(e)) as nat;
            let floor = min_floor(pinned, min_floor(Some(dup as u64), Some(m)));
            if !eviction_blocked(t, target, floor) && entry_size(e) <= t.capacity {
                lemma_floor_survivor(
                    t,
                    target,
                    floor,
                    e,
                    duplicate_encoding((t.insert_count - 1 - dup) as nat),
                    abs_idx,
                );
            }
        },
        None => {
            let entry = EntryView { name, value };
            let (wire, variant) = insert_instruction(t, name, value);
            let target = (t.capacity - entry_size(entry)) as nat;
            let floor = min_floor(pinned, min_floor(variant, Some(m)));
            if !eviction_blocked(t, target, floor) && entry_size(entry) <= t.capacity {
                lemma_floor_survivor(t, target, floor, entry, wire, abs_idx);
            }
        },
    }
}

/// Planning one more line keeps every entry at or above the section's smallest
/// reference, keeps that smallest reference from rising, and makes the new line's own
/// reference hold.
proof fn lemma_plan_line_references(
    p: PlannerView,
    t: EncoderTableView,
    ring: (Seq<u32>, int),
    name: EntryNameView,
    value: Seq<u8>,
    never_indexed: bool,
    oldest_hot: bool,
)
    requires
        t.entries.len() <= t.insert_count,
        t.insert_count + 2 <= u64::MAX,
    ensures
        ({
            let (p2, t2, r2) = plan_line(p, t, ring, name, value, never_indexed, oldest_hot);
            &&& t2.entries.len() <= t2.insert_count
            &&& t.insert_count <= t2.insert_count <= t.insert_count + 2
            &&& p2.emissions.len() == p.emissions.len() + 1
            &&& p2.emissions.drop_last() == p.emissions
            &&& reference_holds(p2.emissions.last(), (name, value, never_indexed), t2, p2.min_ref, p2.section_ric)
            &&& p.section_ric <= p2.section_ric
            &&& (p.section_ric <= t.insert_count ==> p2.section_ric <= t2.insert_count)
            &&& (ric_live(p, t) ==> ric_live(p2, t2))
            &&& (p.min_ref matches Some(m) ==> p2.min_ref matches Some(m2) && m2 <= m)
            &&& forall|a: int| #![trigger entry_at(t, a)]
                (p.min_ref matches Some(m) && m <= a && entry_at(t, a) is Some) ==> entry_at(t2, a) == entry_at(t, a)
        }),
{
    let hash = pair_hash(name_bytes(name), value);
    let should_index = hashed_line(name, never_indexed) && ring.0.contains(hash);
    lemma_full_match_live(t, name, value);
    lemma_static_indices_name(name);
    lemma_static_indices_valid(name);
    if let Some(indices) = static_indices(name) {
        lemma_first_value_match(indices, value, 0);
    }
    let (p2, t2, r2) = plan_line(p, t, ring, name, value, never_indexed, oldest_hot);
    assert(p2.emissions.drop_last() =~= p.emissions);
    match fast_path(p, t, name, value, never_indexed) {
        Some((pf, e)) => {
            assert(t2 == t);
            assert(p2.emissions.last() == e);
            assert(p2.min_ref == pf.min_ref);
        },
        None => if should_index {
            let (pa, ta) = refresh_step(p, t, oldest_hot);
            let src = oldest_abs(t) as nat;
            lemma_insert_survivors(t, name, value, src, p.min_ref, 0);
            assert(ta.entries.len() <= ta.insert_count);
            lemma_insert_survivors(ta, name, value, src, pa.min_ref, 0);
            if let Some(a) = name_match(t, name) {
                lemma_insert_survivors(t, name, value, src, p.min_ref, a as int);
                lemma_insert_survivors(ta, name, value, src, pa.min_ref, a as int);
            }
            assert forall|a: int| #![trigger entry_at(t, a)]
                (p.min_ref matches Some(m) && m <= a && entry_at(t, a) is Some) implies entry_at(t2, a) == entry_at(t, a) by {
                let m = p.min_ref->0;
                lemma_floor_keeps(t, name, value, src, m, a);
                lemma_insert_survivors(t, name, value, src, p.min_ref, a);
                if entry_at(ta, a) is Some {
                    lemma_floor_keeps(ta, name, value, src, m, a);
                }
            }
        },
    }
}

/// Planning lines in order: every planned line's reference still holds in the table the
/// whole section leaves behind, so a peer whose table holds the same entries finds each
/// referenced entry as it was when the line was planned.
pub proof fn lemma_section_references_hold(
    t: EncoderTableView,
    stream_id: u64,
    ring: (Seq<u32>, int),
    lines: Seq<(EntryNameView, Seq<u8>, bool)>,
    hot: Seq<(EntryNameView, Seq<u8>)>,
)
    requires
        encoder_table_wf(t),
        t.insert_count + 2 * lines.len() <= u64::MAX,
    ensures
        ({
            let (p, t2, r2) = plan_lines(
                initial_planner(t, stream_id),
                t,
                ring,
                lines,
                hot,
            );
            references_hold(p, t2, lines)
        }),
{
    lemma_plan_lines_references(initial_planner(t, stream_id), t, ring, lines, hot);
}

proof fn lemma_plan_lines_references(
    p0: PlannerView,
    t0: EncoderTableView,
    ring: (Seq<u32>, int),
    lines: Seq<(EntryNameView, Seq<u8>, bool)>,
    hot: Seq<(EntryNameView, Seq<u8>)>,
)
    requires
        t0.entries.len() <= t0.insert_count,
        t0.insert_count + 2 * lines.len() <= u64::MAX,
        p0.emissions.len() == 0,
        p0.section_ric == 0,
    ensures
        ({
            let (p, t, r) = plan_lines(p0, t0, ring, lines, hot);
            &&& t.entries.len() <= t.insert_count
            &&& t.insert_count <= t0.insert_count + 2 * lines.len()
            &&& references_hold(p, t, lines)
        }),
    decreases lines.len(),
{
    if lines.len() > 0 {
        let prefix = lines.drop_last();
        lemma_plan_lines_references(p0, t0, ring, prefix, hot);
        let (p1, t1, r1) = plan_lines(p0, t0, ring, prefix, hot);
        let l = lines.last();
        lemma_plan_line_references(p1, t1, r1, l.0, l.1, l.2, oldest_is_hot(t1, hot));
        let (p2, t2, r2) = plan_line(p1, t1, r1, l.0, l.1, l.2, oldest_is_hot(t1, hot));
        assert forall|k: int| 0 <= k < lines.len() implies reference_holds(#[trigger] p2.emissions[k], lines[k], t2, p2.min_ref, p2.section_ric) by {
            if k < prefix.len() {
                assert(p2.emissions[k] == p1.emissions[k]);
                assert(lines[k] == prefix[k]);
                assert(reference_holds(p1.emissions[k], prefix[k], t1, p1.min_ref, p1.section_ric));
                match p1.emissions[k] {
                    EmissionView::IndexedDynamicPreBase(a) => {
                        assert(entry_at(t1, a as int) is Some);
                    },
                    EmissionView::LiteralDynamicNameRefPreBase { abs_idx, .. } => {
                        assert(entry_at(t1, abs_idx as int) is Some);
                    },
                    _ => {},
                }
            }
        }
    }
}

/// A planned line, made relative to Base `base`, resolves against decoder table `d` to
/// exactly what the line's own name and value make.
pub open spec fn line_reads_back(e: EmissionView, line: (EntryNameView, Seq<u8>, bool), d: TableView, base: nat) -> bool {
    resolve_line(d, base, emission_line(e, base)) == entry_line(line.0, line.1, line.2)
}

/// A whole section reads back on the peer's side: once the peer's table holds the same
/// entries as the encoder's after the section was planned (the encoder stream replayed),
/// every planned line, made relative to the section's Base (its Required Insert Count),
/// reads back as what the line's own name and value make.
pub proof fn lemma_section_reads_back(
    t: EncoderTableView,
    stream_id: u64,
    ring: (Seq<u32>, int),
    lines: Seq<(EntryNameView, Seq<u8>, bool)>,
    hot: Seq<(EntryNameView, Seq<u8>)>,
    d: TableView,
)
    requires
        encoder_table_wf(t),
        t.insert_count + 2 * lines.len() <= u64::MAX,
        mirrors(d, plan_lines(initial_planner(t, stream_id), t, ring, lines, hot).1),
        d.failed is None,
        plan_lines(initial_planner(t, stream_id), t, ring, lines, hot).0.section_ric <= usize::MAX,
    ensures
        ({
            let p = plan_lines(initial_planner(t, stream_id), t, ring, lines, hot).0;
            &&& p.emissions.len() == lines.len()
            &&& forall|k: int|
                0 <= k < lines.len() ==> line_reads_back(#[trigger] p.emissions[k], lines[k], d, p.section_ric)
        }),
{
    lemma_section_references_hold(t, stream_id, ring, lines, hot);
    let (p, t2, r2) = plan_lines(initial_planner(t, stream_id), t, ring, lines, hot);
    assert forall|k: int| 0 <= k < lines.len() implies line_reads_back(#[trigger] p.emissions[k], lines[k], d, p.section_ric) by {
        assert(reference_holds(p.emissions[k], lines[k], t2, p.min_ref, p.section_ric));
        match p.emissions[k] {
            EmissionView::IndexedStatic(i) => {
                lemma_static_reference_line(d, p.section_ric, i);
            },
            EmissionView::IndexedDynamicPreBase(a) => {
                assert(table_get(d, a as int) == entry_at(t2, a as int));
            },
            EmissionView::LiteralDynamicNameRefPreBase { abs_idx, .. } => {
                assert(table_get(d, abs_idx as int) == entry_at(t2, abs_idx as int));
            },
            _ => {},
        }
    }
}

/// Resolving planned lines one after another, each made relative to `base`.
pub open spec fn resolved_lines(d: TableView, base: nat, es: Seq<EmissionView>, state: LinesState) -> Result<LinesState, H3ErrorCode>
    decreases es.len(),
{
    if es.len() == 0 {
        Ok(state)
    } else {
        match resolve_line(d, base, emission_line(es[0], base)) {
            Err(e) => Err(e),
            Ok(l) => resolved_lines(d, base, es.drop_first(), add_line(state, l)),
        }
    }
}

/// The wire form of planned lines is the first line's, then the rest's.
proof fn lemma_lines_encoding_front(es: Seq<EmissionView>, base: nat)
    requires
        es.len() > 0,
    ensures
        lines_encoding(es, base) == field_line_encoding(emission_line(es[0], base)) + lines_encoding(
            es.drop_first(),
            base,
        ),
    decreases es.len(),
{
    if es.len() == 1 {
        assert(es.drop_last() =~= Seq::<EmissionView>::empty());
        assert(es.drop_first() =~= Seq::<EmissionView>::empty());
        assert(lines_encoding(es, base) =~= field_line_encoding(emission_line(es[0], base)) + lines_encoding(
            es.drop_first(),
            base,
        ));
    } else {
        lemma_lines_encoding_front(es.drop_last(), base);
        assert(es.drop_last().drop_first() =~= es.drop_first().drop_last());
        assert(es.drop_first().last() == es.last());
        assert(es.drop_last()[0] == es[0]);
        assert(lines_encoding(es, base) =~= field_line_encoding(emission_line(es[0], base)) + lines_encoding(
            es.drop_first(),
            base,
        ));
    }
}

/// Decoding the wire form of well-formed planned lines resolves them one after another.
proof fn lemma_lines_decode(d: TableView, base: nat, es: Seq<EmissionView>, state: LinesState)
    requires
        forall|k: int| 0 <= k < es.len() ==> well_formed_line(#[trigger] emission_line(es[k], base)),
    ensures
        dynamic_lines(d, base, lines_encoding(es, base), state) == resolved_lines(d, base, es, state),
    decreases es.len(),
{
    reveal(dynamic_lines);
    if es.len() > 0 {
        lemma_lines_encoding_front(es, base);
        let line = emission_line(es[0], base);
        let enc = field_line_encoding(line);
        let rest = lines_encoding(es.drop_first(), base);
        assert(well_formed_line(emission_line(es[0], base)));
        lemma_field_line_roundtrip(line, rest);
        lemma_field_line_length(enc + rest);
        assert((enc + rest).subrange(enc.len() as int, (enc + rest).len() as int) =~= rest);
        if let Ok(l) = resolve_line(d, base, line) {
            assert forall|k: int| 0 <= k < es.drop_first().len() implies well_formed_line(
                #[trigger] emission_line(es.drop_first()[k], base),
            ) by {
                assert(es.drop_first()[k] == es[k + 1]);
            }
            lemma_lines_decode(d, base, es.drop_first(), add_line(state, l));
        }
    }
}

/// Every entry takes at least 32 bytes.
proof fn lemma_total_size_lower(entries: Seq<EntryView>)
    ensures
        total_size(entries) >= 32 * entries.len(),
    decreases entries.len(),
{
    if entries.len() > 0 {
        lemma_total_size_lower(entries.drop_last());
    }
}


/// Decoding field lines given by name and value, one after another: what a peer makes of
/// the lines themselves.
pub open spec fn lines_as_decoded(lines: Seq<(EntryNameView, Seq<u8>, bool)>, state: LinesState) -> Result<LinesState, H3ErrorCode>
    decreases lines.len(),
{
    if lines.len() == 0 {
        Ok(state)
    } else {
        match entry_line(lines[0].0, lines[0].1, lines[0].2) {
            Err(e) => Err(e),
            Ok(l) => lines_as_decoded(lines.drop_first(), add_line(state, l)),
        }
    }
}

/// The field section a peer makes of lines given by name and value.
pub open spec fn section_of_lines(lines: Seq<(EntryNameView, Seq<u8>, bool)>) -> Result<FieldSectionView, H3ErrorCode> {
    match lines_as_decoded(lines, initial_lines_state()) {
        Err(e) => Err(e),
        Ok(state) => if state.malformed {
            Err(H3ErrorCode::MessageError)
        } else {
            Ok(state.section)
        },
    }
}

/// Resolving planned lines that each read back as their own line is decoding the lines.
proof fn lemma_resolved_as_decoded(
    d: TableView,
    base: nat,
    es: Seq<EmissionView>,
    lines: Seq<(EntryNameView, Seq<u8>, bool)>,
    state: LinesState,
)
    requires
        es.len() == lines.len(),
        forall|k: int| 0 <= k < es.len() ==> line_reads_back(#[trigger] es[k], lines[k], d, base),
    ensures
        resolved_lines(d, base, es, state) == lines_as_decoded(lines, state),
    decreases es.len(),
{
    if es.len() > 0 {
        assert(line_reads_back(es[0], lines[0], d, base));
        if let Ok(l) = entry_line(lines[0].0, lines[0].1, lines[0].2) {
            assert forall|k: int| 0 <= k < es.drop_first().len() implies line_reads_back(
                #[trigger] es.drop_first()[k],
                lines.drop_first()[k],
                d,
                base,
            ) by {
                assert(es.drop_first()[k] == es[k + 1]);
                assert(lines.drop_first()[k] == lines[k + 1]);
            }
            lemma_resolved_as_decoded(d, base, es.drop_first(), lines.drop_first(), add_line(state, l));
        }
    }
}

/// A whole section decodes on the peer's side: once the peer's table holds the same
/// entries as the encoder's after the section was planned (the encoder stream replayed)
/// and the two agree on the maximum capacity, the section's prefix reads back its Required
/// Insert Count as the Base without blocking, and its lines decode to exactly the field
/// section the peer makes of the original lines themselves.
pub proof fn lemma_section_decodes(
    t: EncoderTableView,
    stream_id: u64,
    ring: (Seq<u32>, int),
    lines: Seq<(EntryNameView, Seq<u8>, bool)>,
    hot: Seq<(EntryNameView, Seq<u8>)>,
    d: TableView,
)
    requires
        encoder_table_wf(t),
        t.insert_count + 2 * lines.len() <= u64::MAX,
        mirrors(d, plan_lines(initial_planner(t, stream_id), t, ring, lines, hot).1),
        table_wf(d),
        d.max_capacity == t.max_capacity,
        d.failed is None,
        plan_lines(initial_planner(t, stream_id), t, ring, lines, hot).0.section_ric <= usize::MAX,
        forall|k: int|
            0 <= k < lines.len() ==> well_formed_name(#[trigger] lines[k].0) && name_bytes(lines[k].0).len()
                <= usize::MAX && lines[k].1.len() <= usize::MAX,
    ensures
        ({
            let p = plan_lines(initial_planner(t, stream_id), t, ring, lines, hot).0;
            let prefix = prefix_encoding(section_prefix(p.section_ric, t.max_capacity));
            let body = lines_encoding(p.emissions, p.section_ric);
            &&& section_start(d, prefix + body) == Ok::<(nat, nat, nat), H3ErrorCode>(
                (p.section_ric, p.section_ric, prefix.len()),
            )
            &&& section_lines(d, p.section_ric, body) == section_of_lines(lines)
        }),
{
    lemma_section_references_hold(t, stream_id, ring, lines, hot);
    lemma_plan_lines_references(initial_planner(t, stream_id), t, ring, lines, hot);
    let (p, t2, r2) = plan_lines(initial_planner(t, stream_id), t, ring, lines, hot);
    let ric = p.section_ric;
    let prefix_value = section_prefix(ric, t.max_capacity);
    let prefix = prefix_encoding(prefix_value);
    let body = lines_encoding(p.emissions, ric);
    // The lines parse back.
    assert forall|k: int| 0 <= k < p.emissions.len() implies well_formed_line(
        #[trigger] emission_line(p.emissions[k], ric),
    ) by {
        assert(reference_holds(p.emissions[k], lines[k], t2, p.min_ref, ric));
        assert(well_formed_name(lines[k].0));
    }
    lemma_lines_decode(d, ric, p.emissions, initial_lines_state());
    lemma_section_reads_back(t, stream_id, ring, lines, hot, d);
    lemma_resolved_as_decoded(d, ric, p.emissions, lines, initial_lines_state());
    // The prefix reads back.
    lemma_prefix_roundtrip(prefix_value, body);
    let max_entries = d.max_capacity / 32;
    if ric > 0 {
        let pos = t2.insert_count - 1 - (ric - 1);
        assert(entry_at(t2, ric - 1) is Some);
        lemma_total_size_lower(d.entries);
        assert(d.entries.len() <= max_entries) by (nonlinear_arith)
            requires
                32 * d.entries.len() <= d.max_capacity,
                max_entries == d.max_capacity / 32,
        ;
        assert(0 <= pos < d.entries.len());
        lemma_required_insert_count_roundtrip(ric, d.max_capacity, d.insert_count);
        assert(required_insert_count_encoding(ric, d.max_capacity) <= 2 * max_entries);
    }
}

} // verus!
