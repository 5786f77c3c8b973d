//! QPACK (RFC 9204) header compression for HTTP/3: prefix-coded integers, Huffman
//! string coding, the static and dynamic tables, and the field-section wire format.
use vstd::prelude::*;

pub mod bitseq;
pub mod bytes;
pub mod decoder;
pub mod decoder_instruction;
pub mod decoder_table;
pub mod dynamic_decode;
pub mod encoder;
pub mod encoder_instruction;
pub mod encoder_laws;
pub mod encoder_plan;
pub mod encoder_policy;
pub mod encoder_table;
pub mod entry_name;
pub mod field_section;
pub mod header_name;
pub mod headers;
pub mod http_compat;
pub mod huffman;
pub mod huffman_laws;
pub mod interop_records;
pub mod instruction;
pub mod method;
pub mod predictor;
pub mod priming_cost;
pub mod plan_laws;
pub mod qif;
pub mod recent_pairs;
pub mod section_laws;
pub mod shared_value;
pub mod static_table;
pub mod status;
pub mod strategy_counters;
pub mod table_decode;
pub mod varint;
pub mod wire_histogram;
