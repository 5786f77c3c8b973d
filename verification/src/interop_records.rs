//! The QPACK offline-interop record stream (the `.out` files of the interop corpus): a run
//! of records, each a big-endian 64-bit stream id, a big-endian 32-bit length and that many
//! bytes. Stream id 0 carries encoder-stream data; any other id carries one header block.
use vstd::prelude::*;

verus! {

/// One record of an interop file.
#[derive(Debug)]
pub struct OutRecord {
    pub stream_id: u64,
    pub data: Vec<u8>,
}

/// Why the bytes of an interop file do not split into records.
#[derive(Debug, Clone, Copy, PartialEq, Eq, Structural)]
pub enum OutRecordError {
    /// The record at `offset` claims `length` bytes but only `remaining` follow its header.
    Truncated { offset: usize, length: usize, remaining: usize },
    /// This many bytes follow the last record, too few for a record header.
    Trailing(usize),
}

/// The number that bytes spell most significant first.
pub open spec fn big_endian(bytes: Seq<u8>) -> nat
    decreases bytes.len(),
{
    if bytes.len() == 0 {
        0
    } else {
        (big_endian(bytes.drop_last()) * 256 + bytes.last()) as nat
    }
}

/// 256 to the power `n`.
pub open spec fn pow256(n: nat) -> nat
    decreases n,
{
    if n == 0 {
        1
    } else {
        256 * pow256((n - 1) as nat)
    }
}

/// The records of `data` from byte `pos` on, each as its stream id and its bytes.
pub open spec fn records_from(data: Seq<u8>, pos: nat) -> Result<Seq<(u64, Seq<u8>)>, OutRecordError>
    decreases data.len() - pos,
{
    if pos >= data.len() {
        Ok(Seq::empty())
    } else if pos + 12 > data.len() {
        Err(OutRecordError::Trailing((data.len() - pos) as usize))
    } else {
        let stream_id = big_endian(data.subrange(pos as int, (pos + 8) as int));
        let length = big_endian(data.subrange((pos + 8) as int, (pos + 12) as int));
        let start = pos + 12;
        if start + length > data.len() {
            Err(
                OutRecordError::Truncated {
                    offset: pos as usize,
                    length: length as usize,
                    remaining: (data.len() - start) as usize,
                },
            )
        } else {
            match records_from(data, start + length) {
                Ok(rest) => Ok(
                    seq![(stream_id as u64, data.subrange(start as int, (start + length) as int))] + rest,
                ),
                Err(e) => Err(e),
            }
        }
    }
}

/// The value of parsed records.
pub open spec fn records_view(records: Seq<OutRecord>) -> Seq<(u64, Seq<u8>)> {
    records.map_values(|r: OutRecord| (r.stream_id, r.data@))
}

proof fn lemma_pow256_bound(n: nat)
    requires
        n <= 8,
    ensures
        pow256(n) <= pow256(8),
        pow256(8) == 0x1_0000_0000_0000_0000,
    decreases 8 - n,
{
    reveal_with_fuel(pow256, 9);
    if n < 8 {
        lemma_pow256_bound(n + 1);
    }
}

proof fn lemma_big_endian_step(v: nat, b: u8, p: nat)
    requires
        v < p,
    ensures
        v * 256 + b < p * 256,
{
    assert(v * 256 + b < p * 256) by (nonlinear_arith)
        requires
            v < p,
            b < 256,
    ;
}

/// The number that `count` bytes of `data` from `start` spell, most significant first.
pub(crate) fn read_big_endian(data: &[u8], start: usize, count: usize) -> (value: u64)
    requires
        start + count <= data@.len(),
        count <= 8,
    ensures
        value == big_endian(data@.subrange(start as int, start + count)),
        value < pow256(count as nat),
{
    let mut value: u64 = 0;
    let mut i: usize = 0;
    proof {
        lemma_pow256_bound(count as nat);
        assert(data@.subrange(start as int, start as int) =~= Seq::<u8>::empty());
    }
    while i < count
        invariant
            i <= count <= 8,
            start + count <= data@.len(),
            start + count <= data.len(),
            value == big_endian(data@.subrange(start as int, start + i)),
            value < pow256(i as nat),
            pow256(8) == 0x1_0000_0000_0000_0000,
        decreases count - i,
    {
        proof {
            lemma_pow256_bound((i + 1) as nat);
            lemma_big_endian_step(value as nat, data@[start + i], pow256(i as nat));
            let next = data@.subrange(start as int, start + i + 1);
            assert(next.drop_last() =~= data@.subrange(start as int, start + i));
            assert(next.last() == data@[start + i]);
        }
        value = value * 256 + data[start + i] as u64;
        i = i + 1;
    }
    value
}

/// Split an interop file into its records, in file order.
pub fn parse_out_records(data: &[u8]) -> (records: Result<Vec<OutRecord>, OutRecordError>)
    ensures
        match records_from(data@, 0) {
            Ok(rs) => records matches Ok(v) && records_view(v@) == rs,
            Err(e) => records == Err::<Vec<OutRecord>, OutRecordError>(e),
        },
{
    let mut records: Vec<OutRecord> = Vec::new();
    let mut pos: usize = 0;
    while pos < data.len() && data.len() - pos >= 12
        invariant
            pos <= data@.len(),
            records_from(data@, 0) == match records_from(data@, pos as nat) {
                Ok(rest) => Ok(records_view(records@) + rest),
                Err(e) => Err(e),
            },
        decreases data@.len() - pos,
    {
        let stream_id = read_big_endian(data, pos, 8);
        let length64 = read_big_endian(data, pos + 8, 4);
        proof {
            reveal_with_fuel(pow256, 5);
        }
        let length = length64 as usize;
        let start = pos + 12;
        if length > data.len() - start {
            return Err(
                OutRecordError::Truncated { offset: pos, length, remaining: data.len() - start },
            );
        }
        let bytes = vstd::slice::slice_to_vec(vstd::slice::slice_subrange(data, start, start + length));
        let ghost before = records_view(records@);
        records.push(OutRecord { stream_id, data: bytes });
        proof {
            assert(records_view(records@) =~= before.push((stream_id, bytes@)));
            let rest = records_from(data@, (start + length) as nat);
            if let Ok(r) = rest {
                assert(before + (seq![(stream_id, bytes@)] + r) =~= before.push((stream_id, bytes@)) + r);
            }
        }
        pos = start + length;
    }
    if pos != data.len() {
        return Err(OutRecordError::Trailing(data.len() - pos));
    }
    assert(records_view(records@) + Seq::<(u64, Seq<u8>)>::empty() =~= records_view(records@));
    Ok(records)
}

} // verus!
