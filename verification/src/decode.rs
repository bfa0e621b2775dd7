//! A reference decoder for the batch request body, and the proof that
//! it recovers every field the encoder wrote.
//!
//! The decoder is specification-level only: it defines what the bytes
//! mean, so that the round-trip theorem can state that encoding is
//! lossless for every batch whose two sequences match its declared
//! count.

use vstd::prelude::*;

use crate::batch::{Batch, BatchStatement, BatchType, Consistency, SerialConsistency, ValueList,
    batch_flags, batch_type_tag, consistency_code, pairs_result, serial_consistency_code,
    spec_serialize, statement_bytes, statement_fits, tail_bytes, value_list_bytes,
    value_list_fits, values_bytes, zip_len};
use crate::wire::{be16_bytes, be16_value, be32_bytes, be32_value, be64_bytes, be64_value,
    lemma_be16_round_trip, lemma_be32_round_trip, lemma_be64_round_trip, lemma_i64_round_trip};

verus! {

/// A decoded statement: the kind tag and the payload bytes.
pub enum DecodedStatement {
    Query { text: Seq<u8> },
    Prepared { id: Seq<u8> },
}

/// Everything a decoder can recover from an encoded batch body.
pub struct DecodedBatch {
    pub batch_type: BatchType,
    pub statements_count: int,
    pub statements: Seq<DecodedStatement>,
    pub values: Seq<Seq<Seq<u8>>>,
    pub consistency: Consistency,
    pub serial_consistency: Option<SerialConsistency>,
    pub timestamp: Option<i64>,
}

/// The decoded image of one statement.
pub open spec fn statement_view(s: BatchStatement) -> DecodedStatement {
    match s {
        BatchStatement::Query { text } => DecodedStatement::Query { text: text@ },
        BatchStatement::Prepared { id } => DecodedStatement::Prepared { id: id@ },
    }
}

/// The decoded image of one value list.
pub open spec fn value_list_view(vl: ValueList) -> Seq<Seq<u8>> {
    vl.values@.map_values(|v: Vec<u8>| v@)
}

/// The decoded image of a whole batch.
pub open spec fn batch_view(b: Batch) -> DecodedBatch {
    DecodedBatch {
        batch_type: b.batch_type,
        statements_count: b.statements_count as int,
        statements: b.statements@.map_values(|s: BatchStatement| statement_view(s)),
        values: b.values@.map_values(|vl: ValueList| value_list_view(vl)),
        consistency: b.consistency,
        serial_consistency: b.serial_consistency,
        timestamp: b.timestamp,
    }
}

pub open spec fn decode_batch_type(t: u8) -> Option<BatchType> {
    if t == 0 {
        Some(BatchType::Logged)
    } else if t == 1 {
        Some(BatchType::Unlogged)
    } else if t == 2 {
        Some(BatchType::Counter)
    } else {
        None
    }
}

pub open spec fn decode_consistency(c: u8) -> Option<Consistency> {
    if c == 0 {
        Some(Consistency::Any)
    } else if c == 1 {
        Some(Consistency::One)
    } else if c == 2 {
        Some(Consistency::Two)
    } else if c == 3 {
        Some(Consistency::Three)
    } else if c == 4 {
        Some(Consistency::Quorum)
    } else if c == 5 {
        Some(Consistency::All)
    } else if c == 6 {
        Some(Consistency::LocalQuorum)
    } else if c == 7 {
        Some(Consistency::EachQuorum)
    } else if c == 8 {
        Some(Consistency::Serial)
    } else if c == 9 {
        Some(Consistency::LocalSerial)
    } else if c == 10 {
        Some(Consistency::LocalOne)
    } else {
        None
    }
}

pub open spec fn decode_serial_consistency(c: u16) -> Option<SerialConsistency> {
    if c == 8 {
        Some(SerialConsistency::Serial)
    } else if c == 9 {
        Some(SerialConsistency::LocalSerial)
    } else {
        None
    }
}

/// Reads one statement: kind tag, length field, payload. Returns the
/// statement and the remaining bytes.
pub open spec fn decode_statement(s: Seq<u8>) -> Option<(DecodedStatement, Seq<u8>)> {
    if s.len() < 1 {
        None
    } else if s[0] == 0 {
        if s.len() < 5 {
            None
        } else {
            let n = be32_value(s.subrange(1, 5)) as int;
            if s.len() - 5 < n {
                None
            } else {
                Some((DecodedStatement::Query { text: s.subrange(5, 5 + n) }, s.skip(5 + n)))
            }
        }
    } else if s[0] == 1 {
        if s.len() < 3 {
            None
        } else {
            let n = be16_value(s.subrange(1, 3)) as int;
            if s.len() - 3 < n {
                None
            } else {
                Some((DecodedStatement::Prepared { id: s.subrange(3, 3 + n) }, s.skip(3 + n)))
            }
        }
    } else {
        None
    }
}

/// Reads one length-prefixed value.
pub open spec fn decode_value(s: Seq<u8>) -> Option<(Seq<u8>, Seq<u8>)> {
    if s.len() < 4 {
        None
    } else {
        let n = be32_value(s.subrange(0, 4)) as int;
        if s.len() - 4 < n {
            None
        } else {
            Some((s.subrange(4, 4 + n), s.skip(4 + n)))
        }
    }
}

/// Reads `n` length-prefixed values.
pub open spec fn decode_values(n: nat, s: Seq<u8>) -> Option<(Seq<Seq<u8>>, Seq<u8>)>
    decreases n,
{
    if n == 0 {
        Some((Seq::empty(), s))
    } else {
        match decode_value(s) {
            None => None,
            Some((v, rest)) => match decode_values((n - 1) as nat, rest) {
                None => None,
                Some((vs, rest2)) => Some((seq![v] + vs, rest2)),
            },
        }
    }
}

/// Reads one value list: its 16-bit count, then that many values.
pub open spec fn decode_value_list(s: Seq<u8>) -> Option<(Seq<Seq<u8>>, Seq<u8>)> {
    if s.len() < 2 {
        None
    } else {
        decode_values(be16_value(s.subrange(0, 2)) as nat, s.skip(2))
    }
}

/// Reads `n` statement/value-list pairs.
pub open spec fn decode_pairs(n: nat, s: Seq<u8>) -> Option<
    (Seq<DecodedStatement>, Seq<Seq<Seq<u8>>>, Seq<u8>),
>
    decreases n,
{
    if n == 0 {
        Some((Seq::empty(), Seq::empty(), s))
    } else {
        match decode_statement(s) {
            None => None,
            Some((st, rest)) => match decode_value_list(rest) {
                None => None,
                Some((vl, rest2)) => match decode_pairs((n - 1) as nat, rest2) {
                    None => None,
                    Some((sts, vls, rest3)) => Some((seq![st] + sts, seq![vl] + vls, rest3)),
                },
            },
        }
    }
}

/// Decodes a complete batch request body, rejecting trailing bytes and
/// any flag bit other than 0x10 and 0x20.
pub open spec fn decode_batch(s: Seq<u8>) -> Option<DecodedBatch> {
    if s.len() < 3 {
        None
    } else {
        match decode_batch_type(s[0]) {
            None => None,
            Some(bt) => {
                let n = be16_value(s.subrange(1, 3)) as int;
                match decode_pairs(n as nat, s.skip(3)) {
                    None => None,
                    Some((sts, vls, rest)) => {
                        if rest.len() < 2 {
                            None
                        } else {
                            match decode_consistency(rest[0]) {
                                None => None,
                                Some(c) => decode_tail(rest[1], rest.skip(2), bt, n, sts, vls, c),
                            }
                        }
                    },
                }
            },
        }
    }
}

/// Decodes the optional fields selected by the flag byte.
pub open spec fn decode_tail(
    flags: u8,
    tail: Seq<u8>,
    bt: BatchType,
    n: int,
    sts: Seq<DecodedStatement>,
    vls: Seq<Seq<Seq<u8>>>,
    c: Consistency,
) -> Option<DecodedBatch> {
    if flags == 0x00 {
        if tail.len() == 0 {
            Some(
                DecodedBatch {
                    batch_type: bt,
                    statements_count: n,
                    statements: sts,
                    values: vls,
                    consistency: c,
                    serial_consistency: None,
                    timestamp: None,
                },
            )
        } else {
            None
        }
    } else if flags == 0x10 {
        if tail.len() == 2 {
            match decode_serial_consistency(be16_value(tail)) {
                None => None,
                Some(sc) => Some(
                    DecodedBatch {
                        batch_type: bt,
                        statements_count: n,
                        statements: sts,
                        values: vls,
                        consistency: c,
                        serial_consistency: Some(sc),
                        timestamp: None,
                    },
                ),
            }
        } else {
            None
        }
    } else if flags == 0x20 {
        if tail.len() == 8 {
            Some(
                DecodedBatch {
                    batch_type: bt,
                    statements_count: n,
                    statements: sts,
                    values: vls,
                    consistency: c,
                    serial_consistency: None,
                    timestamp: Some(be64_value(tail) as i64),
                },
            )
        } else {
            None
        }
    } else if flags == 0x30 {
        if tail.len() == 10 {
            match decode_serial_consistency(be16_value(tail.subrange(0, 2))) {
                None => None,
                Some(sc) => Some(
                    DecodedBatch {
                        batch_type: bt,
                        statements_count: n,
                        statements: sts,
                        values: vls,
                        consistency: c,
                        serial_consistency: Some(sc),
                        timestamp: Some(be64_value(tail.subrange(2, 10)) as i64),
                    },
                ),
            }
        } else {
            None
        }
    } else {
        None
    }
}

/// The pair encoding as plain bytes, for sequences that fit.
pub open spec fn pairs_bytes(stmts: Seq<BatchStatement>, vals: Seq<ValueList>) -> Seq<u8>
    decreases stmts.len(),
{
    if stmts.len() == 0 || vals.len() == 0 {
        Seq::empty()
    } else {
        statement_bytes(stmts[0]) + value_list_bytes(vals[0]) + pairs_bytes(
            stmts.drop_first(),
            vals.drop_first(),
        )
    }
}

/// When every zipped pair fits its fields, the pair encoding succeeds
/// and yields exactly `pairs_bytes`.
pub proof fn lemma_pairs_result_ok(stmts: Seq<BatchStatement>, vals: Seq<ValueList>)
    requires
        forall|j: int|
            0 <= j < stmts.len() && j < vals.len() ==> statement_fits(#[trigger] stmts[j]),
        forall|j: int|
            0 <= j < stmts.len() && j < vals.len() ==> value_list_fits(#[trigger] vals[j]),
    ensures
        pairs_result(stmts, vals) == Ok::<Seq<u8>, crate::batch::SerializationError>(
            pairs_bytes(stmts, vals),
        ),
    decreases stmts.len(),
{
    if stmts.len() == 0 || vals.len() == 0 {
    } else {
        assert(statement_fits(stmts[0]));
        assert(value_list_fits(vals[0]));
        lemma_pairs_result_ok(stmts.drop_first(), vals.drop_first());
    }
}

/// Decoding the bytes of one fitting statement recovers it and leaves
/// the remainder untouched.
proof fn lemma_decode_statement(st: BatchStatement, rest: Seq<u8>)
    requires
        statement_fits(st),
    ensures
        decode_statement(statement_bytes(st) + rest) == Some((statement_view(st), rest)),
{
    let s = statement_bytes(st) + rest;
    match st {
        BatchStatement::Query { text } => {
            let n = text@.len() as int;
            assert(s.len() == 5 + n + rest.len());
            assert(s[0] == 0);
            assert(s.subrange(1, 5) =~= be32_bytes(text@.len() as u32));
            lemma_be32_round_trip(text@.len() as u32);
            assert(be32_value(s.subrange(1, 5)) as int == n);
            assert(s.subrange(5, 5 + n) =~= text@);
            assert(s.skip(5 + n) =~= rest);
        },
        BatchStatement::Prepared { id } => {
            let n = id@.len() as int;
            assert(s.len() == 3 + n + rest.len());
            assert(s[0] == 1);
            assert(s.subrange(1, 3) =~= be16_bytes(id@.len() as u16));
            lemma_be16_round_trip(id@.len() as u16);
            assert(be16_value(s.subrange(1, 3)) as int == n);
            assert(s.subrange(3, 3 + n) =~= id@);
            assert(s.skip(3 + n) =~= rest);
        },
    }
}

/// Decoding one length-prefixed value recovers it.
proof fn lemma_decode_value(v: Vec<u8>, rest: Seq<u8>)
    requires
        v@.len() <= u32::MAX,
    ensures
        decode_value(be32_bytes(v@.len() as u32) + v@ + rest) == Some((v@, rest)),
{
    let s = be32_bytes(v@.len() as u32) + v@ + rest;
    let n = v@.len() as int;
    assert(s.len() == 4 + n + rest.len());
    assert(s.subrange(0, 4) =~= be32_bytes(v@.len() as u32));
    lemma_be32_round_trip(v@.len() as u32);
    assert(be32_value(s.subrange(0, 4)) as int == n);
    assert(s.subrange(4, 4 + n) =~= v@);
    assert(s.skip(4 + n) =~= rest);
}

/// Decoding the concatenated values of a fitting list recovers them all.
proof fn lemma_decode_values(vs: Seq<Vec<u8>>, rest: Seq<u8>)
    requires
        forall|j: int| 0 <= j < vs.len() ==> (#[trigger] vs[j])@.len() <= u32::MAX,
    ensures
        decode_values(vs.len() as nat, values_bytes(vs) + rest) == Some(
            (vs.map_values(|v: Vec<u8>| v@), rest),
        ),
    decreases vs.len(),
{
    if vs.len() == 0 {
        assert(values_bytes(vs) + rest =~= rest);
        assert(vs.map_values(|v: Vec<u8>| v@) =~= Seq::<Seq<u8>>::empty());
    } else {
        let head = vs[0];
        let tail = vs.drop_first();
        let tail_and_rest = values_bytes(tail) + rest;
        assert(values_bytes(vs) + rest =~= be32_bytes(head@.len() as u32) + head@
            + tail_and_rest);
        lemma_decode_value(head, tail_and_rest);
        assert(forall|j: int| 0 <= j < tail.len() ==> (#[trigger] tail[j])@.len() <= u32::MAX);
        lemma_decode_values(tail, rest);
        assert(seq![head@] + tail.map_values(|v: Vec<u8>| v@) =~= vs.map_values(
            |v: Vec<u8>| v@,
        ));
    }
}

/// Decoding the bytes of one fitting value list recovers its view.
proof fn lemma_decode_value_list(vl: ValueList, rest: Seq<u8>)
    requires
        value_list_fits(vl),
    ensures
        decode_value_list(value_list_bytes(vl) + rest) == Some((value_list_view(vl), rest)),
{
    let s = value_list_bytes(vl) + rest;
    assert(s.subrange(0, 2) =~= be16_bytes(vl.values@.len() as u16));
    lemma_be16_round_trip(vl.values@.len() as u16);
    assert(be16_value(s.subrange(0, 2)) as nat == vl.values@.len());
    assert(s.skip(2) =~= values_bytes(vl.values@) + rest);
    lemma_decode_values(vl.values@, rest);
}

/// Decoding `n` encoded pairs recovers every statement and value list.
proof fn lemma_decode_pairs(stmts: Seq<BatchStatement>, vals: Seq<ValueList>, rest: Seq<u8>)
    requires
        stmts.len() == vals.len(),
        forall|j: int| 0 <= j < stmts.len() ==> statement_fits(#[trigger] stmts[j]),
        forall|j: int| 0 <= j < vals.len() ==> value_list_fits(#[trigger] vals[j]),
    ensures
        decode_pairs(stmts.len() as nat, pairs_bytes(stmts, vals) + rest) == Some(
            (
                stmts.map_values(|s: BatchStatement| statement_view(s)),
                vals.map_values(|vl: ValueList| value_list_view(vl)),
                rest,
            ),
        ),
    decreases stmts.len(),
{
    if stmts.len() == 0 {
        assert(pairs_bytes(stmts, vals) + rest =~= rest);
        assert(stmts.map_values(|s: BatchStatement| statement_view(s))
            =~= Seq::<DecodedStatement>::empty());
        assert(vals.map_values(|vl: ValueList| value_list_view(vl)) =~= Seq::<
            Seq<Seq<u8>>,
        >::empty());
    } else {
        let st = stmts[0];
        let vl = vals[0];
        let stail = stmts.drop_first();
        let vtail = vals.drop_first();
        let after_stmt = value_list_bytes(vl) + (pairs_bytes(stail, vtail) + rest);
        assert(pairs_bytes(stmts, vals) + rest =~= statement_bytes(st) + after_stmt);
        lemma_decode_statement(st, after_stmt);
        assert(after_stmt =~= value_list_bytes(vl) + (pairs_bytes(stail, vtail) + rest));
        lemma_decode_value_list(vl, pairs_bytes(stail, vtail) + rest);
        lemma_decode_pairs(stail, vtail, rest);
        assert(seq![statement_view(st)] + stail.map_values(
            |s: BatchStatement| statement_view(s),
        ) =~= stmts.map_values(|s: BatchStatement| statement_view(s)));
        assert(seq![value_list_view(vl)] + vtail.map_values(
            |v: ValueList| value_list_view(v),
        ) =~= vals.map_values(|v: ValueList| value_list_view(v)));
    }
}

/// Round trip: for any batch whose statement and value-list sequences
/// both have exactly the declared length and fit their wire fields,
/// encoding succeeds and the reference decoder recovers the batch type,
/// the count, every statement, every value list, the consistency and
/// both optional fields.
pub proof fn lemma_batch_round_trip(b: Batch)
    requires
        b.statements@.len() == b.statements_count,
        b.values@.len() == b.statements_count,
        b.statements_count <= 0xffff,
        forall|j: int| 0 <= j < b.statements@.len() ==> statement_fits(#[trigger] b.statements@[j]),
        forall|j: int| 0 <= j < b.values@.len() ==> value_list_fits(#[trigger] b.values@[j]),
    ensures
        spec_serialize(b) is Ok,
        decode_batch(spec_serialize(b)->Ok_0) == Some(batch_view(b)),
{
    let stmts = b.statements@;
    let vals = b.values@;
    lemma_pairs_result_ok(stmts, vals);
    assert(zip_len(b) == b.statements_count);
    let body = pairs_bytes(stmts, vals);
    let s = seq![batch_type_tag(b.batch_type)] + be16_bytes(b.statements_count as u16) + body
        + tail_bytes(b);
    assert(spec_serialize(b) == Ok::<Seq<u8>, crate::batch::SerializationError>(s));

    let tail = tail_bytes(b);
    assert(s.len() >= 3 + body.len());
    assert(s[0] == batch_type_tag(b.batch_type));
    assert(decode_batch_type(batch_type_tag(b.batch_type)) == Some(b.batch_type));
    assert(s.subrange(1, 3) =~= be16_bytes(b.statements_count as u16));
    lemma_be16_round_trip(b.statements_count as u16);
    assert(be16_value(s.subrange(1, 3)) as int == b.statements_count);
    assert(s.skip(3) =~= body + tail);
    lemma_decode_pairs(stmts, vals, tail);
    assert(decode_pairs(b.statements_count as nat, s.skip(3)) == Some(
        (
            stmts.map_values(|st: BatchStatement| statement_view(st)),
            vals.map_values(|vl: ValueList| value_list_view(vl)),
            tail,
        ),
    ));

    assert(tail[0] == consistency_code(b.consistency));
    assert(decode_consistency(consistency_code(b.consistency)) == Some(b.consistency));
    assert(tail[1] == batch_flags(b));
    let opt = tail.skip(2);
    match (b.serial_consistency, b.timestamp) {
        (None, None) => {
            assert(opt =~= Seq::<u8>::empty());
        },
        (Some(sc), None) => {
            assert(opt =~= be16_bytes(serial_consistency_code(sc)));
            lemma_be16_round_trip(serial_consistency_code(sc));
            assert(decode_serial_consistency(serial_consistency_code(sc)) == Some(sc));
        },
        (None, Some(ts)) => {
            assert(opt =~= be64_bytes(ts as u64));
            lemma_be64_round_trip(ts as u64);
            lemma_i64_round_trip(ts);
        },
        (Some(sc), Some(ts)) => {
            assert(opt =~= be16_bytes(serial_consistency_code(sc)) + be64_bytes(ts as u64));
            assert(opt.subrange(0, 2) =~= be16_bytes(serial_consistency_code(sc)));
            assert(opt.subrange(2, 10) =~= be64_bytes(ts as u64));
            lemma_be16_round_trip(serial_consistency_code(sc));
            assert(decode_serial_consistency(serial_consistency_code(sc)) == Some(sc));
            lemma_be64_round_trip(ts as u64);
            lemma_i64_round_trip(ts);
        },
    }
}

} // verus!
