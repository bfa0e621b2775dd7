//! The batch request body: its data model and its byte-exact encoder.
//!
//! A batch carries a declared statement count, a sequence of statements,
//! and a parallel sequence of bound-value lists. Encoding appends, in
//! order: a batch-type tag, the 16-bit statement count, the zipped
//! statement/value-list pairs, the consistency code, a flag bitmask, and
//! the optional serial consistency and timestamp fields. Any count or
//! length that does not fit its wire field is a hard error; nothing is
//! silently truncated.

use vstd::prelude::*;

use crate::wire::{be16_bytes, be32_bytes, be64_bytes, write_be16, write_be32, write_be64,
    write_bytes};

verus! {

/// The type of a batch. Wire tags 0, 1 and 2, in this order.
#[derive(Clone, Copy, Debug, PartialEq, Eq, Structural)]
pub enum BatchType {
    Logged,
    Unlogged,
    Counter,
}

/// A consistency level, with its one-byte protocol code.
#[derive(Clone, Copy, Debug, PartialEq, Eq, Structural)]
pub enum Consistency {
    Any,
    One,
    Two,
    Three,
    Quorum,
    All,
    LocalQuorum,
    EachQuorum,
    Serial,
    LocalSerial,
    LocalOne,
}

/// A serial consistency level, with its two-byte protocol code.
#[derive(Clone, Copy, Debug, PartialEq, Eq, Structural)]
pub enum SerialConsistency {
    Serial,
    LocalSerial,
}

/// One statement of a batch: inline query text (as UTF-8 bytes) or the
/// id of a prepared statement. Ordered and comparable for diagnostics
/// only; the order on the wire is the order in the batch.
#[derive(Clone, Debug, PartialEq, Eq, PartialOrd, Ord)]
pub enum BatchStatement {
    Query { text: Vec<u8> },
    Prepared { id: Vec<u8> },
}

/// The bound values of one statement, each value already encoded by the
/// column-value codec. On the wire: a 16-bit value count, then each
/// value with a 32-bit length prefix.
#[derive(Clone, Debug, PartialEq, Eq)]
pub struct ValueList {
    pub values: Vec<Vec<u8>>,
}

/// Why an encode failed. A partially written buffer is discarded by the
/// caller; a silent mismatch would desynchronize the statement stream
/// from the value stream for the server-side parser.
#[derive(Clone, Copy, Debug, PartialEq, Eq, Structural)]
pub enum SerializationError {
    /// The declared statement count does not fit the 16-bit count field.
    StatementCountOverflow,
    /// The number of zipped statement/value-list pairs differs from the
    /// declared statement count.
    StatementCountMismatch,
    /// A text, id, value or value count exceeds its length field.
    LengthOverflow,
}

/// The request opcode under which an encoded batch body is framed.
pub const BATCH_OPCODE: u8 = 0x0d;

/// A batch request body.
#[derive(Clone, Debug)]
pub struct Batch {
    pub statements: Vec<BatchStatement>,
    pub statements_count: usize,
    pub batch_type: BatchType,
    pub consistency: Consistency,
    pub serial_consistency: Option<SerialConsistency>,
    pub timestamp: Option<i64>,
    pub values: Vec<ValueList>,
}

pub open spec fn batch_type_tag(t: BatchType) -> u8 {
    match t {
        BatchType::Logged => 0,
        BatchType::Unlogged => 1,
        BatchType::Counter => 2,
    }
}

pub open spec fn consistency_code(c: Consistency) -> u8 {
    match c {
        Consistency::Any => 0,
        Consistency::One => 1,
        Consistency::Two => 2,
        Consistency::Three => 3,
        Consistency::Quorum => 4,
        Consistency::All => 5,
        Consistency::LocalQuorum => 6,
        Consistency::EachQuorum => 7,
        Consistency::Serial => 8,
        Consistency::LocalSerial => 9,
        Consistency::LocalOne => 10,
    }
}

pub open spec fn serial_consistency_code(c: SerialConsistency) -> u16 {
    match c {
        SerialConsistency::Serial => 8,
        SerialConsistency::LocalSerial => 9,
    }
}

impl BatchType {
    pub fn tag(&self) -> (t: u8)
        ensures
            t == batch_type_tag(*self),
    {
        match self {
            BatchType::Logged => 0,
            BatchType::Unlogged => 1,
            BatchType::Counter => 2,
        }
    }
}

impl Consistency {
    pub fn code(&self) -> (c: u8)
        ensures
            c == consistency_code(*self),
    {
        match self {
            Consistency::Any => 0,
            Consistency::One => 1,
            Consistency::Two => 2,
            Consistency::Three => 3,
            Consistency::Quorum => 4,
            Consistency::All => 5,
            Consistency::LocalQuorum => 6,
            Consistency::EachQuorum => 7,
            Consistency::Serial => 8,
            Consistency::LocalSerial => 9,
            Consistency::LocalOne => 10,
        }
    }
}

impl SerialConsistency {
    pub fn code(&self) -> (c: u16)
        ensures
            c == serial_consistency_code(*self),
    {
        match self {
            SerialConsistency::Serial => 8,
            SerialConsistency::LocalSerial => 9,
        }
    }
}

/// Whether a statement's payload fits its wire length field: a 32-bit
/// field for query text, a 16-bit field for a prepared id.
pub open spec fn statement_fits(s: BatchStatement) -> bool {
    match s {
        BatchStatement::Query { text } => text@.len() <= u32::MAX,
        BatchStatement::Prepared { id } => id@.len() <= u16::MAX,
    }
}

/// The wire form of one statement: a one-byte kind tag, then the
/// length-prefixed payload. Meaningful when `statement_fits` holds.
pub open spec fn statement_bytes(s: BatchStatement) -> Seq<u8> {
    match s {
        BatchStatement::Query { text } => seq![0u8] + be32_bytes(text@.len() as u32) + text@,
        BatchStatement::Prepared { id } => seq![1u8] + be16_bytes(id@.len() as u16) + id@,
    }
}

pub open spec fn statement_result(s: BatchStatement) -> Result<Seq<u8>, SerializationError> {
    if statement_fits(s) {
        Ok(statement_bytes(s))
    } else {
        Err(SerializationError::LengthOverflow)
    }
}

/// Whether a value list fits its wire fields: a 16-bit value count and
/// a 32-bit length field per value.
pub open spec fn value_list_fits(vl: ValueList) -> bool {
    &&& vl.values@.len() <= u16::MAX
    &&& forall|j: int| 0 <= j < vl.values@.len() ==> (#[trigger] vl.values@[j])@.len() <= u32::MAX
}

/// The concatenated wire form of the values themselves.
pub open spec fn values_bytes(vs: Seq<Vec<u8>>) -> Seq<u8>
    decreases vs.len(),
{
    if vs.len() == 0 {
        Seq::empty()
    } else {
        be32_bytes(vs[0]@.len() as u32) + vs[0]@ + values_bytes(vs.drop_first())
    }
}

/// The wire form of one value list: the 16-bit value count, then each
/// value with its length prefix. Meaningful when `value_list_fits` holds.
pub open spec fn value_list_bytes(vl: ValueList) -> Seq<u8> {
    be16_bytes(vl.values@.len() as u16) + values_bytes(vl.values@)
}

pub open spec fn value_list_result(vl: ValueList) -> Result<Seq<u8>, SerializationError> {
    if value_list_fits(vl) {
        Ok(value_list_bytes(vl))
    } else {
        Err(SerializationError::LengthOverflow)
    }
}

/// The number of zipped statement/value-list pairs the encoder produces:
/// the two parallel sequences are consumed in lockstep until either ends.
pub open spec fn zip_len(b: Batch) -> int {
    if b.statements@.len() <= b.values@.len() {
        b.statements@.len() as int
    } else {
        b.values@.len() as int
    }
}

/// The wire form of the zipped pairs, or the first error among them.
pub open spec fn pairs_result(stmts: Seq<BatchStatement>, vals: Seq<ValueList>) -> Result<
    Seq<u8>,
    SerializationError,
>
    decreases stmts.len(),
{
    if stmts.len() == 0 || vals.len() == 0 {
        Ok(Seq::empty())
    } else {
        match statement_result(stmts[0]) {
            Err(e) => Err(e),
            Ok(sb) => match value_list_result(vals[0]) {
                Err(e) => Err(e),
                Ok(vb) => match pairs_result(stmts.drop_first(), vals.drop_first()) {
                    Err(e) => Err(e),
                    Ok(rest) => Ok(sb + vb + rest),
                },
            },
        }
    }
}

/// The wire form of the first `i` zipped pairs, assuming they fit.
pub open spec fn pairs_prefix_bytes(stmts: Seq<BatchStatement>, vals: Seq<ValueList>, i: int) -> Seq<
    u8,
>
    decreases i,
{
    if i <= 0 {
        Seq::empty()
    } else {
        pairs_prefix_bytes(stmts, vals, i - 1) + statement_bytes(stmts[i - 1])
            + value_list_bytes(vals[i - 1])
    }
}

pub open spec fn result_prepend(pre: Seq<u8>, r: Result<Seq<u8>, SerializationError>) -> Result<
    Seq<u8>,
    SerializationError,
> {
    match r {
        Ok(tail) => Ok(pre + tail),
        Err(e) => Err(e),
    }
}

/// Splits the pair encoding after `i` fitting pairs: the total result is
/// the bytes of those pairs followed by whatever the remainder yields.
pub proof fn lemma_pairs_decompose(stmts: Seq<BatchStatement>, vals: Seq<ValueList>, i: int)
    requires
        0 <= i <= stmts.len(),
        i <= vals.len(),
        forall|j: int| 0 <= j < i ==> statement_fits(#[trigger] stmts[j]),
        forall|j: int| 0 <= j < i ==> value_list_fits(#[trigger] vals[j]),
    ensures
        pairs_result(stmts, vals) == result_prepend(
            pairs_prefix_bytes(stmts, vals, i),
            pairs_result(stmts.skip(i), vals.skip(i)),
        ),
    decreases i,
{
    if i == 0 {
        assert(stmts.skip(0) =~= stmts);
        assert(vals.skip(0) =~= vals);
        match pairs_result(stmts, vals) {
            Ok(tail) => {
                assert(Seq::<u8>::empty() + tail =~= tail);
            },
            Err(_) => {},
        }
    } else {
        lemma_pairs_decompose(stmts, vals, i - 1);
        let s1 = stmts.skip(i - 1);
        let v1 = vals.skip(i - 1);
        assert(s1[0] == stmts[i - 1]);
        assert(v1[0] == vals[i - 1]);
        assert(s1.drop_first() =~= stmts.skip(i));
        assert(v1.drop_first() =~= vals.skip(i));
        let sb = statement_bytes(stmts[i - 1]);
        let vb = value_list_bytes(vals[i - 1]);
        assert(pairs_result(s1, v1) == result_prepend(sb + vb, pairs_result(
            stmts.skip(i),
            vals.skip(i),
        ))) by {
            match pairs_result(stmts.skip(i), vals.skip(i)) {
                Ok(rest) => {
                    assert(sb + vb + rest =~= (sb + vb) + rest);
                },
                Err(_) => {},
            }
        }
        let pre = pairs_prefix_bytes(stmts, vals, i - 1);
        match pairs_result(stmts.skip(i), vals.skip(i)) {
            Ok(rest) => {
                assert(pre + ((sb + vb) + rest) =~= (pre + sb + vb) + rest);
            },
            Err(_) => {},
        }
    }
}

/// The flag bitmask: bit 0x10 marks a present serial consistency, bit
/// 0x20 a present timestamp; no other bit is ever set.
pub open spec fn batch_flags(b: Batch) -> u8 {
    if b.serial_consistency is Some && b.timestamp is Some {
        0x30
    } else if b.serial_consistency is Some {
        0x10
    } else if b.timestamp is Some {
        0x20
    } else {
        0x00
    }
}

/// The bytes after the zipped pairs: consistency code, flags, and the
/// optional serial consistency and timestamp fields.
pub open spec fn tail_bytes(b: Batch) -> Seq<u8> {
    seq![consistency_code(b.consistency)] + seq![batch_flags(b)] + (match b.serial_consistency {
        Some(sc) => be16_bytes(serial_consistency_code(sc)),
        None => Seq::empty(),
    }) + (match b.timestamp {
        Some(ts) => be64_bytes(ts as u64),
        None => Seq::empty(),
    })
}

/// The complete encode outcome: either the exact bytes of the request
/// body, or the error the encoder reports.
pub open spec fn spec_serialize(b: Batch) -> Result<Seq<u8>, SerializationError> {
    if b.statements_count > 0xffff {
        Err(SerializationError::StatementCountOverflow)
    } else {
        match pairs_result(b.statements@, b.values@) {
            Err(e) => Err(e),
            Ok(body) => if zip_len(b) != b.statements_count {
                Err(SerializationError::StatementCountMismatch)
            } else {
                Ok(
                    seq![batch_type_tag(b.batch_type)] + be16_bytes(b.statements_count as u16)
                        + body + tail_bytes(b),
                )
            },
        }
    }
}

impl BatchStatement {
    /// Appends the wire form of this statement, or reports that its
    /// payload exceeds its length field.
    pub fn serialize(&self, buf: &mut Vec<u8>) -> (r: Result<(), SerializationError>)
        ensures
            match statement_result(*self) {
                Ok(bytes) => r == Ok::<(), SerializationError>(()) && final(buf)@ == old(buf)@
                    + bytes,
                Err(e) => r == Err::<(), SerializationError>(e) && final(buf)@ == old(buf)@,
            },
    {
        match self {
            BatchStatement::Query { text } => {
                if text.len() > u32::MAX as usize {
                    return Err(SerializationError::LengthOverflow);
                }
                buf.push(0);
                write_be32(buf, text.len() as u32);
                write_bytes(buf, text.as_slice());
                assert(buf@ =~= old(buf)@ + statement_bytes(*self));
            },
            BatchStatement::Prepared { id } => {
                if id.len() > u16::MAX as usize {
                    return Err(SerializationError::LengthOverflow);
                }
                buf.push(1);
                write_be16(buf, id.len() as u16);
                write_bytes(buf, id.as_slice());
                assert(buf@ =~= old(buf)@ + statement_bytes(*self));
            },
        }
        Ok(())
    }
}

impl ValueList {
    /// Appends the wire form of this value list, or reports the first
    /// count or length that exceeds its field. On an error the buffer
    /// keeps what was already appended; the caller discards it.
    pub fn serialize(&self, buf: &mut Vec<u8>) -> (r: Result<(), SerializationError>)
        ensures
            match value_list_result(*self) {
                Ok(bytes) => r == Ok::<(), SerializationError>(()) && final(buf)@ == old(buf)@
                    + bytes,
                Err(e) => r == Err::<(), SerializationError>(e) && old(buf)@.is_prefix_of(
                    final(buf)@,
                ),
            },
    {
        if self.values.len() > u16::MAX as usize {
            assert(old(buf)@.is_prefix_of(buf@)) by {
                assert(buf@.subrange(0, old(buf)@.len() as int) =~= old(buf)@);
            }
            return Err(SerializationError::LengthOverflow);
        }
        write_be16(buf, self.values.len() as u16);
        let mut i: usize = 0;
        while i < self.values.len()
            invariant
                i <= self.values@.len(),
                self.values@.len() <= u16::MAX,
                forall|j: int| 0 <= j < i ==> (#[trigger] self.values@[j])@.len() <= u32::MAX,
                buf@ == old(buf)@ + be16_bytes(self.values@.len() as u16) + values_prefix_bytes(
                    self.values@,
                    i as int,
                ),
            decreases self.values@.len() - i,
        {
            let v = &self.values[i];
            if v.len() > u32::MAX as usize {
                proof {
                    assert(buf@.subrange(0, old(buf)@.len() as int) =~= old(buf)@);
                    assert(!value_list_fits(*self));
                }
                return Err(SerializationError::LengthOverflow);
            }
            write_be32(buf, v.len() as u32);
            write_bytes(buf, v.as_slice());
            assert(buf@ =~= old(buf)@ + be16_bytes(self.values@.len() as u16)
                + values_prefix_bytes(self.values@, i as int + 1));
            i = i + 1;
        }
        proof {
            lemma_values_prefix_complete(self.values@);
            assert(buf@ =~= old(buf)@ + value_list_bytes(*self));
        }
        Ok(())
    }
}

/// The wire form of the first `i` values of a list, assuming they fit.
pub open spec fn values_prefix_bytes(vs: Seq<Vec<u8>>, i: int) -> Seq<u8>
    decreases i,
{
    if i <= 0 {
        Seq::empty()
    } else {
        values_prefix_bytes(vs, i - 1) + be32_bytes(vs[i - 1]@.len() as u32) + vs[i - 1]@
    }
}

/// Taking the whole prefix of a value sequence yields its full encoding.
proof fn lemma_values_prefix_complete(vs: Seq<Vec<u8>>)
    ensures
        values_prefix_bytes(vs, vs.len() as int) == values_bytes(vs),
    decreases vs.len(),
{
    if vs.len() == 0 {
    } else {
        let prev = vs.drop_last();
        lemma_values_prefix_complete(prev);
        lemma_values_bytes_push(prev, vs.last());
        assert(prev.push(vs.last()) =~= vs);
        assert(values_prefix_bytes(vs, vs.len() - 1) == values_prefix_bytes(
            prev,
            prev.len() as int,
        )) by {
            lemma_values_prefix_stable(vs, prev, vs.len() - 1);
        }
    }
}

/// A prefix encoding only reads the first `i` values, so it is the same
/// on any sequence that agrees on them.
proof fn lemma_values_prefix_stable(vs1: Seq<Vec<u8>>, vs2: Seq<Vec<u8>>, i: int)
    requires
        0 <= i <= vs1.len(),
        i <= vs2.len(),
        forall|j: int| 0 <= j < i ==> vs1[j] == vs2[j],
    ensures
        values_prefix_bytes(vs1, i) == values_prefix_bytes(vs2, i),
    decreases i,
{
    if i > 0 {
        lemma_values_prefix_stable(vs1, vs2, i - 1);
    }
}

/// Appending one value to a list appends its length-prefixed bytes.
proof fn lemma_values_bytes_push(vs: Seq<Vec<u8>>, v: Vec<u8>)
    ensures
        values_bytes(vs.push(v)) == values_bytes(vs) + be32_bytes(v@.len() as u32) + v@,
    decreases vs.len(),
{
    let whole = vs.push(v);
    if vs.len() == 0 {
        assert(whole.len() == 1);
        assert(whole[0] == v);
        assert(whole.drop_first() =~= Seq::<Vec<u8>>::empty());
        assert(values_bytes(whole.drop_first()) == values_bytes(Seq::<Vec<u8>>::empty()));
        assert(values_bytes(Seq::<Vec<u8>>::empty()) == Seq::<u8>::empty());
        assert(values_bytes(whole) =~= values_bytes(vs) + be32_bytes(v@.len() as u32) + v@);
    } else {
        assert(whole[0] == vs[0]);
        assert(whole.drop_first() =~= vs.drop_first().push(v));
        lemma_values_bytes_push(vs.drop_first(), v);
        assert(values_bytes(whole) =~= values_bytes(vs) + be32_bytes(v@.len() as u32) + v@);
    }
}

/// Appends the zipped statement/value-list pairs, returning how many
/// pairs were written, or the first error among them.
#[verifier::rlimit(100)]
fn serialize_pairs(
    statements: &Vec<BatchStatement>,
    values: &Vec<ValueList>,
    buf: &mut Vec<u8>,
) -> (r: Result<usize, SerializationError>)
    ensures
        match pairs_result(statements@, values@) {
            Ok(bytes) => {
                &&& r is Ok
                &&& r->Ok_0 == if statements@.len() <= values@.len() {
                    statements@.len()
                } else {
                    values@.len()
                }
                &&& final(buf)@ == old(buf)@ + bytes
            },
            Err(e) => r == Err::<usize, SerializationError>(e) && old(buf)@.is_prefix_of(
                final(buf)@,
            ),
        },
{
    let m: usize = if statements.len() <= values.len() {
        statements.len()
    } else {
        values.len()
    };
    let ghost stmts = statements@;
    let ghost vals = values@;
    assert(buf@ =~= old(buf)@ + pairs_prefix_bytes(stmts, vals, 0));
    let mut i: usize = 0;
    while i < m
        invariant
            i <= m,
            m <= stmts.len(),
            m <= vals.len(),
            m == stmts.len() || m == vals.len(),
            stmts == statements@,
            vals == values@,
            forall|j: int| 0 <= j < i ==> statement_fits(#[trigger] stmts[j]),
            forall|j: int| 0 <= j < i ==> value_list_fits(#[trigger] vals[j]),
            buf@ == old(buf)@ + pairs_prefix_bytes(stmts, vals, i as int),
        decreases m - i,
    {
        proof {
            lemma_pairs_decompose(stmts, vals, i as int);
            assert(stmts.skip(i as int)[0] == stmts[i as int]);
            assert(vals.skip(i as int)[0] == vals[i as int]);
            assert(stmts.skip(i as int).drop_first() =~= stmts.skip(i as int + 1));
            assert(vals.skip(i as int).drop_first() =~= vals.skip(i as int + 1));
        }
        let ghost buf_before = buf@;
        match statements[i].serialize(buf) {
            Err(e) => {
                proof {
                    assert(pairs_result(stmts, vals) == Err::<Seq<u8>, SerializationError>(e));
                    assert(old(buf)@.is_prefix_of(buf@)) by {
                        assert(buf@.subrange(0, old(buf)@.len() as int) =~= old(buf)@);
                    }
                }
                return Err(e);
            },
            Ok(()) => {},
        }
        match values[i].serialize(buf) {
            Err(e) => {
                proof {
                    assert(statement_result(stmts[i as int]) is Ok);
                    assert(pairs_result(stmts, vals) == Err::<Seq<u8>, SerializationError>(e));
                    assert(old(buf)@.is_prefix_of(buf@)) by {
                        assert(buf_before.subrange(0, old(buf)@.len() as int) =~= old(buf)@);
                        assert(buf@.subrange(0, old(buf)@.len() as int) =~= old(buf)@);
                    }
                }
                return Err(e);
            },
            Ok(()) => {},
        }
        proof {
            assert(buf@ =~= old(buf)@ + pairs_prefix_bytes(stmts, vals, i as int + 1));
        }
        i = i + 1;
    }
    proof {
        lemma_pairs_decompose(stmts, vals, m as int);
        assert(stmts.skip(m as int).len() == 0 || vals.skip(m as int).len() == 0);
        assert(pairs_result(stmts, vals) == Ok::<Seq<u8>, SerializationError>(
            pairs_prefix_bytes(stmts, vals, m as int),
        )) by {
            assert(pairs_prefix_bytes(stmts, vals, m as int) + Seq::<u8>::empty()
                =~= pairs_prefix_bytes(stmts, vals, m as int));
        }
    }
    Ok(m)
}

impl Batch {
    /// Encodes this batch, appending the exact request body to `buf`.
    /// Fails, leaving a partial prefix for the caller to discard, when
    /// the declared count does not fit 16 bits, when a statement or
    /// value list exceeds a length field, or when the number of zipped
    /// pairs differs from the declared count.
    #[verifier::rlimit(100)]
    pub fn serialize(&self, buf: &mut Vec<u8>) -> (r: Result<(), SerializationError>)
        ensures
            match spec_serialize(*self) {
                Ok(bytes) => r == Ok::<(), SerializationError>(()) && final(buf)@ == old(buf)@
                    + bytes,
                Err(e) => r == Err::<(), SerializationError>(e) && old(buf)@.is_prefix_of(
                    final(buf)@,
                ),
            },
    {
        buf.push(self.batch_type.tag());
        if self.statements_count > 0xffff {
            assert(old(buf)@.is_prefix_of(buf@)) by {
                assert(buf@.subrange(0, old(buf)@.len() as int) =~= old(buf)@);
            }
            return Err(SerializationError::StatementCountOverflow);
        }
        write_be16(buf, self.statements_count as u16);
        let ghost after_header = buf@;
        let n_serialized_statements: usize = match serialize_pairs(
            &self.statements,
            &self.values,
            buf,
        ) {
            Err(e) => {
                proof {
                    assert(spec_serialize(*self) == Err::<Seq<u8>, SerializationError>(e));
                    assert(old(buf)@.is_prefix_of(buf@)) by {
                        assert(after_header.subrange(0, old(buf)@.len() as int) =~= old(buf)@);
                        assert(buf@.subrange(0, old(buf)@.len() as int) =~= old(buf)@);
                    }
                }
                return Err(e);
            },
            Ok(n) => n,
        };
        if n_serialized_statements != self.statements_count {
            assert(old(buf)@.is_prefix_of(buf@)) by {
                assert(buf@.subrange(0, old(buf)@.len() as int) =~= old(buf)@);
            }
            return Err(SerializationError::StatementCountMismatch);
        }
        buf.push(self.consistency.code());
        let flags: u8 = if self.serial_consistency.is_some() && self.timestamp.is_some() {
            0x30
        } else if self.serial_consistency.is_some() {
            0x10
        } else if self.timestamp.is_some() {
            0x20
        } else {
            0x00
        };
        buf.push(flags);
        match self.serial_consistency {
            Some(sc) => write_be16(buf, sc.code()),
            None => {},
        }
        match self.timestamp {
            Some(ts) => write_be64(buf, ts as u64),
            None => {},
        }
        proof {
            let body = pairs_result(self.statements@, self.values@)->Ok_0;
            assert(buf@ =~= old(buf)@ + (seq![batch_type_tag(self.batch_type)] + be16_bytes(
                self.statements_count as u16,
            ) + body + tail_bytes(*self)));
        }
        Ok(())
    }
}

/// Encoding fails exactly when the declared count does not fit 16 bits
/// or the number of zipped pairs differs from it, provided every zipped
/// statement and value list fits its length fields; and each failure
/// reports its own error.
pub proof fn lemma_serialize_error_conditions(b: Batch)
    requires
        forall|j: int| 0 <= j < zip_len(b) ==> statement_fits(#[trigger] b.statements@[j]),
        forall|j: int| 0 <= j < zip_len(b) ==> value_list_fits(#[trigger] b.values@[j]),
    ensures
        spec_serialize(b) is Err <==> (b.statements_count > 0xffff || zip_len(b)
            != b.statements_count),
        b.statements_count > 0xffff ==> spec_serialize(b) == Err::<Seq<u8>, _>(
            SerializationError::StatementCountOverflow,
        ),
        b.statements_count <= 0xffff && zip_len(b) != b.statements_count ==> spec_serialize(b)
            == Err::<Seq<u8>, _>(SerializationError::StatementCountMismatch),
{
    let m = zip_len(b);
    lemma_pairs_decompose(b.statements@, b.values@, m);
    assert(b.statements@.skip(m).len() == 0 || b.values@.skip(m).len() == 0);
    assert(pairs_result(b.statements@, b.values@) is Ok);
}

/// The flag bitmask sets bit 0x10 exactly when a serial consistency is
/// present, bit 0x20 exactly when a timestamp is present, and no other
/// bit ever.
pub proof fn lemma_flag_bits(b: Batch)
    ensures
        (batch_flags(b) & 0x10) == 0x10 <==> b.serial_consistency is Some,
        (batch_flags(b) & 0x20) == 0x20 <==> b.timestamp is Some,
        (batch_flags(b) & 0xcf) == 0,
{
    assert((0x30u8 & 0x10) == 0x10 && (0x30u8 & 0x20) == 0x20 && (0x30u8 & 0xcf) == 0)
        by (bit_vector);
    assert((0x10u8 & 0x10) == 0x10 && (0x10u8 & 0x20) == 0 && (0x10u8 & 0xcf) == 0) by (bit_vector);
    assert((0x20u8 & 0x10) == 0 && (0x20u8 & 0x20) == 0x20 && (0x20u8 & 0xcf) == 0) by (bit_vector);
    assert((0x00u8 & 0x10) == 0 && (0x00u8 & 0x20) == 0 && (0x00u8 & 0xcf) == 0) by (bit_vector);
}

} // verus!
