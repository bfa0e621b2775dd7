use batch_routing::batch::{
    Batch, BatchStatement, BatchType, Consistency, SerialConsistency, SerializationError,
    ValueList,
};

fn empty_values(n: usize) -> Vec<ValueList> {
    let mut out: Vec<ValueList> = Vec::new();
    for _ in 0..n {
        out.push(ValueList { values: vec![] });
    }
    out
}

fn plain_batch(statements: Vec<BatchStatement>, values: Vec<ValueList>, count: usize) -> Batch {
    Batch {
        statements,
        statements_count: count,
        batch_type: BatchType::Logged,
        consistency: Consistency::One,
        serial_consistency: None,
        timestamp: None,
        values,
    }
}

#[test]
fn scenario_a_exact_bytes() {
    let text: Vec<u8> = b"INSERT INTO ks.t (a, b) VALUES (?, ?)".to_vec();
    let batch = Batch {
        statements: vec![
            BatchStatement::Query { text: text.clone() },
            BatchStatement::Prepared { id: vec![0xAB, 0xCD] },
        ],
        statements_count: 2,
        batch_type: BatchType::Logged,
        consistency: Consistency::Quorum,
        serial_consistency: None,
        timestamp: Some(0x42),
        values: empty_values(2),
    };
    let mut buf: Vec<u8> = Vec::new();
    assert_eq!(batch.serialize(&mut buf), Ok(()));

    let mut expected: Vec<u8> = Vec::new();
    expected.push(0x00); // batch type: Logged
    expected.extend_from_slice(&[0x00, 0x02]); // statement count
    expected.push(0x00); // statement kind: query text
    expected.extend_from_slice(&(text.len() as u32).to_be_bytes());
    expected.extend_from_slice(&text);
    expected.extend_from_slice(&[0x00, 0x00]); // empty value list
    expected.push(0x01); // statement kind: prepared id
    expected.extend_from_slice(&[0x00, 0x02, 0xAB, 0xCD]);
    expected.extend_from_slice(&[0x00, 0x00]); // empty value list
    expected.push(0x04); // Quorum
    expected.push(0x20); // flags: timestamp only
    expected.extend_from_slice(&[0x00, 0x00, 0x00, 0x00, 0x00, 0x00, 0x00, 0x42]);
    assert_eq!(buf, expected);
}

#[test]
fn round_trip_recovers_fields() {
    let batch = Batch {
        statements: vec![
            BatchStatement::Query { text: b"SELECT 1".to_vec() },
            BatchStatement::Prepared { id: vec![0x10, 0x20, 0x30] },
        ],
        statements_count: 2,
        batch_type: BatchType::Unlogged,
        consistency: Consistency::LocalQuorum,
        serial_consistency: Some(SerialConsistency::LocalSerial),
        timestamp: Some(-3),
        values: vec![
            ValueList { values: vec![vec![0x01], vec![0x02, 0x03]] },
            ValueList { values: vec![vec![]] },
        ],
    };
    let mut buf: Vec<u8> = Vec::new();
    assert_eq!(batch.serialize(&mut buf), Ok(()));

    // Hand-rolled reference decode of the produced bytes.
    let mut at: usize = 0;
    let read_u8 = |buf: &Vec<u8>, at: &mut usize| -> u8 {
        let b = buf[*at];
        *at += 1;
        b
    };
    let read_u16 = |buf: &Vec<u8>, at: &mut usize| -> u16 {
        let v = u16::from_be_bytes([buf[*at], buf[*at + 1]]);
        *at += 2;
        v
    };
    let read_u32 = |buf: &Vec<u8>, at: &mut usize| -> u32 {
        let v = u32::from_be_bytes([buf[*at], buf[*at + 1], buf[*at + 2], buf[*at + 3]]);
        *at += 4;
        v
    };

    assert_eq!(read_u8(&buf, &mut at), 0x01); // Unlogged
    let count = read_u16(&buf, &mut at);
    assert_eq!(count, 2);
    for (statement, value_list) in batch.statements.iter().zip(batch.values.iter()) {
        match statement {
            BatchStatement::Query { text } => {
                assert_eq!(read_u8(&buf, &mut at), 0x00);
                let n = read_u32(&buf, &mut at) as usize;
                assert_eq!(&buf[at..at + n], &text[..]);
                at += n;
            }
            BatchStatement::Prepared { id } => {
                assert_eq!(read_u8(&buf, &mut at), 0x01);
                let n = read_u16(&buf, &mut at) as usize;
                assert_eq!(&buf[at..at + n], &id[..]);
                at += n;
            }
        }
        let value_count = read_u16(&buf, &mut at) as usize;
        assert_eq!(value_count, value_list.values.len());
        for value in &value_list.values {
            let n = read_u32(&buf, &mut at) as usize;
            assert_eq!(&buf[at..at + n], &value[..]);
            at += n;
        }
    }
    assert_eq!(read_u8(&buf, &mut at), 0x06); // LocalQuorum
    assert_eq!(read_u8(&buf, &mut at), 0x30); // both optional fields
    assert_eq!(read_u16(&buf, &mut at), 9); // LocalSerial
    let ts = i64::from_be_bytes(buf[at..at + 8].try_into().unwrap());
    assert_eq!(ts, -3);
    at += 8;
    assert_eq!(at, buf.len());
}

#[test]
fn count_overflow_is_reported() {
    let batch = plain_batch(vec![], vec![], 70_000);
    let mut buf: Vec<u8> = Vec::new();
    assert_eq!(
        batch.serialize(&mut buf),
        Err(SerializationError::StatementCountOverflow)
    );
}

#[test]
fn count_mismatch_declared_too_high() {
    let statements = vec![
        BatchStatement::Query { text: b"SELECT 1".to_vec() },
        BatchStatement::Query { text: b"SELECT 2".to_vec() },
    ];
    let batch = plain_batch(statements, empty_values(2), 3);
    let mut buf: Vec<u8> = Vec::new();
    assert_eq!(
        batch.serialize(&mut buf),
        Err(SerializationError::StatementCountMismatch)
    );
}

#[test]
fn count_mismatch_fewer_value_lists() {
    let statements = vec![
        BatchStatement::Query { text: b"SELECT 1".to_vec() },
        BatchStatement::Query { text: b"SELECT 2".to_vec() },
    ];
    let batch = plain_batch(statements, empty_values(1), 2);
    let mut buf: Vec<u8> = Vec::new();
    assert_eq!(
        batch.serialize(&mut buf),
        Err(SerializationError::StatementCountMismatch)
    );
}

#[test]
fn matching_count_succeeds() {
    let statements = vec![BatchStatement::Query { text: b"SELECT 1".to_vec() }];
    let batch = plain_batch(statements, empty_values(1), 1);
    let mut buf: Vec<u8> = Vec::new();
    assert_eq!(batch.serialize(&mut buf), Ok(()));
}

#[test]
fn prepared_id_too_long_is_reported() {
    let statements = vec![BatchStatement::Prepared { id: vec![0u8; 65_536] }];
    let batch = plain_batch(statements, empty_values(1), 1);
    let mut buf: Vec<u8> = Vec::new();
    assert_eq!(
        batch.serialize(&mut buf),
        Err(SerializationError::LengthOverflow)
    );
}

#[test]
fn value_count_overflow_is_reported() {
    let statements = vec![BatchStatement::Query { text: b"SELECT 1".to_vec() }];
    let mut values: Vec<Vec<u8>> = Vec::new();
    for _ in 0..65_536 {
        values.push(vec![]);
    }
    let batch = plain_batch(statements, vec![ValueList { values }], 1);
    let mut buf: Vec<u8> = Vec::new();
    assert_eq!(
        batch.serialize(&mut buf),
        Err(SerializationError::LengthOverflow)
    );
}

#[test]
fn count_boundary_is_inclusive() {
    let mut statements: Vec<BatchStatement> = Vec::new();
    for _ in 0..65_535 {
        statements.push(BatchStatement::Prepared { id: vec![0x01] });
    }
    let batch = plain_batch(statements, empty_values(65_535), 65_535);
    let mut buf: Vec<u8> = Vec::new();
    assert_eq!(batch.serialize(&mut buf), Ok(()));
    assert_eq!(&buf[1..3], &[0xFF, 0xFF]);
}

#[test]
fn statements_are_ordered_for_diagnostics() {
    let q = BatchStatement::Query { text: b"SELECT 1".to_vec() };
    let p = BatchStatement::Prepared { id: vec![0x00] };
    assert!(q < p);
    assert_eq!(q, q.clone());
}

fn flags_byte(serial: Option<SerialConsistency>, timestamp: Option<i64>) -> u8 {
    let batch = Batch {
        statements: vec![],
        statements_count: 0,
        batch_type: BatchType::Counter,
        consistency: Consistency::All,
        serial_consistency: serial,
        timestamp,
        values: vec![],
    };
    let mut buf: Vec<u8> = Vec::new();
    assert_eq!(batch.serialize(&mut buf), Ok(()));
    // tag, count (2 bytes), consistency, then the flag byte.
    buf[4]
}

#[test]
fn flag_bits_mark_exactly_the_present_fields() {
    assert_eq!(flags_byte(None, None), 0x00);
    assert_eq!(flags_byte(Some(SerialConsistency::Serial), None), 0x10);
    assert_eq!(flags_byte(None, Some(7)), 0x20);
    assert_eq!(flags_byte(Some(SerialConsistency::Serial), Some(7)), 0x30);
}

#[test]
fn serial_consistency_codes_on_the_wire() {
    let batch = Batch {
        statements: vec![],
        statements_count: 0,
        batch_type: BatchType::Logged,
        consistency: Consistency::Serial,
        serial_consistency: Some(SerialConsistency::LocalSerial),
        timestamp: None,
        values: vec![],
    };
    let mut buf: Vec<u8> = Vec::new();
    assert_eq!(batch.serialize(&mut buf), Ok(()));
    assert_eq!(buf, vec![0x00, 0x00, 0x00, 0x08, 0x10, 0x00, 0x09]);
}
