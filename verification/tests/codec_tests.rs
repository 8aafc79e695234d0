use mem_ipc::codec::{Actions, CItem, DecodeError, SItem};

fn sample_citem() -> CItem {
    CItem {
        table_id: b"users".to_vec(),
        action: Actions::Add,
        priority: 0x0102,
        key: vec![1, 2, 3],
        meta: vec![],
        payload: vec![9, 8, 7, 6],
    }
}

fn sample_sitem() -> SItem {
    SItem {
        table_id: b"users".to_vec(),
        action: Actions::Query,
        index: 513,
        value: vec![42, 0, 255],
    }
}

#[test]
fn citem_round_trip() {
    let item = sample_citem();
    let mut buffer: Vec<u8> = Vec::new();
    item.pack(&mut buffer);
    let back = CItem::unpack(&buffer).expect("decode of a fresh encoding");
    assert_eq!(back.table_id, item.table_id);
    assert_eq!(back.action, item.action);
    assert_eq!(back.priority, item.priority);
    assert_eq!(back.key, item.key);
    assert_eq!(back.meta, item.meta);
    assert_eq!(back.payload, item.payload);
}

#[test]
fn citem_round_trip_empty() {
    let item = CItem::default_instance();
    let mut buffer: Vec<u8> = Vec::new();
    item.pack(&mut buffer);
    assert_eq!(buffer.len(), 35);
    let back = CItem::unpack(&buffer).expect("decode of a fresh encoding");
    assert_eq!(back.table_id, Vec::<u8>::new());
    assert_eq!(back.action, Actions::Noop);
    assert_eq!(back.priority, 0);
    assert_eq!(back.key, Vec::<u8>::new());
    assert_eq!(back.meta, Vec::<u8>::new());
    assert_eq!(back.payload, Vec::<u8>::new());
}

#[test]
fn sitem_round_trip() {
    let item = sample_sitem();
    let mut buffer: Vec<u8> = Vec::new();
    item.pack(&mut buffer);
    let back = SItem::unpack(&buffer).expect("decode of a fresh encoding");
    assert_eq!(back.table_id, item.table_id);
    assert_eq!(back.action, item.action);
    assert_eq!(back.index, item.index);
    assert_eq!(back.value, item.value);
}

#[test]
fn sitem_round_trip_empty() {
    let item = SItem::default_instance();
    let mut buffer: Vec<u8> = Vec::new();
    item.pack(&mut buffer);
    assert_eq!(buffer.len(), 19);
    let back = SItem::unpack(&buffer).expect("decode of a fresh encoding");
    assert_eq!(back.table_id, Vec::<u8>::new());
    assert_eq!(back.action, Actions::Noop);
    assert_eq!(back.index, 0);
    assert_eq!(back.value, Vec::<u8>::new());
}

#[test]
fn citem_exact_wire_bytes() {
    let item = CItem {
        table_id: b"t".to_vec(),
        action: Actions::Add,
        priority: 0x0102,
        key: vec![1, 2],
        meta: vec![],
        payload: vec![9],
    };
    let mut buffer: Vec<u8> = Vec::new();
    item.pack(&mut buffer);
    let expected: Vec<u8> = vec![
        1, 0, 0, 0, 0, 0, 0, 0, // table_id length
        b't', // table_id
        1, // action Add
        0x02, 0x01, // priority, little endian
        2, 0, 0, 0, 0, 0, 0, 0, // key length
        1, 2, // key
        0, 0, 0, 0, 0, 0, 0, 0, // meta length
        1, 0, 0, 0, 0, 0, 0, 0, // payload length
        9, // payload
    ];
    assert_eq!(buffer, expected);
}

#[test]
fn sitem_exact_wire_bytes() {
    let item = SItem {
        table_id: b"ab".to_vec(),
        action: Actions::Delete,
        index: 0xBEEF,
        value: vec![7],
    };
    let mut buffer: Vec<u8> = Vec::new();
    item.pack(&mut buffer);
    let expected: Vec<u8> = vec![
        2, 0, 0, 0, 0, 0, 0, 0, // table_id length
        b'a', b'b', // table_id
        2, // action Delete
        0xEF, 0xBE, // index, little endian
        1, 0, 0, 0, 0, 0, 0, 0, // value length
        7, // value
    ];
    assert_eq!(buffer, expected);
}

#[test]
fn pack_appends_to_existing_buffer() {
    let item = sample_sitem();
    let mut buffer: Vec<u8> = vec![0xAA, 0xBB];
    item.pack(&mut buffer);
    assert_eq!(&buffer[..2], &[0xAA, 0xBB]);
    let rest = buffer[2..].to_vec();
    let back = SItem::unpack(&rest).expect("decode after stripping the prelude");
    assert_eq!(back.value, item.value);
}

#[test]
fn unpack_ignores_trailing_bytes() {
    let item = sample_citem();
    let mut buffer: Vec<u8> = Vec::new();
    item.pack(&mut buffer);
    buffer.extend_from_slice(&[0xDE, 0xAD, 0xBE, 0xEF]);
    let back = CItem::unpack(&buffer).expect("decode with trailing bytes");
    assert_eq!(back.payload, item.payload);
}

#[test]
fn citem_truncation_always_fails() {
    let item = sample_citem();
    let mut buffer: Vec<u8> = Vec::new();
    item.pack(&mut buffer);
    for cut in 0..buffer.len() {
        let short = buffer[..cut].to_vec();
        assert!(CItem::unpack(&short).is_err(), "truncation at {cut} decoded");
    }
}

#[test]
fn sitem_truncation_always_fails() {
    let item = sample_sitem();
    let mut buffer: Vec<u8> = Vec::new();
    item.pack(&mut buffer);
    for cut in 0..buffer.len() {
        let short = buffer[..cut].to_vec();
        assert!(SItem::unpack(&short).is_err(), "truncation at {cut} decoded");
    }
}

#[test]
fn citem_invalid_action_every_tag() {
    let item = sample_citem();
    let mut buffer: Vec<u8> = Vec::new();
    item.pack(&mut buffer);
    let action_at = 8 + item.table_id.len();
    for tag in [4u8, 5, 100, 255] {
        let mut bad = buffer.clone();
        bad[action_at] = tag;
        assert_eq!(CItem::unpack(&bad), Err(DecodeError::InvalidActionTag));
    }
}

#[test]
fn sitem_invalid_action_every_tag() {
    let item = sample_sitem();
    let mut buffer: Vec<u8> = Vec::new();
    item.pack(&mut buffer);
    let action_at = 8 + item.table_id.len();
    for tag in [4u8, 17, 255] {
        let mut bad = buffer.clone();
        bad[action_at] = tag;
        assert_eq!(SItem::unpack(&bad), Err(DecodeError::InvalidActionTag));
    }
}

#[test]
fn citem_error_kinds() {
    // below the minimum record size
    assert_eq!(CItem::unpack(&vec![0u8; 34]), Err(DecodeError::BufferTooShort));
    // table_id claims more bytes than remain
    let mut b: Vec<u8> = vec![0u8; 35];
    b[0] = 200;
    assert_eq!(CItem::unpack(&b), Err(DecodeError::TruncatedTableId));
    // key claims more bytes than remain
    let item = CItem {
        table_id: vec![],
        action: Actions::Noop,
        priority: 0,
        key: vec![1, 2, 3, 4],
        meta: vec![],
        payload: vec![],
    };
    let mut enc: Vec<u8> = Vec::new();
    item.pack(&mut enc);
    enc[11] = 250; // key length prefix
    assert_eq!(CItem::unpack(&enc), Err(DecodeError::TruncatedKey));
    // meta claims more bytes than remain
    let mut enc2: Vec<u8> = Vec::new();
    item.pack(&mut enc2);
    enc2[23] = 250; // meta length prefix, after the four key bytes
    assert_eq!(CItem::unpack(&enc2), Err(DecodeError::TruncatedMeta));
    // payload claims more bytes than remain
    let mut enc3: Vec<u8> = Vec::new();
    item.pack(&mut enc3);
    enc3[31] = 250; // payload length prefix
    assert_eq!(CItem::unpack(&enc3), Err(DecodeError::TruncatedPayload));
}

#[test]
fn sitem_error_kinds() {
    assert_eq!(SItem::unpack(&vec![0u8; 18]), Err(DecodeError::BufferTooShort));
    let mut b: Vec<u8> = vec![0u8; 19];
    b[0] = 200;
    assert_eq!(SItem::unpack(&b), Err(DecodeError::TruncatedTableId));
    let item = SItem { table_id: vec![], action: Actions::Noop, index: 0, value: vec![5] };
    let mut enc: Vec<u8> = Vec::new();
    item.pack(&mut enc);
    enc[11] = 250; // value length prefix
    assert_eq!(SItem::unpack(&enc), Err(DecodeError::TruncatedValue));
}

#[test]
fn action_defaults_to_noop() {
    assert_eq!(Actions::default_instance(), Actions::Noop);
    assert_eq!(Actions::default(), Actions::Noop);
}

#[test]
fn fresh_records_default_to_noop() {
    let c = CItem::new_with_defaults();
    assert_eq!(c.action, Actions::Noop);
    assert_eq!(c.table_id, Vec::<u8>::new());
    assert_eq!(c.priority, 0);
    let s = SItem::new_with_defaults();
    assert_eq!(s.action, Actions::Noop);
    assert_eq!(s.table_id, Vec::<u8>::new());
    assert_eq!(s.index, 0);
}
