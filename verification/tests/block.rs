use omni::block::{
    block_data_len, check_magic, namespace, payload_skip_len, skip_block, type_id, types,
    write_magic, Block, BlockType, BlockTypeRead, BlockTypeReadAction,
};
use omni::error::OmniError;

#[test]
fn block_type_roundtrip() {
    let bt = BlockType::new(vec![1u64, 0, 42]).unwrap();
    let encoded = bt.encode();
    let (decoded, _) = BlockType::decode(&encoded).unwrap();
    assert_eq!(bt, decoded);
}

#[test]
fn block_roundtrip() {
    let bt = BlockType::new(vec![types::DATA, namespace::STANDARD, type_id::UTF8_STRING]).unwrap();
    let payload = b"Hallo Omni!".to_vec();
    let block = Block::new(bt, payload.clone());

    let buf = block.encode();

    let (decoded, _) = Block::decode(&buf).unwrap();

    assert_eq!(decoded.block_type.primary(), types::DATA);
    assert_eq!(decoded.payload, payload);
}

#[test]
fn skip_works() {
    let bt = BlockType::new(vec![types::DATA, 0, 1]).unwrap();
    let block = Block::new(bt, b"ignoriere mich".to_vec());

    let mut buf = block.encode();
    // a second block behind it
    let bt2 = BlockType::new(vec![types::META]).unwrap();
    let block2 = Block::new(bt2, b"ich bin wichtig".to_vec());
    buf.extend(block2.encode());

    let skipped = skip_block(&buf).unwrap() as usize; // skip the first block
    let (decoded, _) = Block::decode(&buf[skipped..]).unwrap(); // read the second
    assert_eq!(decoded.block_type.primary(), types::META);
    assert_eq!(decoded.payload, b"ich bin wichtig");
}

#[test]
fn magic_roundtrip() {
    let mut buf = Vec::new();
    write_magic(&mut buf).unwrap();
    check_magic(&buf).unwrap();
}

#[test]
fn magic_invalid_rejected() {
    let buf = vec![0x04, 0x4F, 0x4D, 0x4E, 0x4A]; // OMNJ instead of OMNI
    assert!(check_magic(&buf).is_err());
}

// ---------------------------------------------------------------------------

#[test]
fn block_type_empty_rejected() {
    assert!(matches!(BlockType::new(vec![]), Err(OmniError::EmptyBlockType)));
    // count 0
    assert!(matches!(BlockType::decode(&[0x00]), Err(OmniError::EmptyBlockType)));
}

#[test]
fn block_type_encoding_exact() {
    let bt = BlockType::new(vec![1, 300]).unwrap();
    assert_eq!(bt.encode(), vec![0x02, 0x01, 0xAC, 0x02]);
    let (decoded, used) = BlockType::decode(&[0x02, 0x01, 0xAC, 0x02, 0xFF]).unwrap();
    assert_eq!(decoded, bt);
    assert_eq!(used, 4);
}

#[test]
fn block_type_decode_errors() {
    // the second value never ends
    assert!(matches!(BlockType::decode(&[0x02, 0x01, 0x80]), Err(OmniError::UnexpectedEof)));
    // the count overflows u64
    let mut big = vec![0xFF; 10];
    big.push(0x01);
    assert!(matches!(BlockType::decode(&big), Err(OmniError::VarintOverflow)));
}

#[test]
fn block_encoding_exact() {
    let block = Block::new(BlockType::new(vec![5]).unwrap(), vec![0xAA, 0xBB]);
    // length 4 = type bytes [01 05] + payload [AA BB]
    assert_eq!(block.encode(), vec![0x04, 0x01, 0x05, 0xAA, 0xBB]);
}

#[test]
fn block_decode_errors() {
    assert!(matches!(Block::decode(&[0x00]), Err(OmniError::EmptyBlockType)));
    // announces 5 bytes, only 2 follow
    assert!(matches!(Block::decode(&[0x05, 0x01, 0x05]), Err(OmniError::UnexpectedEof)));
    assert!(matches!(Block::decode(&[]), Err(OmniError::UnexpectedEof)));
}

#[test]
fn block_from_data_splits_type_and_payload() {
    let block = Block::from_data(&[0x01, 0x07, 1, 2, 3]).unwrap();
    assert_eq!(block.block_type.primary(), types::PADDING);
    assert_eq!(block.payload, vec![1, 2, 3]);
}

#[test]
fn header_roundtrip() {
    let header = omni::block::BlockHeader {
        data_len: 200,
        block_type: BlockType::new(vec![2, 9]).unwrap(),
    };
    let bytes = header.encode();
    assert_eq!(bytes, vec![0xC8, 0x01, 0x02, 0x02, 0x09]);
    let (decoded, used) = omni::block::BlockHeader::decode(&bytes).unwrap();
    assert_eq!(decoded.data_len, 200);
    assert_eq!(decoded.block_type, header.block_type);
    assert_eq!(used, 5);
}

#[test]
fn skip_counts_length_varint() {
    // length 300 takes two bytes; the block itself need not be present
    assert_eq!(skip_block(&[0xAC, 0x02]).unwrap(), 302);
}

#[test]
fn magic_too_short() {
    assert!(matches!(check_magic(&[0x04, 0x4F]), Err(OmniError::UnexpectedEof)));
}

#[test]
fn error_messages() {
    assert_eq!(OmniError::InvalidMagic.to_string(), "Ungültige Magic Number – keine Omni-Datei");
    assert_eq!(OmniError::EmptyBlockType.to_string(), "Block-Typ darf nicht leer sein");
    let eof = std::io::Error::new(std::io::ErrorKind::UnexpectedEof, "x");
    assert!(matches!(OmniError::from(eof), OmniError::UnexpectedEof));
    let other = std::io::Error::new(std::io::ErrorKind::Other, "boom");
    let e = OmniError::from_io(other);
    assert!(matches!(e, OmniError::Io(_)));
    assert_eq!(e.to_string(), "I/O Fehler: boom");
}

#[test]
fn block_type_clone_keeps_values() {
    let bt = BlockType::new(vec![1, 2, 3, 4, 5, 6, 7, 8, 9, 10]).unwrap();
    let copy = bt.clone();
    assert_eq!(copy, bt);
    assert_eq!(copy.encode(), bt.encode());
    assert_eq!(copy.0.as_slice(), &[1, 2, 3, 4, 5, 6, 7, 8, 9, 10]);
    assert_ne!(BlockType::new(vec![1, 2]).unwrap(), BlockType::new(vec![1, 3]).unwrap());
    assert_ne!(BlockType::new(vec![1]).unwrap(), BlockType::new(vec![1, 1]).unwrap());
}

#[test]
fn io_error_by_kind() {
    let e = std::io::Error::new(std::io::ErrorKind::Other, "x");
    assert!(matches!(OmniError::from_io_kind(e, true), OmniError::UnexpectedEof));
    let e = std::io::Error::new(std::io::ErrorKind::Other, "y");
    assert!(matches!(OmniError::from_io_kind(e, false), OmniError::Io(_)));
}

#[test]
fn block_type_read_refuses_zero_count() {
    let mut state = BlockTypeRead::new();
    match state.feed(0) {
        BlockTypeReadAction::Failed(e) => assert!(matches!(e, OmniError::EmptyBlockType)),
        _ => panic!("a count of zero must be refused"),
    }
}

#[test]
fn block_type_read_collects_count_values() {
    let mut state = BlockTypeRead::new();
    assert!(matches!(state.feed(2), BlockTypeReadAction::NeedVarint));
    assert!(matches!(state.feed(7), BlockTypeReadAction::NeedVarint));
    match state.feed(9) {
        BlockTypeReadAction::Finished(bt) => {
            assert_eq!(bt, BlockType::new(vec![7u64, 9]).unwrap())
        }
        _ => panic!("two values complete a type of count two"),
    }
    // The reader starts over for the next type.
    assert!(matches!(state.feed(1), BlockTypeReadAction::NeedVarint));
    match state.feed(42) {
        BlockTypeReadAction::Finished(bt) => assert_eq!(bt, BlockType::new(vec![42u64]).unwrap()),
        _ => panic!("one value completes a type of count one"),
    }
}

#[test]
fn block_type_read_agrees_with_decode() {
    let bt = BlockType::new(vec![types::DATA, namespace::STANDARD, type_id::UTF8_STRING]).unwrap();
    let bytes = bt.encode();
    let mut state = BlockTypeRead::new();
    let mut pos = 0usize;
    let result = loop {
        let (value, n) = omni::varint::decode_varint(&bytes[pos..]).unwrap();
        pos += n;
        match state.feed(value) {
            BlockTypeReadAction::NeedVarint => {}
            BlockTypeReadAction::Finished(found) => break found,
            BlockTypeReadAction::Failed(e) => panic!("unexpected error {:?}", e),
        }
    };
    assert_eq!(result, bt);
    assert_eq!(pos, bytes.len());
}

#[test]
fn block_data_len_refuses_zero() {
    assert!(matches!(block_data_len(0), Err(OmniError::EmptyBlockType)));
    assert!(matches!(block_data_len(17), Ok(17)));
}

#[test]
fn payload_skip_len_values() {
    assert_eq!(payload_skip_len(10, 4), 6);
    assert_eq!(payload_skip_len(4, 4), 0);
    assert_eq!(payload_skip_len(3, 4), 0);
}

#[test]
fn block_type_debug_shows_the_values() {
    let bt = BlockType::new(vec![1u64, 0, 42]).unwrap();
    assert_eq!(format!("{:?}", bt), "BlockType([1, 0, 42])");
}
