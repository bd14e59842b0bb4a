use omni::data::Data;
use omni::omni_data::{OmniData, OmniExportMode, OmniSerialize};
use omni::omni_frame::{OmniFrame, OmniFrameContent, OmniFrameFooter, OmniFrameHeader};
use omni::omni_test::{OmniByte, OmniNumber};
use omni::varint::VarInt;

#[test]
fn export_modes() {
    let d = OmniData::from_bytes(vec![7u8; 130]);
    assert_eq!(d.len(), 130);
    assert!(!d.is_empty());
    assert_eq!(d.to_bytes_ext(OmniExportMode::LengthOnly), vec![0x82, 0x01]);
    assert_eq!(d.to_bytes_ext(OmniExportMode::DataOnly), vec![7u8; 130]);
    let full = d.to_bytes();
    assert_eq!(full.len(), 132);
    assert_eq!(&full[..2], &[0x82, 0x01]);
    assert_eq!(d.serialize(), full);
    assert_eq!(d.to_bytes_ext(OmniExportMode::Full), full);
}

#[test]
fn empty_data() {
    let d = OmniData::new();
    assert!(d.is_empty());
    assert_eq!(d.to_bytes(), vec![0x00]);
}

#[test]
fn constructors() {
    let frame = OmniFrame::new(
        OmniFrameHeader::new(vec![VarInt::from(1u8), VarInt::from(300u16)]),
        OmniFrameContent::new(OmniData::from_bytes(vec![1, 2])),
        Some(OmniFrameFooter::new(OmniData::new())),
    );
    assert_eq!(frame.header.block_type.len(), 2);
    assert_eq!(frame.content.data.data, vec![1, 2]);
    assert!(frame.footer.is_some());
    assert!(OmniByte::new().data.is_empty());
    let n = OmniNumber::new();
    assert!(n.data_type.is_empty() && n.d1.is_empty() && n.d2.is_empty() && n.d3.is_empty());
    let d: Data<u32> = Data::new();
    assert!(d.values.is_empty());
}
