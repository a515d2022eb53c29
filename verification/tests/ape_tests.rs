use lofty::ape::{ApeTag, ItemKind, TagItem};
use lofty::ape_parse::{parse_tag, read_block_fields};
use lofty::ape_serialize::create_ape_tag;
use lofty::ape_write::write_to;
use lofty::error::LoftyError;

fn text_item(key: &str, value: &str, read_only: bool) -> TagItem {
    TagItem::text(key.as_bytes().to_vec(), value.as_bytes().to_vec(), read_only).unwrap()
}

fn binary_item(key: &str, value: Vec<u8>, read_only: bool) -> TagItem {
    TagItem::binary(key.as_bytes().to_vec(), value, read_only)
}

fn le32(b: &[u8]) -> u32 {
    u32::from_le_bytes([b[0], b[1], b[2], b[3]])
}

#[test]
fn test_round_trip_two_items() {
    // Two items: key "A", text "x", writable; key "B", binary [1, 2], read-only.
    let tag = ApeTag {
        items: vec![text_item("A", "x", false), binary_item("B", vec![0x01, 0x02], true)],
        read_only: false,
    };
    let bytes = create_ape_tag(&tag).unwrap();

    let (items, block_read_only) = parse_tag(&bytes).unwrap();
    assert_eq!(items.len(), 2);
    assert_eq!(items[0].key, b"A".to_vec());
    assert_eq!(items[0].value, b"x".to_vec());
    assert!(matches!(items[0].kind, ItemKind::Text));
    assert!(!items[0].read_only);
    assert_eq!(items[1].key, b"B".to_vec());
    assert_eq!(items[1].value, vec![0x01, 0x02]);
    assert!(matches!(items[1].kind, ItemKind::Binary));
    assert!(items[1].read_only);
    assert!(!block_read_only);

    // Footer: item count 2; bits 30 and 31 set, bit 29 unset.
    let n = bytes.len();
    let footer = &bytes[n - 32..];
    assert_eq!(&footer[0..8], b"APETAGEX");
    assert_eq!(le32(&footer[8..12]), 2000);
    assert_eq!(le32(&footer[16..20]), 2);
    let footer_flags = le32(&footer[20..24]);
    assert_ne!(footer_flags & (1 << 30), 0);
    assert_ne!(footer_flags & (1 << 31), 0);
    assert_eq!(footer_flags & (1 << 29), 0);

    // Header: byte-identical to the footer except bit 29 set.
    let header = &bytes[0..32];
    assert_eq!(&header[0..20], &footer[0..20]);
    assert_eq!(&header[24..32], &footer[24..32]);
    let header_flags = le32(&header[20..24]);
    assert_eq!(header_flags ^ footer_flags, 1 << 29);
}

#[test]
fn test_serialize_empty_items_yields_zero_bytes() {
    let tag = ApeTag { items: Vec::new(), read_only: false };
    let bytes = create_ape_tag(&tag).unwrap();
    assert!(bytes.is_empty());
}

#[test]
fn test_item_bytes_layout_exact() {
    // One writable text item, key "K", value "vv": value length 2, flags 0,
    // key bytes, NUL, value bytes, then the two 32-byte records around it.
    let tag = ApeTag { items: vec![text_item("K", "vv", false)], read_only: false };
    let bytes = create_ape_tag(&tag).unwrap();
    assert_eq!(bytes.len(), 32 + (4 + 4 + 1 + 1 + 2) + 32);
    let body = &bytes[32..bytes.len() - 32];
    assert_eq!(le32(&body[0..4]), 2);
    assert_eq!(le32(&body[4..8]), 0);
    assert_eq!(body[8], b'K');
    assert_eq!(body[9], 0);
    assert_eq!(&body[10..12], b"vv");
    // The size field counts items plus footer, never the header.
    let footer = &bytes[bytes.len() - 32..];
    assert_eq!(le32(&footer[12..16]), (body.len() + 32) as u32);
}

#[test]
fn test_item_flags_read_only_and_kinds() {
    let tag = ApeTag {
        items: vec![
            text_item("T", "t", true),
            binary_item("B", vec![9], false),
            TagItem::locator(b"L".to_vec(), b"http://x".to_vec(), false).unwrap(),
        ],
        read_only: true,
    };
    let bytes = create_ape_tag(&tag).unwrap();
    let body = &bytes[32..bytes.len() - 32];
    // Text, read-only: bit 0 set, kind bits zero.
    assert_eq!(le32(&body[4..8]), 1);
    // Binary: kind 1 in bits 1-2.
    let second = 4 + 4 + 1 + 1 + 1;
    assert_eq!(le32(&body[second + 4..second + 8]), 1 << 1);
    // Locator: kind 2 in bits 1-2.
    let third = second + 4 + 4 + 1 + 1 + 1;
    assert_eq!(le32(&body[third + 4..third + 8]), 2 << 1);
    // Whole-block read-only flag: bit 0 of the footer flags.
    let footer_flags = le32(&bytes[bytes.len() - 12..bytes.len() - 8]);
    assert_ne!(footer_flags & 1, 0);
}

#[test]
fn test_text_item_rejects_invalid_utf8() {
    let r = TagItem::text(b"K".to_vec(), vec![0xff, 0xfe], false);
    assert_eq!(r.unwrap_err(), LoftyError::InvalidEncoding);
}

#[test]
fn test_save_appends_tag_when_none_exists() {
    let audio: Vec<u8> = vec![7u8; 100];
    let mut file = audio.clone();
    let tag = ApeTag { items: vec![text_item("A", "x", false)], read_only: false };
    let expected_tag = create_ape_tag(&tag).unwrap();
    write_to(&mut file, 0, 0, &tag).unwrap();
    assert_eq!(file.len(), 100 + expected_tag.len());
    assert_eq!(&file[0..100], &audio[..]);
    assert_eq!(&file[100..], &expected_tag[..]);
}

#[test]
fn test_save_replaces_existing_trailing_tag() {
    let audio: Vec<u8> = vec![7u8; 100];
    let old_tag = ApeTag { items: vec![text_item("OLD", "old", false)], read_only: false };
    let old_bytes = create_ape_tag(&old_tag).unwrap();
    let mut file = audio.clone();
    file.extend_from_slice(&old_bytes);

    let new_tag = ApeTag { items: vec![text_item("NEW", "new", false)], read_only: false };
    let new_bytes = create_ape_tag(&new_tag).unwrap();
    write_to(&mut file, 0, 0, &new_tag).unwrap();
    assert_eq!(&file[0..100], &audio[..]);
    assert_eq!(&file[100..], &new_bytes[..]);
}

#[test]
fn test_read_only_item_survives_omission_and_override() {
    // The tag on disk holds a read-only item "B"; the caller omits it and
    // supplies a different value under the same key. Both must lose.
    let audio: Vec<u8> = vec![3u8; 64];
    let disk_tag = ApeTag {
        items: vec![text_item("A", "a", false), binary_item("B", vec![0x01, 0x02], true)],
        read_only: false,
    };
    let mut file = audio.clone();
    file.extend_from_slice(&create_ape_tag(&disk_tag).unwrap());

    let caller_tag = ApeTag {
        items: vec![text_item("B", "attacker", false), text_item("C", "c", false)],
        read_only: false,
    };
    write_to(&mut file, 0, 0, &caller_tag).unwrap();

    // Expected: caller items minus key "B", then the override verbatim.
    let expected = ApeTag {
        items: vec![text_item("C", "c", false), binary_item("B", vec![0x01, 0x02], true)],
        read_only: false,
    };
    let expected_bytes = create_ape_tag(&expected).unwrap();
    assert_eq!(&file[0..64], &audio[..]);
    assert_eq!(&file[64..], &expected_bytes[..]);
}

#[test]
fn test_empty_save_removes_existing_tag() {
    let audio: Vec<u8> = vec![5u8; 80];
    let disk_tag = ApeTag { items: vec![text_item("A", "a", false)], read_only: false };
    let mut file = audio.clone();
    file.extend_from_slice(&create_ape_tag(&disk_tag).unwrap());

    let empty = ApeTag { items: Vec::new(), read_only: false };
    write_to(&mut file, 0, 0, &empty).unwrap();
    assert_eq!(file, audio);
}

#[test]
fn test_leading_tag_relocated_to_end() {
    // A tag at the start of the region is against the spec: after a save it
    // is gone from the front and the tag stands at the end.
    let disk_tag = ApeTag { items: vec![text_item("A", "a", false)], read_only: false };
    let disk_bytes = create_ape_tag(&disk_tag).unwrap();
    let audio: Vec<u8> = vec![9u8; 90];
    let mut file = disk_bytes.clone();
    file.extend_from_slice(&audio);

    let new_tag = ApeTag { items: vec![text_item("N", "n", false)], read_only: false };
    let new_bytes = create_ape_tag(&new_tag).unwrap();
    write_to(&mut file, 0, 0, &new_tag).unwrap();
    assert_eq!(&file[0..90], &audio[..]);
    assert_eq!(&file[90..], &new_bytes[..]);
    assert_ne!(&file[0..8], b"APETAGEX");
}

#[test]
fn test_leading_tag_removed_even_when_saving_nothing() {
    let disk_tag = ApeTag { items: vec![text_item("A", "a", true)], read_only: false };
    let disk_bytes = create_ape_tag(&disk_tag).unwrap();
    let audio: Vec<u8> = vec![9u8; 40];
    let mut file = disk_bytes.clone();
    file.extend_from_slice(&audio);

    // The read-only item on disk survives even an empty save.
    let empty = ApeTag { items: Vec::new(), read_only: false };
    write_to(&mut file, 0, 0, &empty).unwrap();
    let expected_tail = create_ape_tag(&ApeTag {
        items: vec![text_item("A", "a", true)],
        read_only: false,
    })
    .unwrap();
    assert_eq!(&file[0..40], &audio[..]);
    assert_eq!(&file[40..], &expected_tail[..]);
}

#[test]
fn test_resave_same_items_is_byte_identical() {
    let audio: Vec<u8> = vec![1u8; 50];
    let tag = ApeTag {
        items: vec![text_item("A", "a", false), text_item("B", "b", false)],
        read_only: false,
    };
    let mut file = audio.clone();
    file.extend_from_slice(&create_ape_tag(&tag).unwrap());
    let before = file.clone();
    write_to(&mut file, 0, 0, &tag).unwrap();
    assert_eq!(file, before);
}

#[test]
fn test_resave_upgrades_old_version() {
    // A footer-only tag (no header, version 1000) on disk: re-saving the
    // same item writes the modern form, version 2000, with a header.
    let item = text_item("A", "a", false);
    let body: Vec<u8> = {
        let mut b = Vec::new();
        b.extend_from_slice(&1u32.to_le_bytes());
        b.extend_from_slice(&0u32.to_le_bytes());
        b.extend_from_slice(b"A");
        b.push(0);
        b.extend_from_slice(b"a");
        b
    };
    let mut old_block = body.clone();
    old_block.extend_from_slice(b"APETAGEX");
    old_block.extend_from_slice(&1000u32.to_le_bytes());
    old_block.extend_from_slice(&((body.len() + 32) as u32).to_le_bytes());
    old_block.extend_from_slice(&1u32.to_le_bytes());
    old_block.extend_from_slice(&0u32.to_le_bytes());
    old_block.extend_from_slice(&[0u8; 8]);

    let audio: Vec<u8> = vec![2u8; 48];
    let mut file = audio.clone();
    file.extend_from_slice(&old_block);

    let tag = ApeTag { items: vec![item], read_only: false };
    write_to(&mut file, 0, 0, &tag).unwrap();
    let expected = create_ape_tag(&tag).unwrap();
    assert_eq!(&file[0..48], &audio[..]);
    assert_eq!(&file[48..], &expected[..]);
    let fields = read_block_fields(&file, file.len() - 32).unwrap();
    assert_eq!(fields.version, 2000);
}

#[test]
fn test_malformed_size_rejected_without_mutation() {
    // A trailing record whose size field is smaller than the record itself.
    let mut file: Vec<u8> = vec![0u8; 40];
    let n = file.len();
    file[n - 32..n - 24].copy_from_slice(b"APETAGEX");
    file[n - 24..n - 20].copy_from_slice(&2000u32.to_le_bytes());
    file[n - 20..n - 16].copy_from_slice(&5u32.to_le_bytes());
    let before = file.clone();
    let tag = ApeTag { items: Vec::new(), read_only: false };
    let r = write_to(&mut file, 0, 0, &tag);
    assert_eq!(r.unwrap_err(), LoftyError::MalformedSize);
    assert_eq!(file, before);
}

#[test]
fn test_undersized_file_fails_with_end_of_stream() {
    let mut file: Vec<u8> = vec![0u8; 5];
    let tag = ApeTag { items: Vec::new(), read_only: false };
    let r = write_to(&mut file, 0, 0, &tag);
    assert_eq!(r.unwrap_err(), LoftyError::EndOfStream);
    assert_eq!(file, vec![0u8; 5]);
}

#[test]
fn test_tag_with_invalid_utf8_text_value_rejected() {
    // A trailing tag whose text item holds invalid UTF-8: locating fails
    // strictly, and the file stays untouched.
    let item_bytes: Vec<u8> = {
        let mut b = Vec::new();
        b.extend_from_slice(&2u32.to_le_bytes());
        b.extend_from_slice(&0u32.to_le_bytes());
        b.extend_from_slice(b"K");
        b.push(0);
        b.extend_from_slice(&[0xff, 0xfe]);
        b
    };
    let mut block = item_bytes.clone();
    block.extend_from_slice(b"APETAGEX");
    block.extend_from_slice(&2000u32.to_le_bytes());
    block.extend_from_slice(&((item_bytes.len() + 32) as u32).to_le_bytes());
    block.extend_from_slice(&1u32.to_le_bytes());
    block.extend_from_slice(&0u32.to_le_bytes());
    block.extend_from_slice(&[0u8; 8]);

    let mut file: Vec<u8> = vec![6u8; 40];
    file.extend_from_slice(&block);
    let before = file.clone();
    let tag = ApeTag { items: Vec::new(), read_only: false };
    let r = write_to(&mut file, 0, 0, &tag);
    assert_eq!(r.unwrap_err(), LoftyError::InvalidEncoding);
    assert_eq!(file, before);
}

#[test]
fn test_legacy_trailer_bytes_kept_past_insertion_point() {
    // 30 bytes of trailing legacy blocks: the new tag goes just before
    // them, and they stay nearest end-of-file.
    let audio: Vec<u8> = vec![8u8; 60];
    let legacy: Vec<u8> = vec![0xEEu8; 30];
    let mut file = audio.clone();
    file.extend_from_slice(&legacy);

    let tag = ApeTag { items: vec![text_item("A", "x", false)], read_only: false };
    let tag_bytes = create_ape_tag(&tag).unwrap();
    write_to(&mut file, 0, 30, &tag).unwrap();
    assert_eq!(&file[0..60], &audio[..]);
    assert_eq!(&file[60..60 + tag_bytes.len()], &tag_bytes[..]);
    assert_eq!(&file[60 + tag_bytes.len()..], &legacy[..]);
}

#[test]
fn test_parse_tag_of_empty_bytes_is_empty_tag() {
    let (items, read_only) = parse_tag(&Vec::new()).unwrap();
    assert!(items.is_empty());
    assert!(!read_only);
}

#[test]
fn test_error_messages_name_the_failure() {
    assert_eq!(LoftyError::TooMuchData.message(), "serialized tag exceeds the 32-bit size field");
    assert_eq!(LoftyError::UnsupportedContainer.message(), "unsupported container format");
}
