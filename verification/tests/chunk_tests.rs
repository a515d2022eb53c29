use lofty::byte_order::{read_u32_be, read_u32_le, u32_to_le_vec, u64_to_le_vec, BigEndianOrder,
    LittleEndianOrder};
use lofty::chunk::Chunks;
use lofty::error::LoftyError;
use lofty::stream::ByteStream;

#[test]
fn test_read_u32_both_orders() {
    let b = [0x01u8, 0x02, 0x03, 0x04];
    assert_eq!(read_u32_le(&b), 0x04030201);
    assert_eq!(read_u32_be(&b), 0x01020304);
}

#[test]
fn test_u32_and_u64_le_encoding() {
    assert_eq!(u32_to_le_vec(0x04030201), vec![0x01, 0x02, 0x03, 0x04]);
    assert_eq!(u64_to_le_vec(0), vec![0u8; 8]);
}

#[test]
fn test_next_reads_big_endian_header() {
    let mut data = b"COMM".to_vec();
    data.extend_from_slice(&[0x00, 0x00, 0x00, 0x12]);
    let mut stream = ByteStream::new(data);
    let mut chunks: Chunks<BigEndianOrder> = Chunks::new();
    chunks.next(&mut stream).unwrap();
    assert_eq!(chunks.fourcc, b"COMM".to_vec());
    assert_eq!(chunks.size, 0x12);
    assert_eq!(stream.position(), 8);
}

#[test]
fn test_next_reads_little_endian_header() {
    let mut data = b"fmt ".to_vec();
    data.extend_from_slice(&[0x12, 0x00, 0x00, 0x00]);
    let mut stream = ByteStream::new(data);
    let mut chunks: Chunks<LittleEndianOrder> = Chunks::new();
    chunks.next(&mut stream).unwrap();
    assert_eq!(chunks.fourcc, b"fmt ".to_vec());
    assert_eq!(chunks.size, 0x12);
}

#[test]
fn test_next_short_header_is_end_of_stream() {
    let mut stream = ByteStream::new(b"COMM\x00".to_vec());
    let mut chunks: Chunks<BigEndianOrder> = Chunks::new();
    assert_eq!(chunks.next(&mut stream).unwrap_err(), LoftyError::EndOfStream);
}

#[test]
fn test_content_reads_exactly_size_without_padding() {
    let mut data = b"NAME".to_vec();
    data.extend_from_slice(&[0x00, 0x00, 0x00, 0x03]);
    data.extend_from_slice(b"abcZ");
    let mut stream = ByteStream::new(data);
    let mut chunks: Chunks<BigEndianOrder> = Chunks::new();
    chunks.next(&mut stream).unwrap();
    let content = chunks.content(&mut stream).unwrap();
    assert_eq!(content, b"abc".to_vec());
    // No automatic padding correction: the cursor sits right after the
    // three payload bytes.
    assert_eq!(stream.position(), 11);
}

#[test]
fn test_odd_sized_chunk_is_followed_by_one_padding_byte() {
    // An odd declared size: exactly one byte is skipped before the next
    // chunk read.
    let mut data = b"ANNO".to_vec();
    data.extend_from_slice(&[0x00, 0x00, 0x00, 0x03]);
    data.extend_from_slice(b"ab\0");
    data.push(0); // padding byte, not part of the declared size
    data.extend_from_slice(b"NEXT");
    data.extend_from_slice(&[0x00, 0x00, 0x00, 0x02]);
    data.extend_from_slice(b"xy");
    let mut stream = ByteStream::new(data);
    let mut chunks: Chunks<BigEndianOrder> = Chunks::new();
    chunks.next(&mut stream).unwrap();
    let s = chunks.read_cstring(&mut stream).unwrap();
    assert_eq!(s, "ab");
    assert_eq!(stream.position(), 12);
    chunks.next(&mut stream).unwrap();
    assert_eq!(chunks.fourcc, b"NEXT".to_vec());
    assert_eq!(chunks.size, 2);
}

#[test]
fn test_skip_applies_padding_correction() {
    let mut data = b"JUNK".to_vec();
    data.extend_from_slice(&[0x00, 0x00, 0x00, 0x05]);
    data.extend_from_slice(b"12345\0ZZ");
    let mut stream = ByteStream::new(data);
    let mut chunks: Chunks<BigEndianOrder> = Chunks::new();
    chunks.next(&mut stream).unwrap();
    chunks.skip(&mut stream).unwrap();
    assert_eq!(stream.position(), 8 + 5 + 1);
}

#[test]
fn test_even_sized_chunk_has_no_padding_byte() {
    let mut data = b"JUNK".to_vec();
    data.extend_from_slice(&[0x00, 0x00, 0x00, 0x04]);
    data.extend_from_slice(b"1234");
    let mut stream = ByteStream::new(data);
    let mut chunks: Chunks<BigEndianOrder> = Chunks::new();
    chunks.next(&mut stream).unwrap();
    chunks.skip(&mut stream).unwrap();
    assert_eq!(stream.position(), 12);
}

#[test]
fn test_read_cstring_strips_nul_terminators() {
    let mut data = b"NAME".to_vec();
    data.extend_from_slice(&[0x00, 0x00, 0x00, 0x06]);
    data.extend_from_slice(b"hello\0");
    let mut stream = ByteStream::new(data);
    let mut chunks: Chunks<BigEndianOrder> = Chunks::new();
    chunks.next(&mut stream).unwrap();
    assert_eq!(chunks.read_cstring(&mut stream).unwrap(), "hello");
}

#[test]
fn test_read_cstring_keeps_leading_nuls() {
    // Only trailing NUL characters are stripped; a leading NUL stays.
    let mut data = b"NAME".to_vec();
    data.extend_from_slice(&[0x00, 0x00, 0x00, 0x04]);
    data.extend_from_slice(b"\0ab\0");
    let mut stream = ByteStream::new(data);
    let mut chunks: Chunks<BigEndianOrder> = Chunks::new();
    chunks.next(&mut stream).unwrap();
    assert_eq!(chunks.read_cstring(&mut stream).unwrap(), "\0ab");
}

#[test]
fn test_read_cstring_rejects_invalid_utf8() {
    let mut data = b"NAME".to_vec();
    data.extend_from_slice(&[0x00, 0x00, 0x00, 0x02]);
    data.extend_from_slice(&[0xff, 0xfe]);
    let mut stream = ByteStream::new(data);
    let mut chunks: Chunks<BigEndianOrder> = Chunks::new();
    chunks.next(&mut stream).unwrap();
    assert_eq!(chunks.read_cstring(&mut stream).unwrap_err(), LoftyError::InvalidEncoding);
}

#[test]
fn test_read_pstring_explicit_length_drives_padding() {
    // The declared chunk size is even, but the explicit length 3 is odd:
    // the padding correction follows the explicit length.
    let mut data = b"CHNK".to_vec();
    data.extend_from_slice(&[0x00, 0x00, 0x00, 0x08]);
    data.extend_from_slice(b"abc\0rest");
    let mut stream = ByteStream::new(data);
    let mut chunks: Chunks<BigEndianOrder> = Chunks::new();
    chunks.next(&mut stream).unwrap();
    let s = chunks.read_pstring(&mut stream, Some(3)).unwrap();
    assert_eq!(s, "abc");
    assert_eq!(stream.position(), 8 + 3 + 1);
}

#[test]
fn test_read_pstring_without_explicit_length_uses_chunk_size() {
    let mut data = b"CHNK".to_vec();
    data.extend_from_slice(&[0x00, 0x00, 0x00, 0x04]);
    data.extend_from_slice(b"wxyz");
    let mut stream = ByteStream::new(data);
    let mut chunks: Chunks<BigEndianOrder> = Chunks::new();
    chunks.next(&mut stream).unwrap();
    let s = chunks.read_pstring(&mut stream, None).unwrap();
    assert_eq!(s, "wxyz");
    assert_eq!(stream.position(), 12);
}

#[test]
fn test_read_pstring_fails_hard_on_invalid_utf8() {
    let mut data = b"CHNK".to_vec();
    data.extend_from_slice(&[0x00, 0x00, 0x00, 0x02]);
    data.extend_from_slice(&[0xc3, 0x28]);
    let mut stream = ByteStream::new(data);
    let mut chunks: Chunks<BigEndianOrder> = Chunks::new();
    chunks.next(&mut stream).unwrap();
    let r = chunks.read_pstring(&mut stream, None);
    assert_eq!(r.unwrap_err(), LoftyError::InvalidEncoding);
}

#[test]
fn test_id3_chunk_skips_embedded_footer_region() {
    let mut data = b"ID3 ".to_vec();
    data.extend_from_slice(&[0x00, 0x00, 0x00, 0x05]);
    data.extend_from_slice(&[0u8; 40]);
    let mut stream = ByteStream::new(data);
    let mut chunks: Chunks<BigEndianOrder> = Chunks::new();
    chunks.next(&mut stream).unwrap();
    let content = chunks.content(&mut stream).unwrap();
    assert_eq!(content.len(), 5);
    // The embedded parser (an outside collaborator) reported a trailing
    // footer: ten bytes are skipped, then the odd-size padding byte.
    chunks.id3_chunk(&mut stream, true).unwrap();
    assert_eq!(stream.position(), 8 + 5 + 10 + 1);
}

#[test]
fn test_id3_chunk_without_footer_only_corrects_padding() {
    let mut data = b"ID3 ".to_vec();
    data.extend_from_slice(&[0x00, 0x00, 0x00, 0x04]);
    data.extend_from_slice(&[0u8; 10]);
    let mut stream = ByteStream::new(data);
    let mut chunks: Chunks<BigEndianOrder> = Chunks::new();
    chunks.next(&mut stream).unwrap();
    let _content = chunks.content(&mut stream).unwrap();
    chunks.id3_chunk(&mut stream, false).unwrap();
    assert_eq!(stream.position(), 12);
}

#[test]
fn test_stream_read_past_end_fails_and_keeps_position() {
    let mut stream = ByteStream::new(vec![1, 2, 3]);
    stream.read_exact(2).unwrap();
    assert_eq!(stream.read_exact(2).unwrap_err(), LoftyError::EndOfStream);
    assert_eq!(stream.position(), 2);
}

#[test]
fn test_stream_seek_back_before_start_fails() {
    let mut stream = ByteStream::new(vec![1, 2, 3]);
    stream.seek_forward(2).unwrap();
    assert_eq!(stream.seek_back(3).unwrap_err(), LoftyError::EndOfStream);
    assert_eq!(stream.position(), 2);
    stream.seek_back(2).unwrap();
    assert_eq!(stream.position(), 0);
}
