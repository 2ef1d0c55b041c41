use tiff_walker::byte_stream::ByteOrder;
use tiff_walker::byte_stream::ByteStream;
use tiff_walker::error::TiffError;

#[test]
fn read_u16_little_endian() {
    let mut s = ByteStream::new(vec![0xEF, 0xBE], ByteOrder::LittleEndian);
    assert_eq!(s.read_u16(), Ok(0xBEEF));
}

#[test]
fn read_u16_big_endian() {
    let mut s = ByteStream::new(vec![0xBE, 0xEF], ByteOrder::BigEndian);
    assert_eq!(s.read_u16(), Ok(0xBEEF));
}

#[test]
fn read_u32_little_endian() {
    let mut s = ByteStream::new(vec![0x78, 0x56, 0x34, 0x12], ByteOrder::LittleEndian);
    assert_eq!(s.read_u32(), Ok(0x12345678));
}

#[test]
fn read_u32_big_endian() {
    let mut s = ByteStream::new(vec![0x12, 0x34, 0x56, 0x78], ByteOrder::BigEndian);
    assert_eq!(s.read_u32(), Ok(0x12345678));
}

#[test]
fn read_advances_cursor() {
    let mut s = ByteStream::new(vec![1, 0, 2, 0, 0, 0], ByteOrder::LittleEndian);
    assert_eq!(s.position(), 0);
    assert_eq!(s.read_u16(), Ok(1));
    assert_eq!(s.position(), 2);
    assert_eq!(s.read_u32(), Ok(2));
    assert_eq!(s.position(), 6);
}

#[test]
fn read_short_source_fails_without_moving() {
    let mut s = ByteStream::new(vec![0xAB], ByteOrder::LittleEndian);
    assert_eq!(s.read_u16(), Err(TiffError::ShortRead));
    assert_eq!(s.read_u32(), Err(TiffError::ShortRead));
    assert_eq!(s.position(), 0);
}

#[test]
fn read_with_order_overrides_once() {
    // The one-shot override uses the supplied order and leaves the stored
    // order untouched for the next default read.
    let mut s = ByteStream::new(vec![0x01, 0x02, 0x01, 0x02], ByteOrder::LittleEndian);
    assert_eq!(s.read_with_order_u16(ByteOrder::BigEndian), Ok(0x0102));
    assert_eq!(s.current_order(), ByteOrder::LittleEndian);
    assert_eq!(s.read_u16(), Ok(0x0201));
}

#[test]
fn set_order_changes_later_reads() {
    let mut s = ByteStream::new(vec![0x01, 0x02, 0x01, 0x02], ByteOrder::LittleEndian);
    assert_eq!(s.read_u16(), Ok(0x0201));
    s.set_order(ByteOrder::BigEndian);
    assert_eq!(s.read_u16(), Ok(0x0102));
}

#[test]
fn seek_moves_cursor() {
    let mut s = ByteStream::new(vec![9, 8, 7, 6], ByteOrder::LittleEndian);
    assert_eq!(s.seek(3), Ok(()));
    assert_eq!(s.position(), 3);
}

#[test]
fn seek_beyond_end_fails_without_moving() {
    let mut s = ByteStream::new(vec![9, 8, 7, 6], ByteOrder::LittleEndian);
    assert_eq!(s.seek(5), Err(TiffError::SeekFailure));
    assert_eq!(s.position(), 0);
}

#[test]
fn read_bytes_exact() {
    let mut s = ByteStream::new(vec![9, 8, 7, 6], ByteOrder::LittleEndian);
    assert_eq!(s.seek(1), Ok(()));
    assert_eq!(s.read_bytes(2), Ok(vec![8, 7]));
    assert_eq!(s.position(), 3);
}

#[test]
fn read_bytes_short_is_an_error_not_a_partial_fill() {
    let mut s = ByteStream::new(vec![9, 8, 7, 6], ByteOrder::LittleEndian);
    assert_eq!(s.seek(2), Ok(()));
    assert_eq!(s.read_bytes(3), Err(TiffError::ShortRead));
    assert_eq!(s.position(), 2);
}
