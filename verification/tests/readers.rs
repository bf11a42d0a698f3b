use rmore::reader::{content_of, is_utf16le, settle_read, ByteReader, ContentType, InputReader};
use std::io::Cursor;

#[test]
fn bytes_one_at_a_time() {
    let data: &[u8] = &[7, 8];
    let mut r = ByteReader::new(data);
    let mut b = 0u8;
    assert_eq!(r.nextchar(&mut b).ok(), Some(1));
    assert_eq!(b, 7);
    assert_eq!(r.nextchar(&mut b).ok(), Some(1));
    assert_eq!(b, 8);
    assert_eq!(r.nextchar(&mut b).ok(), Some(0));
    assert_eq!(b, 8);
}

#[test]
fn chunks_of_a_line() {
    let data: &[u8] = &[1, 2, 3, 4, 5];
    let mut r = ByteReader::new(data);
    assert_eq!(r.read_chunk(2).ok().unwrap(), vec![1, 2]);
    assert_eq!(r.read_chunk(4).ok().unwrap(), vec![3, 4, 5]);
    assert_eq!(r.read_chunk(4).ok().unwrap(), Vec::<u8>::new());
    assert_eq!(r.read_chunk(-1).ok().unwrap(), Vec::<u8>::new());
}

#[test]
fn settling_reads() {
    let mut b = 1u8;
    assert_eq!(settle_read(Ok((1, 9)), &mut b).ok(), Some(1));
    assert_eq!(b, 9);
    assert_eq!(settle_read(Ok((0, 5)), &mut b).ok(), Some(0));
    assert_eq!(b, 9);
    let e = std::io::Error::new(std::io::ErrorKind::Other, "x");
    assert!(settle_read(Err(e), &mut b).is_err());
    assert_eq!(b, 9);
}

#[test]
fn content_of_first_lines() {
    assert_eq!(content_of(&vec![]), None);
    assert_eq!(content_of(&b"Hello\n".to_vec()), Some(ContentType::UTF_8));
    assert_eq!(content_of(&vec![0xEF, 0xBB, 0xBF, b'a']), Some(ContentType::UTF_8_BOM));
    assert_eq!(content_of(&vec![0xFF, 0xFE, 0x41, 0x00]), Some(ContentType::UTF_16LE));
    assert_eq!(content_of(&vec![0xFF, 0xFE, 0x00, 0x00]), Some(ContentType::UTF_32LE));
    assert_eq!(content_of(&vec![0xFE, 0xFF]), Some(ContentType::UTF_16BE));
    assert_eq!(content_of(&vec![0x00, 0x00, 0xFE, 0xFF]), Some(ContentType::UTF_32BE));
    assert_eq!(content_of(&vec![b'a', 0x00]), Some(ContentType::BINARY));
    assert_eq!(content_of(&b"%PDF-1.4".to_vec()), Some(ContentType::BINARY));
    assert!(is_utf16le(Some(ContentType::UTF_16LE)));
    assert!(!is_utf16le(None));
}

#[test]
fn lines_with_read_ahead() {
    let mut r = InputReader::new(Cursor::new(b"one\ntwo\n".to_vec()));
    assert_eq!(r.first_line, b"one\n".to_vec());
    assert_eq!(r.content_type, Some(ContentType::UTF_8));
    let mut buf = Vec::new();
    assert_eq!(r.read_line(&mut buf).ok(), Some(true));
    assert_eq!(buf, b"one\n".to_vec());
    assert_eq!(r.read_line(&mut buf).ok(), Some(true));
    assert_eq!(buf, b"one\ntwo\n".to_vec());
    assert_eq!(r.read_line(&mut buf).ok(), Some(false));
}

#[test]
fn utf16_lines_read_on_to_the_zero_byte() {
    let data = vec![0xFF, 0xFE, b'a', 0x00, b'\n', 0x00, b'b', 0x00, b'\n', 0x00];
    let mut r = InputReader::new(Cursor::new(data));
    assert_eq!(r.content_type, Some(ContentType::UTF_16LE));
    assert_eq!(r.first_line, vec![0xFF, 0xFE, b'a', 0x00, b'\n', 0x00]);
    let mut buf = Vec::new();
    r.read_line(&mut buf).ok();
    r.read_line(&mut buf).ok();
    assert_eq!(buf, vec![0xFF, 0xFE, b'a', 0x00, b'\n', 0x00, b'b', 0x00, b'\n', 0x00]);
}

#[test]
fn empty_input_has_no_content_type() {
    let r = InputReader::new(Cursor::new(Vec::<u8>::new()));
    assert_eq!(r.content_type, None);
    assert!(r.first_line.is_empty());
}

struct FailsAfter(usize);

impl std::io::Read for FailsAfter {
    fn read(&mut self, buf: &mut [u8]) -> std::io::Result<usize> {
        if self.0 == 0 {
            return Err(std::io::Error::new(std::io::ErrorKind::Other, "broken"));
        }
        self.0 -= 1;
        buf[0] = b'x';
        Ok(1)
    }
}

#[test]
fn a_failed_read_fails_the_chunk() {
    let mut r = ByteReader::new(FailsAfter(2));
    assert!(r.read_chunk(4).is_err());
    let mut s = ByteReader::new(FailsAfter(2));
    assert_eq!(s.read_chunk(2).ok().unwrap(), b"xx".to_vec());
    assert_eq!(s.read_chunk(0).ok().unwrap(), Vec::<u8>::new());
}
