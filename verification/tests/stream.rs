use memstream::MemStream;
use std::io::{Read, Write};

#[test]
fn test_mem_stream_read_and_write() {
    let mut stream = MemStream::new();
    stream.write(&[0, 1, 2, 3]).unwrap();
    stream.write(&[4, 5, 6, 7]).unwrap();

    let mut buf = [];
    assert_eq!(stream.read(&mut buf).ok(), Some(0));

    let mut buf = [0];
    assert_eq!(stream.read(&mut buf).ok(), Some(1));
    assert_eq!(&buf, &[0]);

    let mut buf = [0; 4];
    assert_eq!(stream.read(&mut buf).ok(), Some(4));
    assert_eq!(&buf, &[1, 2, 3, 4]);

    assert_eq!(stream.read(&mut buf).ok(), Some(3));
    assert_eq!(&buf[0..3], &[5, 6, 7]);

    assert_eq!(stream.read(&mut buf).ok(), Some(0));
}

#[test]
fn new_stream_holds_nothing() {
    let stream = MemStream::new();
    assert!(stream.eof());
    assert_eq!(stream.unwrap(), Vec::<u8>::new());
}

#[test]
fn new_stream_reads_nothing() {
    let mut stream = MemStream::new();
    let mut buf = [7u8; 3];
    assert_eq!(stream.read(&mut buf).ok(), Some(0));
    assert_eq!(buf, [7, 7, 7]);
}

#[test]
fn write_returns_the_length_written() {
    let mut stream = MemStream::new();
    assert_eq!(stream.write(&[]).ok(), Some(0));
    assert_eq!(stream.write(&[9]).ok(), Some(1));
    assert_eq!(stream.write(&[1, 2, 3, 4, 5]).ok(), Some(5));
    let long = vec![0xabu8; 10_000];
    assert_eq!(stream.write(&long).ok(), Some(10_000));
}

#[test]
fn write_appends_in_order() {
    let mut stream = MemStream::new();
    stream.write(&[0, 1, 2, 3]).unwrap();
    stream.write(&[4, 5, 6, 7]).unwrap();
    assert_eq!(stream.unwrap(), vec![0, 1, 2, 3, 4, 5, 6, 7]);
}

#[test]
fn write_grows_the_buffer_by_the_length_written() {
    let pieces = [&[1u8, 2, 3][..], &[][..], &[4][..], &[5, 6, 7, 8, 9][..]];
    for upto in 0..=pieces.len() {
        let mut stream = MemStream::new();
        let mut expected = 0usize;
        for piece in &pieces[..upto] {
            assert_eq!(stream.write(piece).ok(), Some(piece.len()));
            expected += piece.len();
        }
        assert_eq!(stream.unwrap().len(), expected);
    }
}

#[test]
fn write_of_nothing_changes_nothing() {
    let mut stream = MemStream::new();
    stream.write(&[1, 2]).unwrap();
    assert_eq!(stream.write(&[]).ok(), Some(0));
    assert_eq!(stream.unwrap(), vec![1, 2]);
}

#[test]
fn write_keeps_what_was_unread() {
    let mut stream = MemStream::new();
    stream.write(&[1, 2, 3]).unwrap();
    let mut buf = [0u8; 1];
    stream.read(&mut buf).unwrap();
    stream.write(&[4]).unwrap();
    assert_eq!(stream.unwrap(), vec![2, 3, 4]);
}

#[test]
fn flush_succeeds_and_changes_nothing() {
    let mut stream = MemStream::new();
    assert!(stream.flush().is_ok());
    stream.write(&[1, 2, 3]).unwrap();
    assert!(stream.flush().is_ok());
    assert!(stream.flush().is_ok());
    assert_eq!(stream.unwrap(), vec![1, 2, 3]);
}

#[test]
fn read_delivers_no_more_than_fits() {
    let mut stream = MemStream::new();
    stream.write(&[10, 11, 12, 13, 14]).unwrap();
    let mut buf = [0u8; 2];
    assert_eq!(stream.read(&mut buf).ok(), Some(2));
    assert_eq!(buf, [10, 11]);
    assert_eq!(stream.unwrap(), vec![12, 13, 14]);
}

#[test]
fn read_delivers_no_more_than_is_there() {
    let mut stream = MemStream::new();
    stream.write(&[10, 11]).unwrap();
    let mut buf = [0u8; 5];
    assert_eq!(stream.read(&mut buf).ok(), Some(2));
    assert_eq!(&buf[..2], &[10, 11]);
    assert!(stream.eof());
}

#[test]
fn read_of_exactly_what_is_there() {
    let mut stream = MemStream::new();
    stream.write(&[1, 2, 3]).unwrap();
    let mut buf = [0u8; 3];
    assert_eq!(stream.read(&mut buf).ok(), Some(3));
    assert_eq!(buf, [1, 2, 3]);
    assert!(stream.eof());
    assert_eq!(stream.unwrap(), Vec::<u8>::new());
}

#[test]
fn read_leaves_the_rest_of_the_destination() {
    let mut stream = MemStream::new();
    stream.write(&[1, 2]).unwrap();
    let mut buf = [0xee_u8; 6];
    assert_eq!(stream.read(&mut buf).ok(), Some(2));
    assert_eq!(buf, [1, 2, 0xee, 0xee, 0xee, 0xee]);
}

#[test]
fn read_changes_its_destination() {
    let mut stream = MemStream::new();
    stream.write(&[1, 2, 3]).unwrap();
    let before = [9u8, 9, 9];
    let mut buf = before;
    stream.read(&mut buf).unwrap();
    assert_ne!(buf, before);
    assert_eq!(buf, [1, 2, 3]);
}

#[test]
fn zero_capacity_read_is_a_no_op() {
    let mut stream = MemStream::new();
    let mut none: [u8; 0] = [];
    assert_eq!(stream.read(&mut none).ok(), Some(0));
    assert!(stream.eof());

    stream.write(&[1, 2, 3]).unwrap();
    assert_eq!(stream.read(&mut none).ok(), Some(0));
    assert_eq!(stream.read(&mut none).ok(), Some(0));
    assert!(!stream.eof());
    assert_eq!(stream.unwrap(), vec![1, 2, 3]);
}

#[test]
fn end_of_data_is_stable() {
    let mut stream = MemStream::new();
    stream.write(&[1, 2, 3]).unwrap();
    let mut buf = [0u8; 3];
    assert_eq!(stream.read(&mut buf).ok(), Some(3));
    for capacity in 1..6 {
        let mut dest = vec![0x55u8; capacity];
        assert_eq!(stream.read(&mut dest).ok(), Some(0));
        assert_eq!(dest, vec![0x55u8; capacity]);
        assert!(stream.eof());
    }
    assert_eq!(stream.unwrap(), Vec::<u8>::new());
}

#[test]
fn end_of_data_ends_when_more_is_written() {
    let mut stream = MemStream::new();
    stream.write(&[1]).unwrap();
    let mut buf = [0u8; 2];
    assert_eq!(stream.read(&mut buf).ok(), Some(1));
    assert_eq!(stream.read(&mut buf).ok(), Some(0));
    assert!(stream.eof());

    stream.write(&[2, 3, 4]).unwrap();
    assert!(!stream.eof());
    assert_eq!(stream.read(&mut buf).ok(), Some(2));
    assert_eq!(buf, [2, 3]);
    assert_eq!(stream.read(&mut buf).ok(), Some(1));
    assert_eq!(buf[0], 4);
    assert_eq!(stream.read(&mut buf).ok(), Some(0));
}

#[test]
fn eof_tells_whether_bytes_are_left() {
    let mut stream = MemStream::new();
    assert!(stream.eof());
    stream.write(&[]).unwrap();
    assert!(stream.eof());
    stream.write(&[1, 2]).unwrap();
    assert!(!stream.eof());
    let mut buf = [0u8; 1];
    stream.read(&mut buf).unwrap();
    assert!(!stream.eof());
    stream.read(&mut buf).unwrap();
    assert!(stream.eof());
}

#[test]
fn unwrap_returns_the_whole_buffer() {
    let mut stream = MemStream::new();
    stream.write(&[0, 1, 2, 3]).unwrap();
    stream.write(&[4, 5, 6, 7]).unwrap();
    assert_eq!(stream.unwrap(), vec![0, 1, 2, 3, 4, 5, 6, 7]);
}

#[test]
fn unwrap_after_reads_returns_what_is_unread() {
    let mut stream = MemStream::new();
    stream.write(&[0, 1, 2, 3, 4, 5, 6, 7]).unwrap();
    let mut buf = [0u8; 3];
    stream.read(&mut buf).unwrap();
    assert_eq!(stream.unwrap(), vec![3, 4, 5, 6, 7]);
}

#[test]
fn serves_as_a_generic_writer_and_reader() {
    let mut stream = MemStream::new();
    stream.write_all(b"hello, ").unwrap();
    stream.write_all(b"world").unwrap();
    stream.flush().unwrap();

    let mut text = String::new();
    assert_eq!(stream.read_to_string(&mut text).ok(), Some(12));
    assert_eq!(text, "hello, world");
    assert!(stream.eof());

    let mut rest = Vec::new();
    assert_eq!(stream.read_to_end(&mut rest).ok(), Some(0));
    assert!(rest.is_empty());
}

#[test]
fn copies_from_one_stream_to_another() {
    let mut source = MemStream::new();
    let data: Vec<u8> = (0..=255u8).cycle().take(20_000).collect();
    source.write_all(&data).unwrap();

    let mut sink = MemStream::new();
    assert_eq!(std::io::copy(&mut source, &mut sink).ok(), Some(20_000));
    assert!(source.eof());
    assert_eq!(sink.unwrap(), data);
}
