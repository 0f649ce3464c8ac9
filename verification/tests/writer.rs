use pgrust::BufWriter;

#[test]
fn a_new_writer_is_empty() {
    let buf = BufWriter::new(10);
    assert_eq!(buf.size(), 0);
    assert_eq!(buf.remaining(), 10);
    assert!(!buf.failed());
    assert_eq!(buf.as_slice(), &[] as &[u8]);
    assert_eq!(buf.finish(), Some(vec![]));
}

#[test]
fn writes_append_in_order() {
    let mut buf = BufWriter::new(10);
    buf.write(&[1, 2, 3]);
    buf.write_u8(4);
    buf.write(&[]);
    buf.write(&[5, 6]);
    assert_eq!(buf.size(), 6);
    assert_eq!(buf.remaining(), 4);
    assert_eq!(buf.as_slice(), &[1u8, 2, 3, 4, 5, 6][..]);
    assert_eq!(buf.finish(), Some(vec![1, 2, 3, 4, 5, 6]));
}

#[test]
fn a_writer_can_be_filled_to_its_capacity() {
    let mut buf = BufWriter::new(4);
    buf.write(&[1, 2, 3]);
    buf.write_u8(4);
    assert!(!buf.failed());
    assert_eq!(buf.remaining(), 0);
    assert!(buf.test(0));
    assert_eq!(buf.finish(), Some(vec![1, 2, 3, 4]));
}

#[test]
fn a_write_past_the_capacity_writes_nothing_and_fails_the_writer() {
    let mut buf = BufWriter::new(4);
    buf.write(&[1, 2, 3]);
    buf.write(&[4, 5]);
    assert!(buf.failed());
    assert_eq!(buf.as_slice(), &[1u8, 2, 3][..]);
    buf.write_u8(6);
    assert_eq!(buf.as_slice(), &[1u8, 2, 3][..]);
    assert_eq!(buf.size(), 3);
    assert_eq!(buf.finish(), None);
}

#[test]
fn a_byte_past_the_capacity_fails_the_writer() {
    let mut buf = BufWriter::new(0);
    buf.write_u8(1);
    assert!(buf.failed());
    assert_eq!(buf.size(), 0);
}

#[test]
fn test_says_whether_bytes_fit_and_fails_the_writer_if_not() {
    let mut buf = BufWriter::new(5);
    buf.write(&[1, 2]);
    assert!(buf.test(3));
    assert!(!buf.failed());
    assert_eq!(buf.size(), 2);
    assert!(!buf.test(4));
    assert!(buf.failed());
    assert_eq!(buf.as_slice(), &[1u8, 2][..]);
    assert!(!buf.test(0));
    assert!(!buf.test(1));
}

#[test]
fn rewinding_overwrites_in_place() {
    let mut buf = BufWriter::new(8);
    buf.write(&[1, 2, 3, 4, 5, 6]);
    buf.write_rewind(2, &[9, 8, 7]);
    assert_eq!(buf.as_slice(), &[1u8, 2, 9, 8, 7, 6][..]);
    buf.write_rewind(0, &[0]);
    buf.write_rewind(5, &[0]);
    buf.write_rewind(6, &[]);
    assert_eq!(buf.size(), 6);
    assert_eq!(buf.remaining(), 2);
    assert_eq!(buf.finish(), Some(vec![0, 2, 9, 8, 7, 0]));
}

#[test]
fn rewinding_a_failed_writer_changes_nothing() {
    let mut buf = BufWriter::new(2);
    buf.write(&[1, 2]);
    buf.write_u8(3);
    buf.write_rewind(0, &[9, 9]);
    buf.write_rewind(40, &[9, 9]);
    assert_eq!(buf.as_slice(), &[1u8, 2][..]);
}
