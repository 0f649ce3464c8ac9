use pgrust::{BufWriter, FieldAccess, Meta, Rest, RestMeta};

#[test]
fn the_remainder_is_the_whole_buffer() {
    let data = [1u8, 0, 2, 0, 255];
    assert_eq!(FieldAccess::<RestMeta>::size_of_field_at(&data), 5);
    let rest = FieldAccess::<RestMeta>::extract(&data);
    assert_eq!(rest.len(), 5);
    assert_eq!(rest.as_ref(), &data[..]);
    assert_eq!(&*rest, &data[..]);
    assert_eq!(rest[4], 255);
}

#[test]
fn the_remainder_of_nothing_is_empty() {
    assert_eq!(FieldAccess::<RestMeta>::size_of_field_at(&[]), 0);
    let rest = FieldAccess::<RestMeta>::extract(&[]);
    assert!(rest.is_empty());
}

#[test]
fn remainders_of_every_length_are_kept_byte_for_byte() {
    let data: Vec<u8> = (0..=255u8).cycle().take(1000).collect();
    for n in [0usize, 1, 2, 255, 256, 999, 1000] {
        let buf = &data[..n];
        assert_eq!(FieldAccess::<RestMeta>::size_of_field_at(buf), n);
        assert_eq!(FieldAccess::<RestMeta>::measure(buf), n);
        assert_eq!(FieldAccess::<RestMeta>::extract(buf).as_ref(), buf);
    }
}

#[test]
fn remainders_compare_by_their_bytes() {
    let data = [b'a', b'b', b'c'];
    let same = vec![b'a', b'b', b'c'];
    let rest: Rest = FieldAccess::<RestMeta>::extract(&data);
    assert!(rest == FieldAccess::<RestMeta>::extract(&same));
    assert!(rest != FieldAccess::<RestMeta>::extract(&same[..2]));
    assert!(rest == same[..]);
    assert!(rest == &same[..]);
    assert!(rest == b"abc");
    assert!(rest != b"abd");
    assert!(rest != b"ab");
    assert!(rest != same[1..]);
}

#[test]
fn a_remainder_is_written_as_it_is() {
    let mut buf = BufWriter::new(6);
    FieldAccess::<RestMeta>::copy_to_buf(&mut buf, &[1, 2, 3]);
    FieldAccess::<RestMeta>::copy_to_buf(&mut buf, &[]);
    FieldAccess::<RestMeta>::copy_to_buf(&mut buf, &[4, 5, 6]);
    assert_eq!(buf.as_slice(), &[1u8, 2, 3, 4, 5, 6][..]);
    FieldAccess::<RestMeta>::copy_to_buf(&mut buf, &[7]);
    assert!(buf.failed());
    assert_eq!(buf.as_slice(), &[1u8, 2, 3, 4, 5, 6][..]);
}

#[test]
fn the_remainder_is_named_rest() {
    assert_eq!(FieldAccess::<RestMeta>::meta().name(), "Rest");
    assert_eq!(FieldAccess::<pgrust::meta::Rest>::meta().name(), "Rest");
}
