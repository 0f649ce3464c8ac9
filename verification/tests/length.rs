use pgrust::{BufWriter, FieldAccess, LengthMeta, Meta};

fn wire_of(value: usize) -> Vec<u8> {
    let mut buf = BufWriter::new(4);
    FieldAccess::<LengthMeta>::copy_to_buf(&mut buf, value);
    buf.finish().unwrap()
}

#[test]
fn a_length_takes_four_bytes() {
    assert_eq!(FieldAccess::<LengthMeta>::size_of_field_at(&[]), 4);
    assert_eq!(FieldAccess::<LengthMeta>::size_of_field_at(&[1, 2, 3, 4, 5]), 4);
    assert_eq!(wire_of(0x0102_0304), vec![1, 2, 3, 4]);
}

#[test]
fn zero_one_and_the_largest_length_survive_the_wire() {
    for x in [0usize, 1, 2147483647] {
        let bytes = wire_of(x);
        assert_eq!(bytes.len(), 4);
        assert_eq!(FieldAccess::<LengthMeta>::extract(&bytes), x);
    }
    assert_eq!(wire_of(0), vec![0, 0, 0, 0]);
    assert_eq!(wire_of(1), vec![0, 0, 0, 1]);
    assert_eq!(wire_of(2147483647), vec![0x7f, 0xff, 0xff, 0xff]);
}

#[test]
fn the_wire_survives_a_length() {
    for bytes in [[0u8, 0, 0, 0], [0, 0, 0, 1], [0x7f, 0xff, 0xff, 0xff], [0, 1, 2, 3]] {
        let value = FieldAccess::<LengthMeta>::extract(&bytes);
        assert_eq!(wire_of(value), bytes.to_vec());
    }
}

#[test]
fn a_length_too_large_for_the_wire_keeps_its_low_order_bytes() {
    assert_eq!(wire_of(0x8000_0000), vec![0x80, 0, 0, 0]);
    assert_eq!(wire_of(0xffff_ffff), vec![0xff, 0xff, 0xff, 0xff]);
    assert_eq!(wire_of(usize::MAX), vec![0xff, 0xff, 0xff, 0xff]);
}

#[test]
fn a_negative_wire_value_reads_as_a_cast_does() {
    assert_eq!(
        FieldAccess::<LengthMeta>::extract(&[0xff, 0xff, 0xff, 0xff]),
        -1i32 as usize
    );
    assert_eq!(
        FieldAccess::<LengthMeta>::extract(&[0x80, 0, 0, 0]),
        i32::MIN as usize
    );
    assert_eq!(
        FieldAccess::<LengthMeta>::extract(&[0xff, 0xff, 0xff, 0xfe, 9]),
        usize::MAX - 1
    );
}

#[test]
fn a_length_can_be_filled_in_afterwards() {
    let mut buf = BufWriter::new(16);
    buf.write_u8(b'X');
    FieldAccess::<LengthMeta>::copy_to_buf(&mut buf, 0);
    buf.write(b"payload");
    let total = buf.size();
    FieldAccess::<LengthMeta>::copy_to_buf_rewind(&mut buf, 1, total - 1);
    let bytes = buf.finish().unwrap();
    assert_eq!(bytes, b"X\x00\x00\x00\x0bpayload");
    assert_eq!(FieldAccess::<LengthMeta>::extract(&bytes[1..]), 11);
}

#[test]
fn a_length_is_written_whole_or_not_at_all() {
    let mut buf = BufWriter::new(3);
    FieldAccess::<LengthMeta>::copy_to_buf(&mut buf, 5);
    assert!(buf.failed());
    assert_eq!(buf.size(), 0);
    FieldAccess::<LengthMeta>::copy_to_buf_rewind(&mut buf, 0, 5);
    assert_eq!(buf.size(), 0);
}

#[test]
fn the_length_field_is_named_len() {
    assert_eq!(FieldAccess::<LengthMeta>::meta().name(), "len");
    assert_eq!(FieldAccess::<LengthMeta>::constant(12).name(), "len");
    assert_eq!(FieldAccess::<pgrust::meta::Length>::meta().name(), "len");
}
