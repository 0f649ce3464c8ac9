use pgrust::{BufWriter, FieldAccess, Meta};

fn written(buf: BufWriter) -> Vec<u8> {
    buf.finish().expect("the writer has not failed")
}

#[test]
fn u8_is_one_byte() {
    let mut buf = BufWriter::new(8);
    FieldAccess::<u8>::copy_to_buf(&mut buf, 0xab);
    assert_eq!(written(buf), vec![0xab]);
    assert_eq!(FieldAccess::<u8>::size_of_field_at(&[]), 1);
    assert_eq!(FieldAccess::<u8>::extract(&[0xab, 0xcd]), 0xab);
}

#[test]
fn i16_is_written_most_significant_byte_first() {
    let mut buf = BufWriter::new(8);
    FieldAccess::<i16>::copy_to_buf(&mut buf, 0x0102);
    assert_eq!(written(buf), vec![0x01, 0x02]);
    assert_eq!(FieldAccess::<i16>::size_of_field_at(&[9, 9, 9]), 2);
    assert_eq!(FieldAccess::<i16>::extract(&[0x01, 0x02, 0x03]), 0x0102);
}

#[test]
fn i32_is_written_most_significant_byte_first() {
    let mut buf = BufWriter::new(16);
    FieldAccess::<i32>::copy_to_buf(&mut buf, 0x0102_0304);
    assert_eq!(written(buf), vec![1, 2, 3, 4]);
    assert_eq!(FieldAccess::<i32>::size_of_field_at(&[]), 4);
    assert_eq!(FieldAccess::<i32>::extract(&[1, 2, 3, 4, 5]), 0x0102_0304);
}

#[test]
fn negative_numbers_are_in_twos_complement() {
    let mut buf = BufWriter::new(16);
    FieldAccess::<i16>::copy_to_buf(&mut buf, -2);
    FieldAccess::<i32>::copy_to_buf(&mut buf, -1);
    FieldAccess::<i32>::copy_to_buf(&mut buf, i32::MIN);
    FieldAccess::<i16>::copy_to_buf(&mut buf, i16::MIN);
    assert_eq!(
        written(buf),
        vec![0xff, 0xfe, 0xff, 0xff, 0xff, 0xff, 0x80, 0, 0, 0, 0x80, 0]
    );
    assert_eq!(FieldAccess::<i16>::extract(&[0xff, 0xfe]), -2);
    assert_eq!(FieldAccess::<i16>::extract(&[0x80, 0x00]), i16::MIN);
    assert_eq!(FieldAccess::<i32>::extract(&[0xff, 0xff, 0xff, 0xff]), -1);
    assert_eq!(FieldAccess::<i32>::extract(&[0x80, 0, 0, 0]), i32::MIN);
    assert_eq!(FieldAccess::<i32>::extract(&[0x7f, 0xff, 0xff, 0xff]), i32::MAX);
}

#[test]
fn every_u8_survives_the_wire() {
    for v in 0..=u8::MAX {
        let mut buf = BufWriter::new(1);
        FieldAccess::<u8>::copy_to_buf(&mut buf, v);
        let bytes = written(buf);
        assert_eq!(bytes.len(), 1);
        assert_eq!(FieldAccess::<u8>::extract(&bytes), v);
    }
}

#[test]
fn every_i16_survives_the_wire() {
    for v in i16::MIN..=i16::MAX {
        let mut buf = BufWriter::new(2);
        FieldAccess::<i16>::copy_to_buf(&mut buf, v);
        let bytes = written(buf);
        assert_eq!(bytes.len(), 2);
        assert_eq!(bytes, v.to_be_bytes().to_vec());
        assert_eq!(FieldAccess::<i16>::extract(&bytes), v);
    }
}

#[test]
fn chosen_i32_survive_the_wire() {
    let values = [
        0,
        1,
        -1,
        2,
        -2,
        255,
        256,
        -256,
        65535,
        65536,
        0x0102_0304,
        -0x0102_0304,
        i32::MAX,
        i32::MIN,
        i32::MAX - 1,
        i32::MIN + 1,
    ];
    for v in values {
        let mut buf = BufWriter::new(4);
        FieldAccess::<i32>::copy_to_buf(&mut buf, v);
        let bytes = written(buf);
        assert_eq!(bytes, v.to_be_bytes().to_vec());
        assert_eq!(FieldAccess::<i32>::extract(&bytes), v);
    }
}

#[test]
fn a_scalar_is_written_whole_or_not_at_all() {
    let mut buf = BufWriter::new(3);
    FieldAccess::<i16>::copy_to_buf(&mut buf, 7);
    FieldAccess::<i32>::copy_to_buf(&mut buf, 8);
    assert!(buf.failed());
    assert_eq!(buf.as_slice(), &[0u8, 7][..]);
    FieldAccess::<u8>::copy_to_buf(&mut buf, 9);
    assert_eq!(buf.as_slice(), &[0u8, 7][..]);
    assert_eq!(buf.finish(), None);
}

#[test]
fn constant_keeps_the_low_order_bytes() {
    assert_eq!(FieldAccess::<u8>::constant(0), 0);
    assert_eq!(FieldAccess::<u8>::constant(255), 255);
    assert_eq!(FieldAccess::<u8>::constant(256), 0);
    assert_eq!(FieldAccess::<u8>::constant(0x1234), 0x34);
    assert_eq!(FieldAccess::<i16>::constant(5), 5);
    assert_eq!(FieldAccess::<i16>::constant(0x7fff), i16::MAX);
    assert_eq!(FieldAccess::<i16>::constant(0x8000), i16::MIN);
    assert_eq!(FieldAccess::<i16>::constant(0xffff), -1);
    assert_eq!(FieldAccess::<i16>::constant(0x1_0005), 5);
    assert_eq!(FieldAccess::<i32>::constant(5), 5);
    assert_eq!(FieldAccess::<i32>::constant(0x7fff_ffff), i32::MAX);
    assert_eq!(FieldAccess::<i32>::constant(0x8000_0000), i32::MIN);
    assert_eq!(FieldAccess::<i32>::constant(0xffff_ffff), -1);
    assert_eq!(FieldAccess::<i32>::constant(usize::MAX), -1);
}

#[test]
fn a_scalar_can_be_overwritten_in_place() {
    let mut buf = BufWriter::new(16);
    FieldAccess::<u8>::copy_to_buf(&mut buf, b'Q');
    FieldAccess::<i32>::copy_to_buf(&mut buf, 0);
    FieldAccess::<i16>::copy_to_buf(&mut buf, 0x0a0b);
    FieldAccess::<i32>::copy_to_buf_rewind(&mut buf, 1, 0x0102_0304);
    assert_eq!(buf.as_slice(), &[b'Q', 1, 2, 3, 4, 0x0a, 0x0b][..]);
    FieldAccess::<i16>::copy_to_buf_rewind(&mut buf, 5, -1);
    FieldAccess::<u8>::copy_to_buf_rewind(&mut buf, 0, b'P');
    assert_eq!(written(buf), vec![b'P', 1, 2, 3, 4, 0xff, 0xff]);
}

#[test]
fn overwriting_does_nothing_once_the_writer_has_failed() {
    let mut buf = BufWriter::new(4);
    FieldAccess::<i32>::copy_to_buf(&mut buf, 1);
    FieldAccess::<u8>::copy_to_buf(&mut buf, 2);
    assert!(buf.failed());
    FieldAccess::<i32>::copy_to_buf_rewind(&mut buf, 0, 0x0505_0505);
    FieldAccess::<i32>::copy_to_buf_rewind(&mut buf, 100, 0x0505_0505);
    assert_eq!(buf.as_slice(), &[0u8, 0, 0, 1][..]);
}

#[test]
fn scalars_are_named_after_their_types() {
    assert_eq!(FieldAccess::<u8>::meta().name(), "u8");
    assert_eq!(FieldAccess::<i16>::meta().name(), "i16");
    assert_eq!(FieldAccess::<i32>::meta().name(), "i32");
}

#[test]
fn fixed_arrays_are_their_elements_back_to_back() {
    let mut buf = BufWriter::new(64);
    FieldAccess::<[i16; 3]>::copy_to_buf(&mut buf, [1, -1, 0x0203]);
    FieldAccess::<[u8; 2]>::copy_to_buf(&mut buf, [7, 8]);
    FieldAccess::<[i32; 1]>::copy_to_buf(&mut buf, [-2]);
    let bytes = written(buf);
    assert_eq!(
        bytes,
        vec![0, 1, 0xff, 0xff, 2, 3, 7, 8, 0xff, 0xff, 0xff, 0xfe]
    );
    assert_eq!(FieldAccess::<[i16; 3]>::size_of_field_at(&bytes), 6);
    assert_eq!(FieldAccess::<[i16; 3]>::extract(&bytes), [1, -1, 0x0203]);
    assert_eq!(FieldAccess::<[u8; 2]>::size_of_field_at(&bytes[6..]), 2);
    assert_eq!(FieldAccess::<[u8; 2]>::extract(&bytes[6..]), [7, 8]);
    assert_eq!(FieldAccess::<[i32; 1]>::size_of_field_at(&bytes[8..]), 4);
    assert_eq!(FieldAccess::<[i32; 1]>::extract(&bytes[8..]), [-2]);
}

#[test]
fn an_empty_fixed_array_takes_no_bytes() {
    let mut buf = BufWriter::new(0);
    FieldAccess::<[i32; 0]>::copy_to_buf(&mut buf, []);
    assert!(!buf.failed());
    assert_eq!(FieldAccess::<[i32; 0]>::size_of_field_at(&[1, 2]), 0);
    assert_eq!(FieldAccess::<[i32; 0]>::extract(&[1, 2]), [0i32; 0]);
    assert_eq!(written(buf), Vec::<u8>::new());
}

#[test]
fn a_fixed_array_is_written_whole_or_not_at_all() {
    let mut buf = BufWriter::new(7);
    FieldAccess::<u8>::copy_to_buf(&mut buf, 1);
    FieldAccess::<[i16; 4]>::copy_to_buf(&mut buf, [1, 2, 3, 4]);
    assert!(buf.failed());
    assert_eq!(buf.as_slice(), &[1u8][..]);

    let mut buf = BufWriter::new(9);
    FieldAccess::<u8>::copy_to_buf(&mut buf, 1);
    FieldAccess::<[i16; 4]>::copy_to_buf(&mut buf, [1, 2, 3, 4]);
    assert_eq!(written(buf), vec![1, 0, 1, 0, 2, 0, 3, 0, 4]);
}

#[test]
fn fixed_arrays_carry_the_name_of_their_element_type() {
    assert_eq!(FieldAccess::<[u8; 4]>::meta().name(), "[u8; S");
    assert_eq!(FieldAccess::<[i16; 2]>::meta().name(), "[i16; S");
    assert_eq!(FieldAccess::<[i32; 9]>::meta().name(), "[i32; S");
}
