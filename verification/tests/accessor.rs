use accessor::{
    be_read, be_write, le_read, le_write, read_order_indicator, BufferView, Encode, Field, Getter,
    OrderField, Setter, U16Field, U32Field, U64Field, U8Field,
};

fn sample_buffer() -> Vec<u8> {
    vec![0x12, 0x34, 0x56, 0x78, 0x9a, 0xbc, 0xde, 0xf0]
}

#[test]
fn test() {}

#[test]
fn concrete_scenario_cross_order() {
    let mut buf = sample_buffer();
    let be = BufferView::new(Encode::Be);
    assert_eq!(be.get::<U8Field<0>>(&buf), 0x12);
    assert_eq!(be.get::<U32Field<1>>(&buf), 0x3456789a);
    be.setter(Encode::Le)
        .with::<U8Field<0>>(&mut buf, U8Field(0x12))
        .with::<U32Field<1>>(&mut buf, U32Field(0x12345678));
    assert_eq!(be.get::<U8Field<0>>(&buf), 0x12);
    assert_eq!(be.get::<U32Field<1>>(&buf), 0x78563412);
}

#[test]
fn round_trip_u8_exhaustive_both_orders() {
    let mut buf = vec![0u8; 4];
    for order in [Encode::Le, Encode::Be] {
        let v = BufferView::new(order);
        for value in 0..=255u8 {
            v.with::<U8Field<2>>(&mut buf, U8Field(value));
            assert_eq!(v.get::<U8Field<2>>(&buf), value);
        }
    }
}

#[test]
fn round_trip_u16_boundaries() {
    let mut buf = vec![0u8; 8];
    for order in [Encode::Le, Encode::Be] {
        let v = BufferView::new(order);
        for value in [0u16, 1, 0x1234, 0x8000, 0xfffe, u16::MAX] {
            v.with::<U16Field<3>>(&mut buf, U16Field(value));
            assert_eq!(v.get::<U16Field<3>>(&buf), value);
        }
    }
}

#[test]
fn round_trip_u32_boundaries() {
    let mut buf = vec![0u8; 8];
    for order in [Encode::Le, Encode::Be] {
        let v = BufferView::new(order);
        for value in [0u32, 1, 0x12345678, 0x80000000, 0xfffffffe, u32::MAX] {
            v.with::<U32Field<2>>(&mut buf, U32Field(value));
            assert_eq!(v.get::<U32Field<2>>(&buf), value);
        }
    }
}

#[test]
fn round_trip_u64_boundaries() {
    let mut buf = vec![0u8; 16];
    for order in [Encode::Le, Encode::Be] {
        let v = BufferView::new(order);
        for value in [0u64, 1, 0x0123456789abcdef, 0x8000000000000000, u64::MAX - 1, u64::MAX] {
            v.with::<U64Field<5>>(&mut buf, U64Field(value));
            assert_eq!(v.get::<U64Field<5>>(&buf), value);
        }
    }
}

#[test]
fn round_trip_order_field_both_orders() {
    let mut buf = vec![0u8; 2];
    for order in [Encode::Le, Encode::Be] {
        let v = BufferView::new(order);
        for value in [Encode::Le, Encode::Be] {
            v.with::<OrderField<1>>(&mut buf, OrderField(value));
            assert_eq!(v.get::<OrderField<1>>(&buf), value);
        }
    }
}

#[test]
fn single_byte_field_is_order_independent() {
    let mut buf = vec![0u8; 1];
    let le = BufferView::new(Encode::Le);
    let be = le.getter(Encode::Be);
    for value in 0..=255u8 {
        buf[0] = value;
        assert_eq!(le.get::<U8Field<0>>(&buf), be.get::<U8Field<0>>(&buf));
    }
}

#[test]
fn multi_byte_encodings_differ_by_reversal() {
    let buf = vec![0x12, 0x34, 0x56, 0x78];
    let le = BufferView::new(Encode::Le);
    let be = le.getter(Encode::Be);
    assert_eq!(le.get::<U32Field<0>>(&buf), 0x78563412);
    assert_eq!(be.get::<U32Field<0>>(&buf), 0x12345678);
}

#[test]
fn write_on_one_view_is_visible_on_another() {
    let mut buf = sample_buffer();
    let writer = BufferView::new(Encode::Le);
    let reader = BufferView::new(Encode::Le);
    writer.with::<U16Field<6>>(&mut buf, U16Field(0xbeef));
    assert_eq!(reader.get::<U16Field<6>>(&buf), 0xbeef);
    let reader_be = reader.getter(Encode::Be);
    assert_eq!(reader_be.get::<U16Field<6>>(&buf), 0xefbe);
}

#[test]
fn chained_writes_last_write_wins() {
    let mut buf = sample_buffer();
    let v = BufferView::new(Encode::Be);
    v.with::<U32Field<1>>(&mut buf, U32Field(0xaaaaaaaa))
        .with::<U32Field<1>>(&mut buf, U32Field(0x01020304));
    assert_eq!(v.get::<U32Field<1>>(&buf), 0x01020304);
    assert_eq!(buf[1..5], [0x01, 0x02, 0x03, 0x04]);
}

#[test]
fn writing_a_field_leaves_disjoint_fields_alone() {
    let mut buf = sample_buffer();
    let v = BufferView::new(Encode::Le);
    let before_low = v.get::<U8Field<0>>(&buf);
    let before_high = v.get::<U16Field<6>>(&buf);
    v.with::<U32Field<1>>(&mut buf, U32Field(0xdeadbeef));
    assert_eq!(v.get::<U8Field<0>>(&buf), before_low);
    assert_eq!(v.get::<U16Field<6>>(&buf), before_high);
    assert_eq!(buf[5], 0xbc);
}

#[test]
fn out_populates_several_destinations_in_one_chain() {
    let buf = sample_buffer();
    let v = BufferView::new(Encode::Be);
    let mut first: u8 = 0;
    let mut second: u32 = 0;
    let mut third: u16 = 0;
    v.out::<U8Field<0>>(&buf, &mut first)
        .out::<U32Field<1>>(&buf, &mut second)
        .out::<U16Field<6>>(&buf, &mut third);
    assert_eq!(first, 0x12);
    assert_eq!(second, 0x3456789a);
    assert_eq!(third, 0xdef0);
}

#[test]
fn getter_and_setter_rebind_the_order() {
    let buf = vec![0xab, 0xcd];
    let v = BufferView::new(Encode::Le);
    assert_eq!(v.get::<U16Field<0>>(&buf), 0xcdab);
    assert_eq!(v.getter(Encode::Be).get::<U16Field<0>>(&buf), 0xabcd);
    assert_eq!(v.setter(Encode::Be).order, Encode::Be);
    assert_eq!(v.order, Encode::Le);
}

#[test]
fn order_indicator_recovery() {
    let buf = vec![0x7f, 1, 2, 9];
    assert_eq!(read_order_indicator(&buf, 1), Some(Encode::Le));
    assert_eq!(read_order_indicator(&buf, 2), Some(Encode::Be));
    assert_eq!(read_order_indicator(&buf, 0), None);
    assert_eq!(read_order_indicator(&buf, 3), None);
}

#[test]
fn indicator_drives_later_multi_byte_reads() {
    // The format's identification byte picks the order for every
    // subsequent multi-byte access.
    let buf = vec![2, 0x12, 0x34];
    let order = read_order_indicator(&buf, 0).unwrap();
    let v = BufferView::new(order);
    assert_eq!(v.get::<U16Field<1>>(&buf), 0x1234);
    let buf2 = vec![1, 0x12, 0x34];
    let order2 = read_order_indicator(&buf2, 0).unwrap();
    assert_eq!(BufferView::new(order2).get::<U16Field<1>>(&buf2), 0x3412);
}

#[test]
fn field_codec_entry_points() {
    assert_eq!(U32Field::<0>::range(), 0..4);
    assert_eq!(U16Field::<7>::range(), 7..9);
    assert_eq!(U32Field::<0>::from_le_bytes(&[0x78, 0x56, 0x34, 0x12]), 0x12345678);
    assert_eq!(U32Field::<0>::from_be_bytes(&[0x12, 0x34, 0x56, 0x78]), 0x12345678);
    assert_eq!(U32Field::<0>(0x12345678).to_le_bytes(), vec![0x78, 0x56, 0x34, 0x12]);
    assert_eq!(U32Field::<0>(0x12345678).to_be_bytes(), vec![0x12, 0x34, 0x56, 0x78]);
    assert_eq!(OrderField::<0>(Encode::Le).to_le_bytes(), vec![1]);
    assert_eq!(OrderField::<0>(Encode::Be).to_be_bytes(), vec![2]);
    assert_eq!(OrderField::<0>::from_le_bytes(&[2]), Encode::Be);
    assert_eq!(OrderField::<0>::from_be_bytes(&[0x7f]), Encode::Le);
}

#[test]
fn raw_codec_readers_and_writers() {
    assert_eq!(le_read(&[0x78, 0x56, 0x34, 0x12]), 0x12345678);
    assert_eq!(be_read(&[0x12, 0x34, 0x56, 0x78]), 0x12345678);
    assert_eq!(le_read(&[]), 0);
    assert_eq!(be_read(&[]), 0);
    assert_eq!(le_write(0x12345678, 4), vec![0x78, 0x56, 0x34, 0x12]);
    assert_eq!(be_write(0x12345678, 4), vec![0x12, 0x34, 0x56, 0x78]);
    assert_eq!(le_write(0x0102, 3), vec![0x02, 0x01, 0x00]);
    assert_eq!(be_write(0x0102, 3), vec![0x00, 0x01, 0x02]);
    assert_eq!(le_read(&le_write(u64::MAX, 8)), u64::MAX);
    assert_eq!(be_read(&be_write(u64::MAX, 8)), u64::MAX);
}
