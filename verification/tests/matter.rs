use falling_sand::matter::{DecodeError, MatterId, MatterWithColor};
use falling_sand::utils::{u32_rgba_to_u8_rgba, u8_rgba_to_u32_rgba, EMPTY_COLOR};

#[test]
fn encode_packs_colour_and_tag() {
    assert_eq!(MatterWithColor::new(MatterId::Empty).value, 0x0000_0000);
    assert_eq!(MatterWithColor::new(MatterId::Rock).value, 0xa9a9_a901);
    assert_eq!(MatterWithColor::new(MatterId::Sand).value, 0xc2b2_8002);
    assert_eq!(MatterWithColor::new(MatterId::Water).value, 0x0000_ff03);
}

#[test]
fn empty_cell_is_zero_and_default() {
    assert_eq!(MatterId::default(), MatterId::Empty);
    assert_eq!(MatterWithColor::default().value, 0);
    assert_eq!(MatterWithColor::default(), MatterWithColor::new(MatterId::Empty));
    assert_eq!(EMPTY_COLOR, 0);
}

#[test]
fn decode_kind_accepts_the_four_tags() {
    assert_eq!(MatterId::decode_kind(0), Ok(MatterId::Empty));
    assert_eq!(MatterId::decode_kind(1), Ok(MatterId::Rock));
    assert_eq!(MatterId::decode_kind(2), Ok(MatterId::Sand));
    assert_eq!(MatterId::decode_kind(3), Ok(MatterId::Water));
}

#[test]
fn decode_kind_refuses_every_other_byte() {
    for raw in 4u8..=255 {
        assert_eq!(MatterId::decode_kind(raw), Err(DecodeError { raw }));
    }
}

#[test]
fn tag_and_decode_are_inverse() {
    for matter in MatterId::all() {
        assert_eq!(MatterId::decode_kind(matter.tag()), Ok(matter));
    }
    for raw in 0u8..=3 {
        assert_eq!(MatterId::decode_kind(raw).unwrap().tag(), raw);
    }
}

#[test]
fn encode_then_decode_gives_the_matter_back() {
    for matter in MatterId::all() {
        assert_eq!(MatterWithColor::new(matter).matter_id(), Ok(matter));
    }
}

#[test]
fn all_lists_each_matter_once_in_tag_order() {
    assert_eq!(
        MatterId::all(),
        [MatterId::Empty, MatterId::Rock, MatterId::Sand, MatterId::Water]
    );
}

#[test]
fn cell_with_undefined_tag_is_refused() {
    assert_eq!(
        MatterWithColor::from(0xc2b2_8004).matter_id(),
        Err(DecodeError { raw: 4 })
    );
    assert_eq!(
        MatterWithColor::from(0xffff_ffff).matter_id(),
        Err(DecodeError { raw: 0xff })
    );
}

#[test]
fn cell_from_raw_value_keeps_the_value() {
    assert_eq!(MatterWithColor::from(0xc2b2_8002).value, 0xc2b2_8002);
    assert_eq!(MatterWithColor::from(0xc2b2_8002), MatterWithColor::new(MatterId::Sand));
    assert_eq!(MatterWithColor::from(0x1234_5603).matter_id(), Ok(MatterId::Water));
}

#[test]
fn colour_channels_of_each_matter() {
    assert_eq!(MatterId::Empty.color_rgba_u8(), [0x00, 0x00, 0x00, 0x00]);
    assert_eq!(MatterId::Rock.color_rgba_u8(), [0xa9, 0xa9, 0xa9, 0xff]);
    assert_eq!(MatterId::Sand.color_rgba_u8(), [0xc2, 0xb2, 0x80, 0xff]);
    assert_eq!(MatterId::Water.color_rgba_u8(), [0x00, 0x00, 0xff, 0xff]);
}

#[test]
fn unpack_takes_the_high_byte_first() {
    assert_eq!(u32_rgba_to_u8_rgba(0xa9b8_c7d6), [0xa9, 0xb8, 0xc7, 0xd6]);
    assert_eq!(u32_rgba_to_u8_rgba(0), [0, 0, 0, 0]);
    assert_eq!(u32_rgba_to_u8_rgba(0xffff_ffff), [0xff, 0xff, 0xff, 0xff]);
    assert_eq!(u32_rgba_to_u8_rgba(0x0000_0001), [0, 0, 0, 1]);
    assert_eq!(u32_rgba_to_u8_rgba(0x0100_0000), [1, 0, 0, 0]);
}

#[test]
fn pack_puts_the_first_channel_highest() {
    assert_eq!(u8_rgba_to_u32_rgba(0xa9, 0xb8, 0xc7, 0xd6), 0xa9b8_c7d6);
    assert_eq!(u8_rgba_to_u32_rgba(0, 0, 0, 0), 0);
    assert_eq!(u8_rgba_to_u32_rgba(0xff, 0xff, 0xff, 0xff), 0xffff_ffff);
    assert_eq!(u8_rgba_to_u32_rgba(1, 0, 0, 0), 0x0100_0000);
    assert_eq!(u8_rgba_to_u32_rgba(0, 0, 0, 1), 1);
}

#[test]
fn pack_and_unpack_are_inverse() {
    let samples: [u32; 6] = [0, 1, 0xc2b2_80ff, 0x8000_0000, 0x00ff_00ff, 0xffff_ffff];
    for num in samples {
        let [r, g, b, a] = u32_rgba_to_u8_rgba(num);
        assert_eq!(u8_rgba_to_u32_rgba(r, g, b, a), num);
    }
    assert_eq!(u32_rgba_to_u8_rgba(u8_rgba_to_u32_rgba(1, 2, 3, 4)), [1, 2, 3, 4]);
}
