use entity_wire::Entity;

fn handle(slot: u32, generation: u32) -> Entity {
    Entity::from_id_generation(slot, generation).unwrap()
}

#[test]
fn generation_and_id_are_read_back() {
    let e = handle(7, 3);
    assert_eq!(e.generation(), 3);
    assert_eq!(e.id(), 7);
}

#[test]
fn zero_generation_is_no_handle() {
    assert!(Entity::from_id_generation(7, 0).is_none());
}

#[test]
fn packed_form_puts_generation_high() {
    assert_eq!(handle(7, 3).to_bits(), (3u64 << 32) | 7);
    assert_eq!(handle(u32::MAX, u32::MAX).to_bits(), u64::MAX);
    assert_eq!(handle(0, 1).to_bits(), 1u64 << 32);
}

#[test]
fn pack_unpack_round_trip() {
    for &(s, g) in &[(0u32, 1u32), (7, 3), (u32::MAX, 1), (0, u32::MAX), (u32::MAX, u32::MAX), (12345, 678)] {
        let e = handle(s, g);
        assert_eq!(Entity::from_bits(e.to_bits()), Some(e));
    }
}

#[test]
fn unpack_rejects_zero_generation() {
    assert_eq!(Entity::from_bits(0), None);
    assert_eq!(Entity::from_bits(7), None);
    assert_eq!(Entity::from_bits(u32::MAX as u64), None);
    assert_eq!(Entity::from_bits(1u64 << 32), Some(handle(0, 1)));
}

#[test]
fn text_of_seven_three() {
    assert_eq!(handle(7, 3).to_text(), "7v3");
    assert_eq!(handle(0, u32::MAX).to_text(), "0v4294967295");
    assert_eq!(handle(10, 100).to_text(), "10v100");
}

#[test]
fn text_round_trip() {
    for &(s, g) in &[(0u32, 1u32), (7, 3), (u32::MAX, 1), (0, u32::MAX), (u32::MAX, u32::MAX), (90210, 10)] {
        let e = handle(s, g);
        assert_eq!(Entity::parse(&e.to_text()), Some(e));
    }
}

#[test]
fn malformed_text_rejected() {
    assert_eq!(Entity::parse("abc"), None);
    assert_eq!(Entity::parse("7"), None);
    assert_eq!(Entity::parse("7vx"), None);
    assert_eq!(Entity::parse(""), None);
    assert_eq!(Entity::parse("v3"), None);
    assert_eq!(Entity::parse("7v"), None);
    assert_eq!(Entity::parse("7v3v"), None);
    assert_eq!(Entity::parse("7v3 "), None);
    assert_eq!(Entity::parse("-7v3"), None);
    assert_eq!(Entity::parse("+v3"), None);
    assert_eq!(Entity::parse("\u{0667}v3"), None);
    assert_eq!(Entity::parse("7v\u{00e9}"), None);
}

#[test]
fn text_with_zero_generation_rejected() {
    assert_eq!(Entity::parse("7v0"), None);
    assert_eq!(Entity::parse("7v00"), None);
}

#[test]
fn text_out_of_range_rejected() {
    assert_eq!(Entity::parse("4294967296v1"), None);
    assert_eq!(Entity::parse("1v4294967296"), None);
    assert_eq!(Entity::parse("99999999999999999999999v1"), None);
    assert_eq!(Entity::parse("4294967295v4294967295"), Some(handle(u32::MAX, u32::MAX)));
}

#[test]
fn text_accepts_plus_sign_and_leading_zeros() {
    assert_eq!(Entity::parse("+7v+3"), Some(handle(7, 3)));
    assert_eq!(Entity::parse("007v03"), Some(handle(7, 3)));
}
