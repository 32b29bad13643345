use loginapp::ident::UserId;

#[test]
fn text_is_hyphenated_lower_case() {
    let id = UserId::from_u128(0xa1a2a3a4b1b2c1c2d1d2d3d4d5d6d7d8);
    assert_eq!(id.to_text(), "a1a2a3a4-b1b2-c1c2-d1d2-d3d4d5d6d7d8");
    assert_eq!(UserId::from_u128(0).to_text(), "00000000-0000-0000-0000-000000000000");
    assert_eq!(UserId::from_u128(1).to_text(), "00000000-0000-0000-0000-000000000001");
    assert_eq!(UserId::from_u128(u128::MAX).to_text(), "ffffffff-ffff-ffff-ffff-ffffffffffff");
    assert_eq!(UserId::from_u128(1 << 127).to_text(), "80000000-0000-0000-0000-000000000000");
}

#[test]
fn identifier_text_reads_back() {
    for value in [0u128, 1, 42, u128::MAX, 0xa1a2a3a4b1b2c1c2d1d2d3d4d5d6d7d8, 1 << 64] {
        let id = UserId::from_u128(value);
        assert_eq!(UserId::parse(&id.to_text()), Some(id));
        assert_eq!(id.as_u128(), value);
    }
}

#[test]
fn parse_takes_the_forms_of_an_identifier() {
    let id = Some(UserId::from_u128(0x550e8400e29b41d4a716446655440000));
    assert_eq!(UserId::parse("550e8400-e29b-41d4-a716-446655440000"), id);
    assert_eq!(UserId::parse("550E8400-E29B-41D4-A716-446655440000"), id);
    assert_eq!(UserId::parse("550e8400e29b41d4a716446655440000"), id);
    assert_eq!(UserId::parse("{550e8400-e29b-41d4-a716-446655440000}"), id);
    assert_eq!(UserId::parse("urn:uuid:550e8400-e29b-41d4-a716-446655440000"), id);
}

#[test]
fn parse_refuses_other_text() {
    for text in [
        "",
        "42",
        "not-a-uuid",
        "550e8400-e29b-41d4-a716-44665544000",
        "550e8400-e29b-41d4-a716-4466554400000",
        "550e8400-e29b-41d4-a716-44665544000g",
        "550e8400e29b-41d4-a716-446655440000-",
        " 550e8400-e29b-41d4-a716-446655440000",
    ] {
        assert_eq!(UserId::parse(text), None, "{}", text);
    }
}

#[test]
fn random_identifiers_differ_and_read_back() {
    let a = UserId::random();
    let b = UserId::random();
    assert_ne!(a, b);
    assert_eq!(UserId::parse(&a.to_text()), Some(a));
    assert_eq!(a.to_text().len(), 36);
}

#[test]
fn random_identifiers_carry_version_and_variant() {
    for _ in 0..32 {
        let text = UserId::random().to_text();
        assert_eq!(text.as_bytes()[14], b'4', "{}", text);
        assert!(matches!(text.as_bytes()[19], b'8' | b'9' | b'a' | b'b'), "{}", text);
    }
}
