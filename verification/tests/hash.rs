use rogue_hunter::hash::fnv1a;

/// The hash must still be the one the game's saves were written against.
#[test]
fn fnv1a_is_unchanged_by_the_shared_crate() {
    assert_eq!(fnv1a(b""), 0xcbf2_9ce4_8422_2325);
    assert_eq!(fnv1a(b"foobar"), 0x8594_4171_f739_67e8);
}

#[test]
fn fnv1a_of_one_byte() {
    assert_eq!(fnv1a(b"a"), 0xaf63_dc4c_8601_ec8c);
}
