use account_store::width::{id_from_stored, id_to_stored, nonce_from_stored, nonce_to_stored};

#[test]
fn small_id_is_stored_as_itself() {
    assert_eq!(id_to_stored(0), 0);
    assert_eq!(id_to_stored(1), 1);
    assert_eq!(id_to_stored(9_223_372_036_854_775_807), i64::MAX);
}

#[test]
fn id_with_high_bit_is_stored_as_negative() {
    assert_eq!(id_to_stored(9_223_372_036_854_775_808), i64::MIN);
    assert_eq!(id_to_stored(u64::MAX), -1);
    assert_eq!(id_to_stored(12_033_618_204_333_965_312), -6_413_125_869_375_586_304);
}

#[test]
fn stored_id_is_loaded_by_its_bits() {
    assert_eq!(id_from_stored(0), 0);
    assert_eq!(id_from_stored(-1), u64::MAX);
    assert_eq!(id_from_stored(i64::MIN), 9_223_372_036_854_775_808);
    assert_eq!(id_from_stored(-6_413_125_869_375_586_304), 12_033_618_204_333_965_312);
}

#[test]
fn id_round_trip_on_edge_values() {
    let ids: [u64; 8] = [
        0,
        1,
        0x7fff_ffff_ffff_ffff,
        0x8000_0000_0000_0000,
        0x8000_0000_0000_0001,
        0xa700_0000_0000_0000,
        0xffff_ffff_0000_0000,
        u64::MAX,
    ];
    for id in ids {
        assert_eq!(id_from_stored(id_to_stored(id)), id);
    }
}

#[test]
fn stored_id_round_trip_on_edge_values() {
    let stored: [i64; 5] = [i64::MIN, -1, 0, 1, i64::MAX];
    for value in stored {
        assert_eq!(id_to_stored(id_from_stored(value)), value);
    }
}

#[test]
fn nonce_is_stored_as_the_same_number() {
    assert_eq!(nonce_to_stored(0), 0);
    assert_eq!(nonce_to_stored(17), 17);
    assert_eq!(nonce_to_stored(9_223_372_036_854_775_807), i64::MAX);
}

#[test]
fn nonce_beyond_the_signed_range_keeps_its_bits() {
    assert_eq!(nonce_to_stored(9_223_372_036_854_775_808), i64::MIN);
    assert_eq!(nonce_to_stored(18_446_744_069_414_584_320), -4_294_967_296);
    assert_eq!(nonce_to_stored(u64::MAX), -1);
}

#[test]
fn negative_stored_nonce_is_loaded_by_its_bits() {
    assert_eq!(nonce_from_stored(-1), u64::MAX);
    assert_eq!(nonce_from_stored(-4_294_967_296), 18_446_744_069_414_584_320);
    assert_eq!(nonce_from_stored(i64::MIN), 9_223_372_036_854_775_808);
    assert_eq!(nonce_from_stored(5), 5);
}

#[test]
fn nonce_round_trip() {
    let nonces: [u64; 7] = [
        0,
        1,
        1 << 40,
        9_223_372_036_854_775_807,
        9_223_372_036_854_775_808,
        18_446_744_069_414_584_320,
        u64::MAX,
    ];
    for nonce in nonces {
        assert_eq!(nonce_from_stored(nonce_to_stored(nonce)), nonce);
    }
}
