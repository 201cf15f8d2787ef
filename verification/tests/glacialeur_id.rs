//! Tests for the identification-string generator and its bit helpers.

use voice_orchestrator::glacialeur::{
    before_hash_id_to_bytes, gen_check_hash, gen_comp_disco_id, generate, nxor16, nxor8, rotl16,
    rotl8, rotr16, rotr8, to_string_36,
};

#[test]
fn rotations_move_bits_around() {
    assert_eq!(rotr16(0xABCD, 8), 0xCDAB);
    assert_eq!(rotl16(0xABCD, 8), 0xCDAB);
    assert_eq!(rotr16(0x0001, 1), 0x8000);
    assert_eq!(rotl16(0x8000, 1), 0x0001);
    assert_eq!(rotr8(0xAB, 4), 0xBA);
    assert_eq!(rotl8(0x01, 1), 0x02);
}

#[test]
fn negated_xor() {
    assert_eq!(nxor16(0xFFFF, 0x0000), 0x0000);
    assert_eq!(nxor16(0x1234, 0x1234), 0xFFFF);
    assert_eq!(nxor8(0xF0, 0x0F), 0x00);
    assert_eq!(nxor8(0xAA, 0xAA), 0xFF);
}

#[test]
fn id_serialises_to_fourteen_bytes() {
    let b = before_hash_id_to_bytes(0x0102030405060708090A0B0C0D0Eu128);
    assert_eq!(b, vec![1, 2, 3, 4, 5, 6, 7, 8, 9, 10, 11, 12, 13, 14]);
    assert_eq!(before_hash_id_to_bytes(0).len(), 14);
}

#[test]
fn base36_renders_uppercase() {
    assert_eq!(to_string_36(0), "");
    assert_eq!(to_string_36(35), "Z");
    assert_eq!(to_string_36(36), "10");
    assert_eq!(to_string_36(1295), "ZZ");
    assert_eq!(to_string_36(123456), "2N9C");
}

#[test]
fn checksum_depends_on_the_digest() {
    // The checksum mixes a real SHA3-256 digest; a pass-through of the
    // serialised bytes would give another value entirely.
    assert_eq!(gen_check_hash(0x1234), 38464);
}

#[test]
fn member_id_compresses_to_one_byte() {
    assert_eq!(gen_comp_disco_id(&123456789012345678), 204);
    assert_eq!(gen_comp_disco_id(&1), 61);
}

#[test]
fn generated_identifiers_are_exact() {
    assert_eq!(
        generate(&123456789012345678, 4, 1714000000),
        "34OBJAN0EUT8L"
    );
    assert_eq!(generate(&1, 1, 0), "XE7ZEGEOJI8V");
}
