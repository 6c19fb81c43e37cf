use haut_network_guard::codec::{encrypt_password, encrypt_secret_bytes, encrypt_username};

#[test]
fn test_encrypt_username() {
    let result = encrypt_username("231040600203");
    assert!(result.starts_with("{SRUN3}\r\n"));
}

#[test]
fn test_encrypt_password() {
    let result = encrypt_password("test123");
    assert!(!result.is_empty());
}

#[test]
fn username_of_digits_is_shifted_by_four() {
    assert_eq!(encrypt_username("231040600203"), "{SRUN3}\r\n675484:44647");
    assert_eq!(encrypt_username("0123456789"), "{SRUN3}\r\n456789:;<=");
}

#[test]
fn username_of_letters_is_shifted_by_four() {
    assert_eq!(encrypt_username("alice"), "{SRUN3}\r\nepmgi");
}

#[test]
fn empty_username_is_the_prefix_alone() {
    assert_eq!(encrypt_username(""), "{SRUN3}\r\n");
}

#[test]
fn username_round_trips_for_digits() {
    let name = "9876543210";
    let wire = encrypt_username(name);
    let tail: String = wire
        .chars()
        .skip(9)
        .map(|c| char::from_u32(c as u32 - 4).unwrap())
        .collect();
    assert_eq!(wire.chars().take(9).collect::<String>(), "{SRUN3}\r\n");
    assert_eq!(tail, name);
}

#[test]
fn username_shift_counts_code_points_not_bytes() {
    assert_eq!(encrypt_username("\u{fc}~"), "{SRUN3}\r\n\u{100}\u{82}");
}

#[test]
fn username_character_without_a_shifted_form_stays() {
    // 0xD7FF + 4 is a surrogate, 0x10FFFF + 4 is past the last scalar.
    assert_eq!(encrypt_username("\u{d7ff}"), "{SRUN3}\r\n\u{d7ff}");
    assert_eq!(encrypt_username("\u{10ffff}"), "{SRUN3}\r\n\u{10ffff}");
    assert_eq!(encrypt_username("\u{d7fb}"), "{SRUN3}\r\n\u{d7ff}");
    assert_eq!(encrypt_username("\u{10fffb}"), "{SRUN3}\r\n\u{10ffff}");
}

#[test]
fn password_single_byte_vector() {
    assert_eq!(encrypt_password("A"), "7j");
}

#[test]
fn password_differs_from_plain_xor() {
    let plain_xor = String::from(char::from(0x41u8 ^ 0x30u8));
    assert_ne!(encrypt_password("A"), plain_xor);
}

#[test]
fn password_pair_order_swaps_at_odd_positions() {
    assert_eq!(encrypt_password("AB"), "7jjA");
}

#[test]
fn password_exact_encoding() {
    assert_eq!(encrypt_password("test123"), ":ghBAgg9=cc==c");
}

#[test]
fn password_key_starts_over_after_ten_bytes() {
    assert_eq!(encrypt_password("0123456789A"), "6cc>@cc:8cc68cc:@cc>7j");
}

#[test]
fn empty_password_is_empty() {
    assert_eq!(encrypt_password(""), "");
    assert_eq!(encrypt_secret_bytes(&[]), "");
}

#[test]
fn password_encoding_is_twice_as_long() {
    for secret in ["", "a", "ab", "test123", "0123456789A", "p\u{e4}"] {
        assert_eq!(encrypt_password(secret).chars().count(), 2 * secret.len());
    }
    let bytes: Vec<u8> = (0u8..=255).collect();
    assert_eq!(encrypt_secret_bytes(&bytes).chars().count(), 512);
}

#[test]
fn password_is_encoded_by_its_utf8_bytes() {
    assert_eq!(encrypt_password("p\u{e4}"), "6gr@Bl");
    assert_eq!(encrypt_secret_bytes("p\u{e4}".as_bytes()), "6gr@Bl");
}

#[test]
fn password_encoding_is_deterministic() {
    assert_eq!(encrypt_password("test123"), encrypt_password("test123"));
    assert_eq!(encrypt_secret_bytes(&[0, 255, 7]), encrypt_secret_bytes(&[0, 255, 7]));
}

#[test]
fn password_bytes_outside_utf8_are_encoded() {
    // 0xff ^ '0' = 0xcf, 0x80 ^ '9' = 0xb9
    assert_eq!(encrypt_secret_bytes(&[0xff, 0x80]), "Eon?");
}
