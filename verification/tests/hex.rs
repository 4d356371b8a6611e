use midtown::hex::{hex_digits, make_token, percent_encode, random_token};

#[test]
fn digits_are_filled_with_zeros() {
    assert_eq!(hex_digits(0xbeef, 8), "0000beef");
    assert_eq!(make_token(1, 2, 0xdeadbeef), "0000000100000002deadbeef");
}

#[test]
fn random_tokens_are_hexadecimal_and_differ() {
    let token = random_token();
    assert_eq!(token.len(), 24);
    assert!(token.chars().all(|c| c.is_ascii_digit() || ('a'..='f').contains(&c)));
    assert_ne!(token, random_token());
}

#[test]
fn encoding_leaves_only_plain_characters() {
    assert_eq!(percent_encode("aZ09-_.~"), "aZ09-_.~");
    assert_eq!(percent_encode("#midtown-web:matrix.local"), "%23midtown-web%3Amatrix.local");
    assert_eq!(percent_encode("é/"), "%C3%A9%2F");
}
