use xodus::shared_key::{generate_nonce, generate_shared_key};

const SECRET: [u8; 32] = [11; 32];
const CONTEXT: [u8; 32] = [3; 32];

#[test]
fn a_full_key_is_the_first_block() {
    assert_eq!(
        generate_shared_key(32, &SECRET, "WS-SecureConversation", &CONTEXT),
        [
            0xee, 0x86, 0xcd, 0xe4, 0xfe, 0x86, 0xdf, 0xc2, 0xe8, 0x2a, 0xaf, 0xdc, 0x0f, 0xc9,
            0x8b, 0x8c, 0xbc, 0xa4, 0x0d, 0xc7, 0xc8, 0xc4, 0xfd, 0xf2, 0xdc, 0x88, 0x4d, 0xba,
            0xb7, 0x09, 0xf4, 0x36
        ]
    );
}

#[test]
fn a_short_key_is_padded_with_zeros() {
    let key = generate_shared_key(16, &SECRET, "WS-SecureConversation", &CONTEXT);
    assert_eq!(
        key[..16],
        [
            0x76, 0xc1, 0xce, 0x3e, 0x9a, 0x9f, 0x1a, 0x05, 0x89, 0xdc, 0xc5, 0xe8, 0xec, 0xf6,
            0x36, 0xdb
        ]
    );
    assert_eq!(key[16..], [0; 16]);
}

#[test]
fn a_key_of_no_bytes_is_all_zeros() {
    assert_eq!(generate_shared_key(0, &SECRET, "label", &CONTEXT), [0; 32]);
}

#[test]
fn label_and_context_are_kept_apart() {
    let key = |label: &str, context: &[u8]| generate_shared_key(32, &SECRET, label, context);
    assert_ne!(key("ab", b"c"), key("a", b"bc"));
    assert_ne!(key("a", b"c"), key("b", b"c"));
    assert_ne!(
        generate_shared_key(32, &SECRET, "a", b"c")[..16],
        generate_shared_key(16, &SECRET, "a", b"c")[..16]
    );
}

#[test]
fn nonces_differ() {
    assert_ne!(generate_nonce(), generate_nonce());
    assert_ne!(generate_nonce(), [0; 32]);
}

#[test]
fn a_zero_ends_the_label() {
    assert_eq!(
        generate_shared_key(32, &SECRET, "a\0b", b"c"),
        generate_shared_key(32, &SECRET, "a", b"b\0c")
    );
    assert_eq!(
        generate_shared_key(16, &SECRET, "\u{e9}\0\u{20ac}", &CONTEXT),
        generate_shared_key(
            16,
            &SECRET,
            "\u{e9}",
            &[&[0xe2, 0x82, 0xac, 0x00][..], &CONTEXT[..]].concat()
        )
    );
}
