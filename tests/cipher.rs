use snappy_agent::cipher::{chacha20_decrypt, chacha20_encrypt};

fn sequential_key() -> [u8; 32] {
    let mut key = [0u8; 32];
    for (i, b) in key.iter_mut().enumerate() {
        *b = i as u8;
    }
    key
}

#[test]
fn block_function_matches_published_vector() {
    let key = sequential_key();
    let mut nonce = [0u8; 32];
    nonce[3] = 0x09;
    nonce[7] = 0x4a;
    let input = [0u8; 16];
    let mut output = [0u8; 16];
    chacha20_encrypt(&key, &nonce, 1, &input, &mut output);
    assert_eq!(
        output,
        [0x10, 0xf1, 0xe7, 0xe4, 0xd1, 0x3b, 0x59, 0x15, 0x50, 0x0f, 0xdd, 0x1f, 0xa3, 0x20, 0x71, 0xc4]
    );
}

#[test]
fn encryption_matches_published_vector() {
    let key = sequential_key();
    let mut nonce = [0u8; 32];
    nonce[7] = 0x4a;
    let input = b"Ladies and Gentlemen of the class of '99: If I could offer you only one tip for the future, sunscreen would be it.";
    let mut output = vec![0u8; input.len()];
    chacha20_encrypt(&key, &nonce, 1, input, &mut output);
    assert_eq!(
        output[..16],
        [0x6e, 0x2e, 0x35, 0x9a, 0x25, 0x68, 0xf9, 0x80, 0x41, 0xba, 0x07, 0x28, 0xdd, 0x0d, 0x69, 0x81]
    );
}

#[test]
fn second_block_uses_next_counter() {
    let key = [0u8; 32];
    let input = [0u8; 70];
    let mut output = [0u8; 70];
    chacha20_encrypt(&key, &key, 0, &input, &mut output);
    assert_eq!(output[60..70], [178, 238, 101, 134, 159, 7, 231, 190, 85, 81]);
}

#[test]
fn decrypt_inverts_encrypt_for_many_lengths() {
    let key = sequential_key();
    for len in [0usize, 1, 15, 63, 64, 65, 128, 200] {
        for counter in [0u32, 1, u32::MAX] {
            let data: Vec<u8> = (0..len).map(|i| (i * 7 + 3) as u8).collect();
            let mut cipher = vec![0u8; len];
            chacha20_encrypt(&key, &key, counter, &data, &mut cipher);
            let mut plain = vec![0u8; len];
            chacha20_decrypt(&key, counter, &cipher, &mut plain);
            assert_eq!(plain, data);
        }
    }
}

#[test]
fn cipher_is_deterministic() {
    let key = sequential_key();
    let data = b"same input twice";
    let mut a = [0u8; 16];
    let mut b = [0u8; 16];
    chacha20_encrypt(&key, &key, 5, data, &mut a);
    chacha20_encrypt(&key, &key, 5, data, &mut b);
    assert_eq!(a, b);
    assert_ne!(&a, data);
}

#[test]
fn empty_input_gives_empty_output() {
    let key = sequential_key();
    let mut out: [u8; 0] = [];
    chacha20_decrypt(&key, 0, &[], &mut out);
    assert_eq!(out.len(), 0);
}
