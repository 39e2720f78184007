use vstd::prelude::*;

verus! {

/// Size in bytes of one keystream block.
pub const CHACHA20_BLOCK_SIZE: usize = 64;

/// The 32-bit word `x` rotated left by `n` bits (`0 < n < 32`).
pub open spec fn rotl(x: u32, n: u32) -> u32 {
    (x << n) | (x >> ((32 - n) as u32))
}

/// The little-endian word stored in `b[i..i + 4]`.
pub open spec fn le_word(b: Seq<u8>, i: int) -> u32 {
    (b[i] as u32) | ((b[i + 1] as u32) << 8u32) | ((b[i + 2] as u32) << 16u32) | ((b[i + 3] as u32)
        << 24u32)
}

/// The four little-endian bytes of `w`.
pub open spec fn word_bytes(w: u32) -> Seq<u8> {
    seq![w as u8, (w >> 8u32) as u8, (w >> 16u32) as u8, (w >> 24u32) as u8]
}

/// One quarter-round on the words at indices `a`, `b`, `c`, `d`, as the
/// sequence of updates it performs.
pub open spec fn quarter_round(s: Seq<u32>, a: int, b: int, c: int, d: int) -> Seq<u32> {
    let s = s.update(a, s[a].wrapping_add(s[b]));
    let s = s.update(d, rotl(s[d] ^ s[a], 16));
    let s = s.update(c, s[c].wrapping_add(s[d]));
    let s = s.update(b, rotl(s[b] ^ s[c], 12));
    let s = s.update(a, s[a].wrapping_add(s[b]));
    let s = s.update(d, rotl(s[d] ^ s[a], 8));
    let s = s.update(c, s[c].wrapping_add(s[d]));
    s.update(b, rotl(s[b] ^ s[c], 7))
}

/// A column round followed by a diagonal round.
pub open spec fn double_round(s: Seq<u32>) -> Seq<u32> {
    let s = quarter_round(s, 0, 4, 8, 12);
    let s = quarter_round(s, 1, 5, 9, 13);
    let s = quarter_round(s, 2, 6, 10, 14);
    let s = quarter_round(s, 3, 7, 11, 15);
    let s = quarter_round(s, 0, 5, 10, 15);
    let s = quarter_round(s, 1, 6, 11, 12);
    let s = quarter_round(s, 2, 7, 8, 13);
    quarter_round(s, 3, 4, 9, 14)
}

/// `n` double rounds applied to `s`.
pub open spec fn rounds(s: Seq<u32>, n: nat) -> Seq<u32>
    decreases n,
{
    if n == 0 {
        s
    } else {
        double_round(rounds(s, (n - 1) as nat))
    }
}

/// The mixed state after ten double rounds, added word-wise to the input state.
pub open spec fn block_words(s: Seq<u32>) -> Seq<u32> {
    let m = rounds(s, 10);
    Seq::new(16, |i: int| m[i].wrapping_add(s[i]))
}

/// The 64 keystream bytes of one block: the block words, little-endian.
pub open spec fn block_bytes(s: Seq<u32>) -> Seq<u8> {
    let w = block_words(s);
    Seq::new(64, |j: int| word_bytes(w[j / 4])[j % 4])
}

/// The 16-word state for one block: four constants, the key, the block
/// counter and the first 16 bytes of the nonce.
pub open spec fn initial_state(key: Seq<u8>, nonce: Seq<u8>, counter: u32) -> Seq<u32> {
    seq![
        0x61707865u32,
        0x3320646eu32,
        0x79622d32u32,
        0x6b206574u32,
        le_word(key, 0),
        le_word(key, 4),
        le_word(key, 8),
        le_word(key, 12),
        le_word(key, 16),
        le_word(key, 20),
        le_word(key, 24),
        le_word(key, 28),
        counter,
        le_word(nonce, 0),
        le_word(nonce, 4),
        le_word(nonce, 8),
    ]
}

/// The counter of the `n`-th block of a stream that starts at `counter`.
pub open spec fn block_counter(counter: u32, n: int) -> u32 {
    ((counter as int + n) % 0x1_0000_0000) as u32
}

/// The keystream byte at position `i`.
pub open spec fn keystream_byte(key: Seq<u8>, nonce: Seq<u8>, counter: u32, i: int) -> u8 {
    block_bytes(initial_state(key, nonce, block_counter(counter, i / 64)))[i % 64]
}

/// `data` XORed position-wise with the keystream.
pub open spec fn apply_keystream(key: Seq<u8>, nonce: Seq<u8>, counter: u32, data: Seq<u8>) -> Seq<
    u8,
> {
    Seq::new(data.len(), |i: int| data[i] ^ keystream_byte(key, nonce, counter, i))
}

/// Decryption: the keystream transform with the key also taken as the nonce.
pub open spec fn decrypt_bytes(key: Seq<u8>, counter: u32, data: Seq<u8>) -> Seq<u8> {
    apply_keystream(key, key, counter, data)
}

pub(crate) fn rotate_left(x: u32, n: u32) -> (r: u32)
    requires
        0 < n < 32,
    ensures
        r == rotl(x, n),
{
    (x << n) | (x >> (32 - n))
}

fn load_le_word(b: &[u8; 32], i: usize) -> (r: u32)
    requires
        i + 4 <= 32,
    ensures
        r == le_word(b@, i as int),
{
    (b[i] as u32) | ((b[i + 1] as u32) << 8u32) | ((b[i + 2] as u32) << 16u32) | ((b[i + 3] as u32)
        << 24u32)
}

fn chacha20_quarter_round(state: &mut [u32; 16], a: usize, b: usize, c: usize, d: usize)
    requires
        a < 16,
        b < 16,
        c < 16,
        d < 16,
    ensures
        final(state)@ == quarter_round(old(state)@, a as int, b as int, c as int, d as int),
{
    state[a] = state[a].wrapping_add(state[b]);
    state[d] = rotate_left(state[d] ^ state[a], 16);
    state[c] = state[c].wrapping_add(state[d]);
    state[b] = rotate_left(state[b] ^ state[c], 12);
    state[a] = state[a].wrapping_add(state[b]);
    state[d] = rotate_left(state[d] ^ state[a], 8);
    state[c] = state[c].wrapping_add(state[d]);
    state[b] = rotate_left(state[b] ^ state[c], 7);
}

fn chacha20_block(state: &[u32; 16], output: &mut [u8; CHACHA20_BLOCK_SIZE])
    ensures
        final(output)@ == block_bytes(state@),
{
    let mut working_state = *state;
    let mut k: usize = 0;
    while k < 10
        invariant
            k <= 10,
            working_state@ == rounds(state@, k as nat),
        decreases 10 - k,
    {
        chacha20_quarter_round(&mut working_state, 0, 4, 8, 12);
        chacha20_quarter_round(&mut working_state, 1, 5, 9, 13);
        chacha20_quarter_round(&mut working_state, 2, 6, 10, 14);
        chacha20_quarter_round(&mut working_state, 3, 7, 11, 15);
        chacha20_quarter_round(&mut working_state, 0, 5, 10, 15);
        chacha20_quarter_round(&mut working_state, 1, 6, 11, 12);
        chacha20_quarter_round(&mut working_state, 2, 7, 8, 13);
        chacha20_quarter_round(&mut working_state, 3, 4, 9, 14);
        k += 1;
    }
    let ghost words = block_words(state@);
    let mut i: usize = 0;
    while i < 16
        invariant
            i <= 16,
            working_state@ == rounds(state@, 10),
            words == block_words(state@),
            output@.len() == 64,
            forall|j: int| 0 <= j < 4 * i ==> output@[j] == block_bytes(state@)[j],
        decreases 16 - i,
    {
        let word = working_state[i].wrapping_add(state[i]);
        assert(word == words[i as int]);
        output[4 * i] = word as u8;
        output[4 * i + 1] = (word >> 8u32) as u8;
        output[4 * i + 2] = (word >> 16u32) as u8;
        output[4 * i + 3] = (word >> 24u32) as u8;
        assert forall|j: int| 4 * i <= j < 4 * i + 4 implies output@[j] == block_bytes(state@)[j] by {
            assert(j / 4 == i as int);
            assert(j % 4 == j - 4 * i);
        }
        i += 1;
    }
    assert(output@ =~= block_bytes(state@));
}

proof fn lemma_next_block_counter(counter: u32, n: int)
    requires
        n >= 0,
    ensures
        block_counter(counter, n).wrapping_add(1) == block_counter(counter, n + 1),
{
    let m: int = 0x1_0000_0000;
    let c = counter as int + n;
    vstd::arithmetic::div_mod::lemma_add_mod_noop(c, 1, m);
    vstd::arithmetic::div_mod::lemma_small_mod(1nat, m as nat);
    vstd::arithmetic::div_mod::lemma_mod_bound(c, m);
    vstd::arithmetic::div_mod::lemma_mod_bound(c + 1, m);
    if c % m + 1 == m {
        vstd::arithmetic::div_mod::lemma_mod_self_0(m);
    } else {
        vstd::arithmetic::div_mod::lemma_small_mod((c % m + 1) as nat, m as nat);
    }
}

/// Encrypts `input` into `output`: each byte is XORed with the keystream
/// generated from `key`, `nonce` and the starting block `counter`.
pub fn chacha20_encrypt(
    key: &[u8; 32],
    nonce: &[u8; 32],
    counter: u32,
    input: &[u8],
    output: &mut [u8],
)
    requires
        input@.len() == old(output)@.len(),
    ensures
        final(output)@ == apply_keystream(key@, nonce@, counter, input@),
{
    let mut state: [u32; 16] = [
        0x61707865,
        0x3320646e,
        0x79622d32,
        0x6b206574,
        load_le_word(key, 0),
        load_le_word(key, 4),
        load_le_word(key, 8),
        load_le_word(key, 12),
        load_le_word(key, 16),
        load_le_word(key, 20),
        load_le_word(key, 24),
        load_le_word(key, 28),
        counter,
        load_le_word(nonce, 0),
        load_le_word(nonce, 4),
        load_le_word(nonce, 8),
    ];
    assert(state@ =~= initial_state(key@, nonce@, block_counter(counter, 0))) by {
        vstd::arithmetic::div_mod::lemma_small_mod(counter as nat, 0x1_0000_0000nat);
    }
    let mut keystream = [0u8; CHACHA20_BLOCK_SIZE];
    let mut i: usize = 0;
    while i < input.len()
        invariant
            input@.len() == output@.len(),
            i <= input@.len(),
            i == input@.len() || (i % 64 == 0 && state@ == initial_state(
                key@,
                nonce@,
                block_counter(counter, i as int / 64),
            )),
            forall|j: int|
                0 <= j < i ==> output@[j] == input@[j] ^ keystream_byte(key@, nonce@, counter, j),
        decreases input@.len() - i,
    {
        let ghost start = i as int;
        let ghost blk = i as int / 64;
        chacha20_block(&state, &mut keystream);
        proof {
            lemma_next_block_counter(counter, blk);
        }
        state[12] = state[12].wrapping_add(1);
        assert(state@ =~= initial_state(key@, nonce@, block_counter(counter, blk + 1)));
        let mut k: usize = 0;
        while k < CHACHA20_BLOCK_SIZE && i < input.len()
            invariant
                input@.len() == output@.len(),
                i <= input@.len(),
                k <= 64,
                start % 64 == 0,
                blk == start / 64,
                i == start + k,
                keystream@ == block_bytes(initial_state(key@, nonce@, block_counter(counter, blk))),
                state@ == initial_state(key@, nonce@, block_counter(counter, blk + 1)),
                forall|j: int|
                    0 <= j < i ==> output@[j] == input@[j] ^ keystream_byte(
                        key@,
                        nonce@,
                        counter,
                        j,
                    ),
            decreases 64 - k,
        {
            output[i] = input[i] ^ keystream[k];
            assert(i as int / 64 == blk && i as int % 64 == k);
            i += 1;
            k += 1;
        }
        assert(i == input@.len() || (i % 64 == 0 && i as int / 64 == blk + 1));
    }
    assert(output@ =~= apply_keystream(key@, nonce@, counter, input@));
}

/// Decrypts `ciphertext` into `plaintext`; the key also serves as the nonce.
pub fn chacha20_decrypt(key: &[u8; 32], counter: u32, ciphertext: &[u8], plaintext: &mut [u8])
    requires
        ciphertext@.len() == old(plaintext)@.len(),
    ensures
        final(plaintext)@ == decrypt_bytes(key@, counter, ciphertext@),
{
    chacha20_encrypt(key, key, counter, ciphertext, plaintext);
}

/// Applying the keystream twice with the same key, nonce and counter gives
/// back the input bytes; in particular decryption inverts encryption
/// under the key-as-nonce convention.
pub proof fn lemma_cipher_round_trip(key: Seq<u8>, nonce: Seq<u8>, counter: u32, data: Seq<u8>)
    ensures
        apply_keystream(key, nonce, counter, apply_keystream(key, nonce, counter, data)) == data,
        decrypt_bytes(key, counter, apply_keystream(key, key, counter, data)) == data,
{
    let once = apply_keystream(key, nonce, counter, data);
    let twice = apply_keystream(key, nonce, counter, once);
    assert forall|i: int| 0 <= i < data.len() implies twice[i] == data[i] by {
        let x = data[i];
        let k = keystream_byte(key, nonce, counter, i);
        assert((x ^ k) ^ k == x) by (bit_vector);
    }
    assert(twice =~= data);
    let e = apply_keystream(key, key, counter, data);
    let d = decrypt_bytes(key, counter, e);
    assert forall|i: int| 0 <= i < data.len() implies d[i] == data[i] by {
        let x = data[i];
        let k = keystream_byte(key, key, counter, i);
        assert((x ^ k) ^ k == x) by (bit_vector);
    }
    assert(d =~= data);
}

/// The cipher carries no hidden state: equal keys, nonces, counters and
/// inputs give equal outputs.
pub proof fn lemma_cipher_deterministic(
    key1: Seq<u8>,
    nonce1: Seq<u8>,
    counter1: u32,
    data1: Seq<u8>,
    key2: Seq<u8>,
    nonce2: Seq<u8>,
    counter2: u32,
    data2: Seq<u8>,
)
    requires
        key1 == key2,
        nonce1 == nonce2,
        counter1 == counter2,
        data1 == data2,
    ensures
        apply_keystream(key1, nonce1, counter1, data1) == apply_keystream(
            key2,
            nonce2,
            counter2,
            data2,
        ),
{
}

} // verus!
