use vstd::prelude::*;
use crate::cipher::{rotl, rotate_left, word_bytes};
use crate::models::CargoToml;

verus! {

/// The key vector used when the configuration supplies none of length 8.
pub const DEFAULT_KEY_VECTOR: [u32; 8] = [
    0x9c2f6d44,
    0xa68b3179,
    0xf2c1be0a,
    0x7d54c3f1,
    0x3e118d6b,
    0x4f0b92e7,
    0x1dac785c,
    0xe6132fa8,
];

const MAGIC1: u32 = 0x9e3779b9;

const MAGIC2: u32 = 0x85ebca6b;

const MAGIC3: u32 = 0xc2b2ae35;

pub open spec fn default_key_vector() -> Seq<u32> {
    seq![
        0x9c2f6d44u32,
        0xa68b3179u32,
        0xf2c1be0au32,
        0x7d54c3f1u32,
        0x3e118d6bu32,
        0x4f0b92e7u32,
        0x1dac785cu32,
        0xe6132fa8u32,
    ]
}

/// The key vector a configuration selects: its encryption key when that has
/// exactly eight words, the default otherwise.
pub open spec fn configured_key_vector(cfg: Option<CargoToml>) -> Seq<u32> {
    match cfg {
        Some(c) => match c.package.metadata {
            Some(m) => match m.encryption {
                Some(e) => if e.key@.len() == 8 {
                    e.key@
                } else {
                    default_key_vector()
                },
                None => default_key_vector(),
            },
            None => default_key_vector(),
        },
        None => default_key_vector(),
    }
}

/// One mixing step of key derivation on state word `x` with input `y`.
pub open spec fn mix(x: u32, y: u32) -> u32 {
    let x = x ^ y.wrapping_add(0x9e3779b9u32).wrapping_mul(x | 0x85ebca6bu32);
    rotl(x, 13).wrapping_mul(0xc2b2ae35u32)
}

/// The input word for byte `i` of `b`: the byte plus its index, modulo 2^32.
pub open spec fn input_word(b: Seq<u8>, i: int) -> u32 {
    (b[i] as u32).wrapping_add(i as u32)
}

/// The state after mixing every byte of `b` into `v`, byte `i` into word `i % 8`.
pub open spec fn absorb(v: Seq<u32>, b: Seq<u8>) -> Seq<u32>
    decreases b.len(),
{
    if b.len() == 0 {
        v
    } else {
        let s = absorb(v, b.drop_last());
        let i = b.len() - 1;
        s.update(i % 8, mix(s[i % 8], input_word(b, i)))
    }
}

/// The 32 key bytes: word `(i * 5) % 8` of the state, little-endian, as group `i`.
pub open spec fn key_bytes(s: Seq<u32>) -> Seq<u8> {
    Seq::new(32, |j: int| word_bytes(s[((j / 4) * 5) % 8])[j % 4])
}

/// The key derived from key vector `v` and identity bytes `b`.
pub open spec fn derive_key(v: Seq<u32>, b: Seq<u8>) -> Seq<u8> {
    key_bytes(absorb(v, b))
}

/// Chooses the key vector from a parsed configuration, if any.
pub fn key_vector_from_config(cfg: &Option<CargoToml>) -> (r: [u32; 8])
    ensures
        r@ == configured_key_vector(*cfg),
{
    let d = DEFAULT_KEY_VECTOR;
    assert(d@ =~= default_key_vector());
    match cfg {
        Some(c) => match &c.package.metadata {
            Some(m) => match &m.encryption {
                Some(e) => {
                    if e.key.len() == 8 {
                        let r = [
                            e.key[0],
                            e.key[1],
                            e.key[2],
                            e.key[3],
                            e.key[4],
                            e.key[5],
                            e.key[6],
                            e.key[7],
                        ];
                        assert(r@ =~= e.key@);
                        r
                    } else {
                        d
                    }
                },
                None => d,
            },
            None => d,
        },
        None => d,
    }
}

fn r(x: &mut u32, y: u32)
    ensures
        *final(x) == mix(*old(x), y),
{
    *x = *x ^ y.wrapping_add(MAGIC1).wrapping_mul(*x | MAGIC2);
    *x = rotate_left(*x, 13).wrapping_mul(MAGIC3);
}

fn w(h: &mut [u8; 32], x: u32, i: usize)
    requires
        i < 8,
    ensures
        final(h)@ == old(h)@.update(4 * i as int, word_bytes(x)[0]).update(
            4 * i + 1,
            word_bytes(x)[1],
        ).update(4 * i + 2, word_bytes(x)[2]).update(4 * i + 3, word_bytes(x)[3]),
{
    h[4 * i] = x as u8;
    h[4 * i + 1] = (x >> 8u32) as u8;
    h[4 * i + 2] = (x >> 16u32) as u8;
    h[4 * i + 3] = (x >> 24u32) as u8;
}

/// Derives the 32-byte key for identity bytes `b` from key vector `v`.
pub fn hash_serial(v: &[u32; 8], b: &[u8], h: &mut [u8; 32])
    ensures
        final(h)@ == derive_key(v@, b@),
{
    let mut s = *v;
    let mut i: usize = 0;
    while i < b.len()
        invariant
            i <= b@.len(),
            s@ == absorb(v@, b@.subrange(0, i as int)),
        decreases b@.len() - i,
    {
        let ghost prefix = b@.subrange(0, i as int + 1);
        assert(prefix.drop_last() =~= b@.subrange(0, i as int));
        assert(input_word(prefix, i as int) == input_word(b@, i as int));
        let mut x = s[i % 8];
        r(&mut x, (b[i] as u32).wrapping_add(i as u32));
        s[i % 8] = x;
        i += 1;
    }
    assert(b@.subrange(0, b@.len() as int) =~= b@);
    let mut k: usize = 0;
    while k < 8
        invariant
            k <= 8,
            s@ == absorb(v@, b@),
            forall|j: int| 0 <= j < 4 * k ==> h@[j] == key_bytes(s@)[j],
        decreases 8 - k,
    {
        w(h, s[(k * 5) % 8], k);
        assert forall|j: int| 4 * k <= j < 4 * k + 4 implies h@[j] == key_bytes(s@)[j] by {
            assert(j / 4 == k as int);
            assert(j % 4 == j - 4 * k);
        }
        k += 1;
    }
    assert(h@ =~= key_bytes(s@));
}

/// Key derivation has no hidden state: the same key vector and identity
/// bytes give the same key.
pub proof fn lemma_derive_key_deterministic(v1: Seq<u32>, b1: Seq<u8>, v2: Seq<u32>, b2: Seq<u8>)
    requires
        v1 == v2,
        b1 == b2,
    ensures
        derive_key(v1, b1) == derive_key(v2, b2),
        derive_key(v1, b1).len() == 32,
{
}

} // verus!
