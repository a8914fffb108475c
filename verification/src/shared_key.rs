//! Derivation of shared keys, and the nonces that go into it.

use hmac::{Hmac, KeyInit, Mac};
use rsa::rand_core::{OsRng, RngCore};
use sha2::Sha256;
use vstd::prelude::*;
use vstd::utf8::{encode_scalar, encode_utf8};

verus! {

/// The HMAC-SHA256 tag of `message` under `key`, as the `hmac` and `sha2` crates compute it.
pub uninterp spec fn hmac_sha256(key: Seq<u8>, message: Seq<u8>) -> Seq<u8>;

/// `Hmac::<Sha256>::new_from_slice`, which takes a key of any length, then `update` with the
/// whole message and `finalize`: the tag is a function of key and message alone.
#[verifier::external_body]
fn hmac_sha256_tag(key: &[u8], message: &[u8]) -> (tag: [u8; 32])
    ensures
        tag@ == hmac_sha256(key@, message@),
{
    let mut hmac = Hmac::<Sha256>::new_from_slice(key).unwrap();
    hmac.update(message);
    hmac.finalize().into_bytes().into()
}

/// A request to fill `before` with random bytes can leave `after` behind.
pub uninterp spec fn fill_outcome(before: Seq<u8>, after: Seq<u8>) -> bool;

/// `OsRng::try_fill_bytes`: fills the buffer with random bytes of the operating system, or fails
/// and leaves something in it. What the buffer holds then is one of the outcomes that the request
/// can have; nothing more is stated of it.
#[verifier::external_body]
fn fill_random(buffer: &mut [u8; 32])
    ensures
        fill_outcome(old(buffer)@, final(buffer)@),
{
    let _ = OsRng.try_fill_bytes(buffer);
}

/// The four bytes of `v`, the most significant first.
pub open spec fn be_bytes(v: int) -> Seq<u8> {
    seq![
        (v / 0x1000000 % 0x100) as u8,
        (v / 0x10000 % 0x100) as u8,
        (v / 0x100 % 0x100) as u8,
        (v % 0x100) as u8,
    ]
}

fn push_be_bytes(out: &mut Vec<u8>, v: u32)
    ensures
        final(out)@ == old(out)@ + be_bytes(v as int),
{
    out.push((v / 0x1000000 % 0x100) as u8);
    out.push((v / 0x10000 % 0x100) as u8);
    out.push((v / 0x100 % 0x100) as u8);
    out.push((v % 0x100) as u8);
}

fn push_all(out: &mut Vec<u8>, bytes: &[u8])
    ensures
        final(out)@ == old(out)@ + bytes@,
{
    let mut i: usize = 0;
    while i < bytes.len()
        invariant
            i <= bytes@.len(),
            out@ == old(out)@ + bytes@.take(i as int),
        decreases bytes@.len() - i,
    {
        out.push(bytes[i]);
        i += 1;
    }
    assert(bytes@.take(bytes@.len() as int) =~= bytes@);
}

/// What the key derivation of SP 800-108 in counter mode feeds to its pseudorandom function for
/// block `counter`: the counter, the label, a zero byte, the context and the length of the key
/// in bits.
pub open spec fn derivation_input(
    counter: int,
    label: Seq<u8>,
    context: Seq<u8>,
    key_bits: int,
) -> Seq<u8> {
    be_bytes(counter) + label + seq![0u8] + context + be_bytes(key_bits)
}

/// The derived key: the first `key_length` bytes of the first block, and zeros up to 32 bytes.
pub open spec fn derived_key(
    key_length: int,
    in_key: Seq<u8>,
    label: Seq<u8>,
    context: Seq<u8>,
) -> Seq<u8> {
    Seq::new(
        32,
        |i: int|
            if i < key_length {
                hmac_sha256(in_key, derivation_input(1, label, context, 8 * key_length))[i]
            } else {
                0u8
            },
    )
}

/// Derives a key of `key_length` bytes, SP 800-108 in counter mode with HMAC-SHA256: `key_usage`
/// is the label of the derivation and `context` its context. The key stands at the start of the
/// 32 bytes that come back.
pub fn generate_shared_key(
    key_length: usize,
    in_key: &[u8],
    key_usage: &str,
    context: &[u8],
) -> (shared_key: [u8; 32])
    requires
        key_length <= 32,
        encode_utf8(key_usage@).len() + context@.len() + 9 <= isize::MAX,
    ensures
        shared_key@ == derived_key(
            key_length as int,
            in_key@,
            encode_utf8(key_usage@),
            context@,
        ),
{
    let label = key_usage.as_bytes();
    let key_bits: u32 = (key_length * 8) as u32;

    let mut shared_key = [0u8; 32];
    let mut current_key_length: usize = 0;
    let mut current_hash_count: u32 = 1;
    while current_key_length < key_length
        invariant
            key_length <= 32,
            key_bits == 8 * key_length,
            label@ == encode_utf8(key_usage@),
            label@.len() + context@.len() + 9 <= isize::MAX,
            current_key_length == 0 && current_hash_count == 1 || current_key_length == key_length,
            forall|i: int|
                0 <= i < current_key_length ==> shared_key@[i] == hmac_sha256(
                    in_key@,
                    derivation_input(1, label@, context@, 8 * key_length),
                )[i],
            forall|i: int| current_key_length <= i < 32 ==> shared_key@[i] == 0,
        decreases key_length - current_key_length,
    {
        let mut material: Vec<u8> = Vec::with_capacity(label.len() + context.len() + 9);
        push_be_bytes(&mut material, current_hash_count);
        push_all(&mut material, label);
        material.push(0);
        push_all(&mut material, context);
        push_be_bytes(&mut material, key_bits);
        assert(material@ =~= derivation_input(1, label@, context@, 8 * key_length));
        current_hash_count += 1;

        let signature = hmac_sha256_tag(in_key, material.as_slice());
        let left: usize = key_length - current_key_length;
        let amount: usize = if signature.len() < left { signature.len() } else { left };
        let mut i: usize = 0;
        while i < amount
            invariant
                i <= amount == key_length <= 32,
                current_key_length == 0,
                forall|j: int| 0 <= j < i ==> shared_key@[j] == signature@[j],
                forall|j: int| i <= j < 32 ==> shared_key@[j] == 0,
            decreases amount - i,
        {
            shared_key[current_key_length + i] = signature[i];
            i += 1;
        }
        current_key_length += amount;
    }
    assert(shared_key@ =~= derived_key(
        key_length as int,
        in_key@,
        encode_utf8(key_usage@),
        context@,
    ));
    shared_key
}

proof fn lemma_be_bytes(v: int, w: int)
    requires
        0 <= v < 0x1_0000_0000,
        0 <= w < 0x1_0000_0000,
        be_bytes(v) == be_bytes(w),
    ensures
        v == w,
{
    assert(be_bytes(v)[0] == be_bytes(w)[0]);
    assert(be_bytes(v)[1] == be_bytes(w)[1]);
    assert(be_bytes(v)[2] == be_bytes(w)[2]);
    assert(be_bytes(v)[3] == be_bytes(w)[3]);
}

/// The inputs of two derivations are the same only if their counters, labels, contexts and key
/// lengths are: the zero byte keeps a label, which holds none, apart from the context.
pub proof fn derivation_inputs_are_apart(
    counter1: int,
    label1: Seq<u8>,
    context1: Seq<u8>,
    key_bits1: int,
    counter2: int,
    label2: Seq<u8>,
    context2: Seq<u8>,
    key_bits2: int,
)
    requires
        0 <= counter1 < 0x1_0000_0000,
        0 <= counter2 < 0x1_0000_0000,
        0 <= key_bits1 < 0x1_0000_0000,
        0 <= key_bits2 < 0x1_0000_0000,
        !label1.contains(0u8),
        !label2.contains(0u8),
        derivation_input(counter1, label1, context1, key_bits1) == derivation_input(
            counter2,
            label2,
            context2,
            key_bits2,
        ),
    ensures
        counter1 == counter2,
        label1 == label2,
        context1 == context2,
        key_bits1 == key_bits2,
{
    let a = derivation_input(counter1, label1, context1, key_bits1);
    let b = derivation_input(counter2, label2, context2, key_bits2);
    assert(a.take(4) =~= be_bytes(counter1));
    assert(b.take(4) =~= be_bytes(counter2));
    lemma_be_bytes(counter1, counter2);
    let n1 = label1.len() as int;
    let n2 = label2.len() as int;
    assert(a[4 + n1] == 0u8 && b[4 + n2] == 0u8);
    if n1 < n2 {
        assert(b[4 + n1] == label2[n1]);
        assert(label2.contains(label2[n1]));
    }
    if n2 < n1 {
        assert(a[4 + n2] == label1[n2]);
        assert(label1.contains(label1[n2]));
    }
    assert(a.subrange(4, 4 + n1) =~= label1);
    assert(b.subrange(4, 4 + n2) =~= label2);
    let end = a.len() - 4;
    assert(a.subrange(5 + n1, end) =~= context1);
    assert(b.subrange(5 + n2, end) =~= context2);
    assert(a.skip(end) =~= be_bytes(key_bits1));
    assert(b.skip(end) =~= be_bytes(key_bits2));
    lemma_be_bytes(key_bits1, key_bits2);
}

/// A derived key stands at the start of 32 bytes, and zeros stand behind it.
pub proof fn a_derived_key_is_padded_with_zeros(
    key_length: int,
    in_key: Seq<u8>,
    label: Seq<u8>,
    context: Seq<u8>,
    i: int,
)
    requires
        0 <= key_length <= i < 32,
    ensures
        derived_key(key_length, in_key, label, context).len() == 32,
        derived_key(key_length, in_key, label, context)[i] == 0,
{
}

proof fn lemma_encode_utf8_of_sum(a: Seq<char>, b: Seq<char>)
    ensures
        encode_utf8(a + b) == encode_utf8(a) + encode_utf8(b),
    decreases a.len(),
{
    if a.len() == 0 {
        assert(a + b =~= b);
        assert(encode_utf8(a) + encode_utf8(b) =~= encode_utf8(b));
    } else {
        lemma_encode_utf8_of_sum(a.drop_first(), b);
        assert((a + b).drop_first() =~= a.drop_first() + b);
        assert(encode_utf8(a + b) =~= encode_utf8(a) + encode_utf8(b));
    }
}

/// A zero character ends the label: what stands behind it in the label counts as the start of the
/// context.
pub proof fn a_zero_in_the_label_starts_the_context(
    key_length: int,
    in_key: Seq<u8>,
    label: Seq<char>,
    rest: Seq<char>,
    context: Seq<u8>,
)
    ensures
        derived_key(key_length, in_key, encode_utf8(label + seq!['\0'] + rest), context)
            == derived_key(
            key_length,
            in_key,
            encode_utf8(label),
            encode_utf8(rest) + seq![0u8] + context,
        ),
{
    let zero = seq!['\0'];
    lemma_encode_utf8_of_sum(label + zero, rest);
    lemma_encode_utf8_of_sum(label, zero);
    assert(zero.drop_first() =~= Seq::<char>::empty());
    assert(encode_utf8(zero.drop_first()) =~= Seq::<u8>::empty());
    assert(encode_scalar(0) =~= seq![0u8]) by {
        assert(0u32 & 0x7F == 0) by (bit_vector);
    }
    assert(encode_utf8(zero) =~= seq![0u8]);
    assert(derivation_input(
        1,
        encode_utf8(label + zero + rest),
        context,
        8 * key_length,
    ) =~= derivation_input(
        1,
        encode_utf8(label),
        encode_utf8(rest) + seq![0u8] + context,
        8 * key_length,
    ));
}

/// A nonce of 32 random bytes: what the random source leaves in 32 zero bytes.
pub fn generate_nonce() -> (nonce: [u8; 32])
    ensures
        exists|start: Seq<u8>|
            start.len() == 32 && (forall|i: int| 0 <= i < 32 ==> start[i] == 0)
                && #[trigger] fill_outcome(start, nonce@),
{
    let mut nonce = [0u8; 32];
    fill_random(&mut nonce);
    nonce
}

/// The bytes of a derived key are the first ones of a single HMAC-SHA256 tag, under the input key, and
/// zeros stand behind them. What is tagged comes back: a counter of four bytes that is one, the label
/// in UTF-8, a zero, the context, and four bytes with the length of the key in bits, the most
/// significant first.
pub proof fn a_derived_key_is_the_start_of_one_tag(
    key_length: usize,
    in_key: &[u8],
    key_usage: &str,
    context: &[u8],
    shared_key: [u8; 32],
) -> (tagged: Seq<u8>)
    requires
        key_length <= 32,
        call_ensures(generate_shared_key, (key_length, in_key, key_usage, context), shared_key),
    ensures
        ({
            let n = encode_utf8(key_usage@).len() as int;
            let m = context@.len() as int;
            &&& tagged.len() == n + m + 9
            &&& tagged[0] == 0 && tagged[1] == 0 && tagged[2] == 0 && tagged[3] == 1
            &&& tagged.subrange(4, 4 + n) == encode_utf8(key_usage@)
            &&& tagged[4 + n] == 0
            &&& tagged.subrange(5 + n, 5 + n + m) == context@
            &&& 0x1000000 * tagged[5 + n + m] + 0x10000 * tagged[6 + n + m] + 0x100 * tagged[7 + n
                + m] + tagged[8 + n + m] == 8 * key_length
        }),
        forall|i: int|
            0 <= i < key_length ==> #[trigger] shared_key@[i] == hmac_sha256(in_key@, tagged)[i],
        forall|i: int| key_length <= i < 32 ==> #[trigger] shared_key@[i] == 0,
{
    let label = encode_utf8(key_usage@);
    let n = label.len() as int;
    let m = context@.len() as int;
    let tagged = derivation_input(1, label, context@, 8 * key_length as int);
    assert(tagged.subrange(4, 4 + n) =~= label);
    assert(tagged.subrange(5 + n, 5 + n + m) =~= context@);
    let bits = be_bytes(8 * key_length as int);
    assert(tagged[5 + n + m] == bits[0] && tagged[6 + n + m] == bits[1] && tagged[7 + n + m]
        == bits[2] && tagged[8 + n + m] == bits[3]);
    let one = be_bytes(1);
    assert(tagged[0] == one[0] && tagged[1] == one[1] && tagged[2] == one[2] && tagged[3] == one[3]);
    assert forall|i: int| 0 <= i < key_length implies #[trigger] shared_key@[i] == hmac_sha256(
        in_key@,
        tagged,
    )[i] by {
        assert(derived_key(key_length as int, in_key@, label, context@)[i] == hmac_sha256(
            in_key@,
            tagged,
        )[i]);
    }
    tagged
}

} // verus!
