//! What holds of the hash that signs callbacks.

use crate::sha1::{
    byte_of, digest, length_bytes, mixed, padded, plus, rotated, schedule, sha1_text, start_words,
    stepped, with_block, with_blocks, word_at, zero_count, Words,
};
use crate::text::hex;
use crate::text_laws::{hex_number, law_hex_reads_back};
use vstd::arithmetic::power::{lemma_pow1, lemma_pow_adds, pow};
use vstd::prelude::*;

verus! {

// ---------------------------------------------------------------------------
// The blocks
// ---------------------------------------------------------------------------

/// The hash of no block is the start words, and each further block is compressed into the hash of
/// the blocks before it: for every `n`, block `n` and no other makes the hash of `n + 1` blocks out
/// of that of `n`.
pub proof fn law_every_block_counts(data: Seq<u8>, n: nat)
    ensures
        with_blocks(data, 0) == start_words(),
        with_blocks(data, n + 1) == with_block(
            with_blocks(data, n),
            data.subrange(64 * n as int, 64 * n as int + 64),
        ),
{
    assert(64 * (n + 1 - 1) == 64 * n);
    assert(64 * (n + 1) == 64 * n + 64);
}

/// The text in blocks of sixty-four bytes.
pub open spec fn in_blocks(data: Seq<u8>) -> Seq<Seq<u8>> {
    Seq::new(data.len() / 64, |i: int| data.subrange(64 * i, 64 * i + 64))
}

proof fn lemma_fold(data: Seq<u8>, n: nat)
    requires
        n <= data.len() / 64,
    ensures
        with_blocks(data, n) == in_blocks(data).take(n as int).fold_left(
            start_words(),
            |h: Words, block: Seq<u8>| with_block(h, block),
        ),
    decreases n,
{
    let f = |h: Words, block: Seq<u8>| with_block(h, block);
    let blocks = in_blocks(data).take(n as int);
    if n > 0 {
        let prior = (n - 1) as nat;
        lemma_fold(data, prior);
        law_every_block_counts(data, prior);
        assert(blocks.drop_last() =~= in_blocks(data).take(prior as int));
        assert(blocks.last() == data.subrange(64 * prior as int, 64 * prior as int + 64));
    }
}

/// The hash of a message is the fold of the compression over all blocks of the padded message,
/// each taken once and in order, from the start words.
pub proof fn law_digest_folds_all_blocks(data: Seq<u8>)
    ensures
        digest(data) == in_blocks(padded(data)).fold_left(
            start_words(),
            |h: Words, block: Seq<u8>| with_block(h, block),
        ),
{
    let p = padded(data);
    lemma_fold(p, p.len() / 64);
    assert(in_blocks(p).take((p.len() / 64) as int) =~= in_blocks(p));
}

/// The hash of the first `n` blocks depends on no byte behind them.
pub proof fn law_blocks_behind_do_not_matter(data: Seq<u8>, more: Seq<u8>, n: nat)
    requires
        64 * n <= data.len(),
    ensures
        with_blocks(data + more, n) == with_blocks(data, n),
    decreases n,
{
    if n > 0 {
        law_blocks_behind_do_not_matter(data, more, (n - 1) as nat);
        assert((data + more).subrange(64 * (n - 1), 64 * n as int) =~= data.subrange(
            64 * (n - 1),
            64 * n as int,
        ));
    }
}

/// The number that bytes write, the greatest first.
pub open spec fn byte_number(bytes: Seq<u8>) -> nat
    decreases bytes.len(),
{
    if bytes.len() == 0 {
        0
    } else {
        byte_number(bytes.drop_last()) * 256 + bytes.last() as nat
    }
}

/// The padded message is the message, one set bit, as few zeros as fill whole blocks, and the
/// length of the message in bits as a number of eight bytes.
pub proof fn law_padding(data: Seq<u8>)
    requires
        data.len() * 8 < 0x1_0000_0000_0000_0000,
    ensures
        ({
            let p = padded(data);
            let n = data.len() as int;
            &&& p.len() % 64 == 0
            &&& n + 9 <= p.len() < n + 9 + 64
            &&& p.take(n) == data
            &&& p[n] == 0x80
            &&& forall|i: int| n < i < p.len() - 8 ==> (#[trigger] p[i]) == 0
            &&& byte_number(p.skip(p.len() - 8)) == 8 * n
        }),
{
    let p = padded(data);
    let n = data.len() as int;
    let bits = (data.len() * 8) as nat;
    let zeros: Seq<u8> = Seq::new(zero_count(data.len()), |i: int| 0u8);
    let tail = length_bytes(bits);
    assert(bits % 0x1_0000_0000_0000_0000 == bits);
    assert(p == data.push(0x80) + zeros + tail);
    lemma_zero_count(data.len());
    lemma_padded_parts(data, zeros, tail);
    lemma_length_bytes(bits);
}

proof fn lemma_zero_count(n: nat)
    ensures
        zero_count(n) < 64,
        (n + 9 + zero_count(n)) % 64 == 0,
{
    let q = n / 64;
    let r = n % 64;
    assert(n == 64 * q + r);
    if r <= 55 {
        assert(zero_count(n) == 55 - r);
        assert(n + 9 + zero_count(n) == 64 * (q + 1));
    } else {
        assert(zero_count(n) == 119 - r);
        assert(n + 9 + zero_count(n) == 64 * (q + 2));
    }
}

proof fn lemma_padded_parts(data: Seq<u8>, zeros: Seq<u8>, tail: Seq<u8>)
    requires
        tail.len() == 8,
        forall|i: int| 0 <= i < zeros.len() ==> (#[trigger] zeros[i]) == 0,
    ensures
        ({
            let p = data.push(0x80) + zeros + tail;
            let n = data.len() as int;
            &&& p.len() == n + 9 + zeros.len()
            &&& p.take(n) == data
            &&& p[n] == 0x80
            &&& forall|i: int| n < i < p.len() - 8 ==> (#[trigger] p[i]) == 0
            &&& p.skip(p.len() - 8) == tail
        }),
{
    let p = data.push(0x80) + zeros + tail;
    let n = data.len() as int;
    assert(p.take(n) =~= data);
    assert(p.skip(p.len() - 8) =~= tail);
    assert forall|i: int| n < i < p.len() - 8 implies (#[trigger] p[i]) == 0 by {
        assert(p[i] == zeros[i - n - 1]);
    }
}

proof fn lemma_length_bytes(bits: nat)
    requires
        bits < 0x1_0000_0000_0000_0000,
    ensures
        byte_number(length_bytes(bits)) == bits,
{
    let b = length_bytes(bits);
    assert(b.take(0) =~= Seq::empty());
    assert(bits / 0x1_0000_0000_0000_0000 == 0);
    lemma_length_byte(bits, 0, 0x100_0000_0000_0000);
    lemma_length_byte(bits, 1, 0x1_0000_0000_0000);
    lemma_length_byte(bits, 2, 0x100_0000_0000);
    lemma_length_byte(bits, 3, 0x1_0000_0000);
    lemma_length_byte(bits, 4, 0x100_0000);
    lemma_length_byte(bits, 5, 0x1_0000);
    lemma_length_byte(bits, 6, 0x100);
    lemma_length_byte(bits, 7, 1);
    assert(b.take(8) =~= b);
    assert(bits / 1 == bits);
}

proof fn lemma_length_byte(bits: nat, k: int, weight: nat)
    requires
        0 <= k < 8,
        weight > 0,
        length_bytes(bits)[k] == byte_of(bits, weight),
        byte_number(length_bytes(bits).take(k)) == bits / (weight * 256),
    ensures
        byte_number(length_bytes(bits).take(k + 1)) == bits / weight,
{
    lemma_number_step(length_bytes(bits), k);
    vstd::arithmetic::div_mod::lemma_div_denominator(bits as int, weight as int, 256);
    let q = bits / weight;
    assert(q == (q / 256) * 256 + q % 256);
}

proof fn lemma_number_step(b: Seq<u8>, k: int)
    requires
        0 <= k < b.len(),
    ensures
        byte_number(b.take(k + 1)) == byte_number(b.take(k)) * 256 + b[k] as nat,
{
    assert(b.take(k + 1).drop_last() =~= b.take(k));
}

// ---------------------------------------------------------------------------
// The compression
// ---------------------------------------------------------------------------

proof fn lemma_schedule(block: Seq<u8>, n: nat, i: int)
    requires
        0 <= i < n,
    ensures
        schedule(block, n).len() == n,
        schedule(block, n)[i] == schedule(block, (i + 1) as nat)[i],
    decreases n,
{
    reveal_with_fuel(schedule, 2);
    if n > 1 {
        lemma_schedule(block, (n - 1) as nat, if i < n - 1 {
            i
        } else {
            0
        });
    }
}

/// Sixteen words of a block stand at the start of its eighty, four bytes each; every further word
/// is the exclusive or of four before it, rotated by one bit.
pub proof fn law_schedule(block: Seq<u8>, i: int)
    requires
        block.len() == 64,
        0 <= i < 80,
    ensures
        ({
            let w = schedule(block, 80);
            &&& w.len() == 80
            &&& i < 16 ==> w[i] as nat == byte_number(block.subrange(4 * i, 4 * i + 4))
            &&& i >= 16 ==> w[i] == rotated(w[i - 16] ^ w[i - 14] ^ w[i - 8] ^ w[i - 3], 1)
        }),
{
    lemma_schedule(block, 80, i);
    if i < 16 {
        reveal_with_fuel(byte_number, 5);
        let b = block.subrange(4 * i, 4 * i + 4);
        let w = schedule(block, 80);
        assert(w[i] == schedule(block, (i + 1) as nat)[i]);
        if i > 0 {
            lemma_schedule(block, i as nat, 0);
        }
        assert(schedule(block, i as nat).len() == i);
        assert(w[i] == word_at(block, i));
        assert(b[0] == block[4 * i] && b[1] == block[4 * i + 1]);
        assert(b[2] == block[4 * i + 2] && b[3] == block[4 * i + 3]);
        assert(b.drop_last().drop_last().drop_last().drop_last() =~= Seq::empty());
        assert(b.drop_last().last() == b[2]);
        assert(b.drop_last().drop_last().last() == b[1]);
        assert(b.drop_last().drop_last().drop_last().last() == b[0]);
    } else {
        lemma_schedule(block, 80, i - 3);
        lemma_schedule(block, 80, i - 8);
        lemma_schedule(block, 80, i - 14);
        lemma_schedule(block, 80, i - 16);
        lemma_schedule(block, i as nat, i - 3);
        lemma_schedule(block, i as nat, i - 8);
        lemma_schedule(block, i as nat, i - 14);
        lemma_schedule(block, i as nat, i - 16);
        let w = schedule(block, 80);
        assert(w[i] == schedule(block, (i + 1) as nat)[i]);
        assert(schedule(block, i as nat).len() == i);
        let a = w[i - 16];
        let b = w[i - 14];
        let c = w[i - 8];
        let d = w[i - 3];
        assert(a ^ b ^ c ^ d == d ^ c ^ b ^ a) by (bit_vector);
    }
}

/// A rotation loses no bit: rotating on by what is missing to thirty-two gives the word back.
pub proof fn law_rotation(x: u32, n: u32)
    requires
        0 < n < 32,
    ensures
        rotated(rotated(x, n), (32 - n) as u32) == x,
{
    let m = (32 - n) as u32;
    assert((((x << n) | (x >> m)) << m) | (((x << n) | (x >> m)) >> n) == x) by (bit_vector)
        requires
            0 < n < 32,
            m == 32 - n,
    ;
}

/// Which of three words decides a bit: in the first twenty steps the first chooses between the
/// others, in the third twenty the majority decides, and in the rest all three are added bit by
/// bit. The constants are the roots of 2, 3, 5 and 10, thirty bits of fraction each.
pub proof fn law_mixing(step: int, b: u32, c: u32, d: u32)
    requires
        0 <= step < 80,
    ensures
        ({
            let f = mixed(step, b, c, d).0;
            let k = mixed(step, b, c, d).1 as int;
            let root: int = if step < 20 {
                2
            } else if step < 40 {
                3
            } else if step < 60 {
                5
            } else {
                10
            };
            &&& step < 20 ==> (f & b) == (c & b) && (f & !b) == (d & !b)
            &&& 20 <= step < 40 || 60 <= step ==> f ^ b ^ c == d
            &&& 40 <= step < 60 ==> (b == c ==> f == b) && (b == d ==> f == b) && (c == d ==> f == c)
            &&& k * k < root * 0x1000_0000_0000_0000 < (k + 1) * (k + 1)
        }),
{
    let k = mixed(step, b, c, d).1 as int;
    assert(k == 0x5A827999 ==> k * k < 2 * 0x1000_0000_0000_0000 < (k + 1) * (k + 1))
        by (nonlinear_arith);
    assert(k == 0x6ED9EBA1 ==> k * k < 3 * 0x1000_0000_0000_0000 < (k + 1) * (k + 1))
        by (nonlinear_arith);
    assert(k == 0x8F1BBCDC ==> k * k < 5 * 0x1000_0000_0000_0000 < (k + 1) * (k + 1))
        by (nonlinear_arith);
    assert(k == 0xCA62C1D6 ==> k * k < 10 * 0x1000_0000_0000_0000 < (k + 1) * (k + 1))
        by (nonlinear_arith);
    if step < 20 {
        assert((((b & c) | ((!b) & d)) & b) == (c & b)) by (bit_vector);
        assert((((b & c) | ((!b) & d)) & !b) == (d & !b)) by (bit_vector);
    } else if step < 40 || step >= 60 {
        assert((b ^ c ^ d) ^ b ^ c == d) by (bit_vector);
    } else {
        assert(b == c ==> ((b & c) | (b & d) | (c & d)) == b) by (bit_vector);
        assert(b == d ==> ((b & c) | (b & d) | (c & d)) == b) by (bit_vector);
        assert(c == d ==> ((b & c) | (b & d) | (c & d)) == c) by (bit_vector);
    }
}

/// One step moves the words on by one place, rotates the second by thirty bits on its way, and
/// sums into the first, modulo 2^32, what the step mixes.
pub proof fn law_step(start: Words, w: Seq<u32>, n: nat)
    ensures
        stepped(start, w, 0) == start,
        ({
            let s = stepped(start, w, n);
            let t = stepped(start, w, n + 1);
            let (f, k) = mixed(n as int, s.b, s.c, s.d);
            &&& t.b == s.a && t.c == rotated(s.b, 30) && t.d == s.c && t.e == s.d
            &&& t.a as int == (rotated(s.a, 5) as int + f as int + s.e as int + k as int
                + w[n as int] as int) % 0x1_0000_0000
        }),
{
    let s = stepped(start, w, n);
    let (f, k) = mixed(n as int, s.b, s.c, s.d);
    lemma_five_summed(rotated(s.a, 5), f, s.e, k, w[n as int]);
}

proof fn lemma_five_summed(x: u32, f: u32, e: u32, k: u32, w: u32)
    ensures
        plus(plus(plus(plus(x, f), e), k), w) as int == (x as int + f as int + e as int + k as int
            + w as int) % 0x1_0000_0000,
{
    lemma_summed(x as int + f as int, e as int);
    lemma_summed(x as int + f as int + e as int, k as int);
    lemma_summed(x as int + f as int + e as int + k as int, w as int);
}

proof fn lemma_summed(a: int, b: int)
    ensures
        (a % 0x1_0000_0000 + b) % 0x1_0000_0000 == (a + b) % 0x1_0000_0000,
{
    vstd::arithmetic::div_mod::lemma_add_mod_noop_right(b, a, 0x1_0000_0000);
}

/// Compressing a block adds to each word of the hash what eighty steps from the hash make of it.
pub proof fn law_compression(h: Words, block: Seq<u8>)
    ensures
        ({
            let s = stepped(h, schedule(block, 80), 80);
            let r = with_block(h, block);
            &&& r.a as int == (h.a as int + s.a as int) % 0x1_0000_0000
            &&& r.b as int == (h.b as int + s.b as int) % 0x1_0000_0000
            &&& r.c as int == (h.c as int + s.c as int) % 0x1_0000_0000
            &&& r.d as int == (h.d as int + s.d as int) % 0x1_0000_0000
            &&& r.e as int == (h.e as int + s.e as int) % 0x1_0000_0000
        }),
{
}

/// The text of a hash is forty digits that write its five words, the first word first.
pub proof fn law_digest_text(data: Seq<u8>)
    ensures
        sha1_text(data).len() == 40,
        hex_number(sha1_text(data).subrange(0, 8)) == digest(data).a,
        hex_number(sha1_text(data).subrange(8, 16)) == digest(data).b,
        hex_number(sha1_text(data).subrange(16, 24)) == digest(data).c,
        hex_number(sha1_text(data).subrange(24, 32)) == digest(data).d,
        hex_number(sha1_text(data).subrange(32, 40)) == digest(data).e,
{
    let h = digest(data);
    let s = sha1_text(data);
    lemma_word_text(h.a);
    lemma_word_text(h.b);
    lemma_word_text(h.c);
    lemma_word_text(h.d);
    lemma_word_text(h.e);
    lemma_five(
        hex(h.a as nat, 8),
        hex(h.b as nat, 8),
        hex(h.c as nat, 8),
        hex(h.d as nat, 8),
        hex(h.e as nat, 8),
    );
}

proof fn lemma_five(a: Seq<char>, b: Seq<char>, c: Seq<char>, d: Seq<char>, e: Seq<char>)
    requires
        a.len() == 8,
        b.len() == 8,
        c.len() == 8,
        d.len() == 8,
        e.len() == 8,
    ensures
        (a + b + c + d + e).len() == 40,
        (a + b + c + d + e).subrange(0, 8) == a,
        (a + b + c + d + e).subrange(8, 16) == b,
        (a + b + c + d + e).subrange(16, 24) == c,
        (a + b + c + d + e).subrange(24, 32) == d,
        (a + b + c + d + e).subrange(32, 40) == e,
{
    let s = a + b + c + d + e;
    assert(s.subrange(0, 8) =~= a);
    assert(s.subrange(8, 16) =~= b);
    assert(s.subrange(16, 24) =~= c);
    assert(s.subrange(24, 32) =~= d);
    assert(s.subrange(32, 40) =~= e);
}

proof fn lemma_word_text(x: u32)
    ensures
        hex(x as nat, 8).len() == 8,
        hex_number(hex(x as nat, 8)) == x,
{
    lemma_pow1(16);
    assert(pow(16, 1) == 16);
    lemma_pow_adds(16, 1, 1);
    assert(pow(16, 2) == 16 * 16);
    lemma_pow_adds(16, 2, 2);
    assert(pow(16, 4) == 256 * 256);
    lemma_pow_adds(16, 4, 4);
    assert(pow(16, 8) == 0x1_0000 * 0x1_0000);
    law_hex_reads_back(x as nat, 8);
}

} // verus!
