//! The hash function SHA-1, by which callbacks are signed.

use crate::text::{hex, push_hex};
use vstd::prelude::*;

verus! {

// ---------------------------------------------------------------------------
// The function
// ---------------------------------------------------------------------------

/// The five words that the hash consists of.
pub struct Words {
    pub a: u32,
    pub b: u32,
    pub c: u32,
    pub d: u32,
    pub e: u32,
}

pub open spec fn plus(x: u32, y: u32) -> u32 {
    ((x + y) % 0x1_0000_0000) as u32
}

pub open spec fn rotated(x: u32, n: u32) -> u32 {
    (x << n) | (x >> ((32 - n) as u32))
}

pub open spec fn start_words() -> Words {
    Words { a: 0x67452301, b: 0xEFCDAB89, c: 0x98BADCFE, d: 0x10325476, e: 0xC3D2E1F0 }
}

/// A byte of a 64-bit number, counted from the least.
pub open spec fn byte_of(n: nat, weight: nat) -> u8 {
    ((n / weight) % 256) as u8
}

/// A length in bits as eight bytes, the greatest first.
pub open spec fn length_bytes(bits: nat) -> Seq<u8> {
    seq![
        byte_of(bits, 0x100_0000_0000_0000),
        byte_of(bits, 0x1_0000_0000_0000),
        byte_of(bits, 0x100_0000_0000),
        byte_of(bits, 0x1_0000_0000),
        byte_of(bits, 0x100_0000),
        byte_of(bits, 0x1_0000),
        byte_of(bits, 0x100),
        byte_of(bits, 1),
    ]
}

/// As many zero bytes as it takes to leave eight bytes of the last block.
pub open spec fn zero_count(len: nat) -> nat {
    ((119 - (len % 64)) % 64) as nat
}

/// The message with its padding: a set bit, zeros, and the length in bits modulo 2^64.
pub open spec fn padded(data: Seq<u8>) -> Seq<u8> {
    data.push(0x80) + Seq::new(zero_count(data.len()), |i: int| 0u8) + length_bytes(
        (data.len() * 8) % 0x1_0000_0000_0000_0000,
    )
}

/// Four bytes as a word, the greatest first.
pub open spec fn word_at(block: Seq<u8>, i: int) -> u32 {
    (block[4 * i] * 0x100_0000 + block[4 * i + 1] * 0x1_0000 + block[4 * i + 2] * 0x100 + block[4
        * i + 3]) as u32
}

/// The first `n` of the eighty words that a block is spread over.
pub open spec fn schedule(block: Seq<u8>, n: nat) -> Seq<u32>
    decreases n,
{
    if n == 0 {
        Seq::empty()
    } else {
        let w = schedule(block, (n - 1) as nat);
        let i = n - 1;
        w.push(
            if i < 16 {
                word_at(block, i)
            } else {
                rotated(w[i - 3] ^ w[i - 8] ^ w[i - 14] ^ w[i - 16], 1)
            },
        )
    }
}

/// The function and the constant of a step.
pub open spec fn mixed(step: int, b: u32, c: u32, d: u32) -> (u32, u32) {
    if step < 20 {
        ((b & c) | ((!b) & d), 0x5A827999)
    } else if step < 40 {
        (b ^ c ^ d, 0x6ED9EBA1)
    } else if step < 60 {
        ((b & c) | (b & d) | (c & d), 0x8F1BBCDC)
    } else {
        (b ^ c ^ d, 0xCA62C1D6)
    }
}

/// The words after the first `n` of the eighty steps.
pub open spec fn stepped(start: Words, w: Seq<u32>, n: nat) -> Words
    decreases n,
{
    if n == 0 {
        start
    } else {
        let s = stepped(start, w, (n - 1) as nat);
        let (f, k) = mixed(n - 1, s.b, s.c, s.d);
        Words {
            a: plus(plus(plus(plus(rotated(s.a, 5), f), s.e), k), w[n - 1]),
            b: s.a,
            c: rotated(s.b, 30),
            d: s.c,
            e: s.d,
        }
    }
}

/// The hash after one more block.
pub open spec fn with_block(h: Words, block: Seq<u8>) -> Words {
    let s = stepped(h, schedule(block, 80), 80);
    Words {
        a: plus(h.a, s.a),
        b: plus(h.b, s.b),
        c: plus(h.c, s.c),
        d: plus(h.d, s.d),
        e: plus(h.e, s.e),
    }
}

/// The hash after the first `n` blocks.
pub open spec fn with_blocks(data: Seq<u8>, n: nat) -> Words
    decreases n,
{
    if n == 0 {
        start_words()
    } else {
        with_block(
            with_blocks(data, (n - 1) as nat),
            data.subrange(64 * (n - 1), 64 * n as int),
        )
    }
}

pub open spec fn digest(data: Seq<u8>) -> Words {
    with_blocks(padded(data), padded(data).len() / 64)
}

/// The hash as forty hexadecimal digits.
pub open spec fn sha1_text(data: Seq<u8>) -> Seq<char> {
    let h = digest(data);
    hex(h.a as nat, 8) + hex(h.b as nat, 8) + hex(h.c as nat, 8) + hex(h.d as nat, 8) + hex(
        h.e as nat,
        8,
    )
}

// ---------------------------------------------------------------------------
// The computation
// ---------------------------------------------------------------------------

fn add_words(x: u32, y: u32) -> (r: u32)
    ensures
        r == plus(x, y),
{
    ((x as u64 + y as u64) % 0x1_0000_0000) as u32
}

fn rotate(x: u32, n: u32) -> (r: u32)
    requires
        0 < n < 32,
    ensures
        r == rotated(x, n),
{
    (x << n) | (x >> (32 - n))
}

fn push_byte(bytes: &mut Vec<u8>, n: u64, weight: u64)
    requires
        weight > 0,
    ensures
        final(bytes)@ == old(bytes)@.push(byte_of(n as nat, weight as nat)),
{
    bytes.push(((n / weight) % 256) as u8);
}

proof fn lemma_padded_len(len: nat)
    ensures
        (len + 1 + zero_count(len) + 8) % 64 == 0,
{
}

fn pad(data: &[u8]) -> (r: Vec<u8>)
    ensures
        r@ == padded(data@),
        r@.len() % 64 == 0,
{
    let len = data.len();
    assert(data@.len() == len);
    let bits: u64 = ((len as u128 * 8) % 0x1_0000_0000_0000_0000) as u64;
    let mut r: Vec<u8> = Vec::new();
    let mut i: usize = 0;
    while i < len
        invariant
            i <= len == data@.len(),
            r@ == data@.take(i as int),
        decreases len - i,
    {
        r.push(data[i]);
        assert(r@ =~= data@.take(i + 1));
        i += 1;
    }
    assert(r@ =~= data@);
    r.push(0x80);
    let zeros: usize = (119 - len % 64) % 64;
    let mut k: usize = 0;
    while k < zeros
        invariant
            k <= zeros,
            zeros == zero_count(data@.len()),
            r@ == data@.push(0x80) + Seq::new(k as nat, |i: int| 0u8),
        decreases zeros - k,
    {
        r.push(0);
        assert(r@ =~= data@.push(0x80) + Seq::new((k + 1) as nat, |i: int| 0u8));
        k += 1;
    }
    let ghost front = r@;
    push_byte(&mut r, bits, 0x100_0000_0000_0000);
    push_byte(&mut r, bits, 0x1_0000_0000_0000);
    push_byte(&mut r, bits, 0x100_0000_0000);
    push_byte(&mut r, bits, 0x1_0000_0000);
    push_byte(&mut r, bits, 0x100_0000);
    push_byte(&mut r, bits, 0x1_0000);
    push_byte(&mut r, bits, 0x100);
    push_byte(&mut r, bits, 1);
    assert(r@ =~= front + length_bytes(bits as nat));
    proof {
        lemma_padded_len(data@.len());
    }
    r
}

fn word_from(data: &Vec<u8>, at: usize) -> (r: u32)
    requires
        at + 4 <= data@.len(),
    ensures
        r == data@[at as int] * 0x100_0000 + data@[at + 1] * 0x1_0000 + data@[at + 2] * 0x100
            + data@[at + 3],
{
    let len = data.len();
    assert(at + 4 <= len);
    data[at] as u32 * 0x100_0000 + data[at + 1] as u32 * 0x1_0000 + data[at + 2] as u32 * 0x100
        + data[at + 3] as u32
}

fn spread(data: &Vec<u8>, at: usize) -> (w: Vec<u32>)
    requires
        at + 64 <= data@.len(),
    ensures
        w@ == schedule(data@.subrange(at as int, at + 64), 80),
        w@.len() == 80,
{
    let ghost block = data@.subrange(at as int, at + 64);
    let mut w: Vec<u32> = Vec::new();
    let mut i: usize = 0;
    let len = data.len();
    while i < 80
        invariant
            i <= 80,
            at + 64 <= len == data@.len(),
            block == data@.subrange(at as int, at + 64),
            w@ == schedule(block, i as nat),
            w@.len() == i,
        decreases 80 - i,
    {
        let word = if i < 16 {
            let word = word_from(data, at + 4 * i);
            assert(block[4 * i] == data@[at + 4 * i]);
            assert(block[4 * i + 1] == data@[at + 4 * i + 1]);
            assert(block[4 * i + 2] == data@[at + 4 * i + 2]);
            assert(block[4 * i + 3] == data@[at + 4 * i + 3]);
            word
        } else {
            rotate(w[i - 3] ^ w[i - 8] ^ w[i - 14] ^ w[i - 16], 1)
        };
        w.push(word);
        i += 1;
    }
    w
}

fn mix(step: usize, b: u32, c: u32, d: u32) -> (r: (u32, u32))
    ensures
        r == mixed(step as int, b, c, d),
{
    if step < 20 {
        ((b & c) | ((!b) & d), 0x5A827999)
    } else if step < 40 {
        (b ^ c ^ d, 0x6ED9EBA1)
    } else if step < 60 {
        ((b & c) | (b & d) | (c & d), 0x8F1BBCDC)
    } else {
        (b ^ c ^ d, 0xCA62C1D6)
    }
}

fn add_block(h: Words, data: &Vec<u8>, at: usize) -> (r: Words)
    requires
        at + 64 <= data@.len(),
    ensures
        r == with_block(h, data@.subrange(at as int, at + 64)),
{
    let w = spread(data, at);
    let (mut a, mut b, mut c, mut d, mut e) = (h.a, h.b, h.c, h.d, h.e);
    let mut i: usize = 0;
    while i < 80
        invariant
            i <= 80,
            w@.len() == 80,
            (Words { a, b, c, d, e }) == stepped(h, w@, i as nat),
        decreases 80 - i,
    {
        let (f, k) = mix(i, b, c, d);
        let turned = rotate(a, 5);
        let next = add_words(add_words(add_words(add_words(turned, f), e), k), w[i]);
        e = d;
        d = c;
        c = rotate(b, 30);
        b = a;
        a = next;
        i += 1;
    }
    Words {
        a: add_words(h.a, a),
        b: add_words(h.b, b),
        c: add_words(h.c, c),
        d: add_words(h.d, d),
        e: add_words(h.e, e),
    }
}

pub fn sha1_digest(data: &[u8]) -> (r: Words)
    ensures
        r == digest(data@),
{
    let msg = pad(data);
    let mut h = Words {
        a: 0x67452301,
        b: 0xEFCDAB89,
        c: 0x98BADCFE,
        d: 0x10325476,
        e: 0xC3D2E1F0,
    };
    let mut at: usize = 0;
    let ghost mut n: nat = 0;
    while at < msg.len()
        invariant
            at == 64 * n,
            at <= msg.len(),
            msg@.len() % 64 == 0,
            msg@ == padded(data@),
            h == with_blocks(msg@, n),
        decreases msg.len() - at,
    {
        assert(at + 64 <= msg@.len());
        h = add_block(h, &msg, at);
        at += 64;
        proof {
            n = n + 1;
        }
    }
    h
}

/// The hash of some bytes, in hexadecimal digits.
pub fn sha1_hex(data: &[u8]) -> (r: String)
    ensures
        r@ == sha1_text(data@),
{
    let h = sha1_digest(data);
    let mut text = String::new();
    push_hex(&mut text, h.a as u64, 8);
    assert(text@ =~= hex(h.a as nat, 8));
    push_hex(&mut text, h.b as u64, 8);
    push_hex(&mut text, h.c as u64, 8);
    push_hex(&mut text, h.d as u64, 8);
    push_hex(&mut text, h.e as u64, 8);
    text
}

} // verus!
