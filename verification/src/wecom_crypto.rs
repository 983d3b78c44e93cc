//! Signatures and encryption of WeCom messages.

use crate::error::{Error, ErrorView};
use crate::sha1::{sha1_hex, sha1_text};
use crate::sorting::{sort_texts, sorted_texts};
use crate::text::{
    after, before, chars_end_with, chars_of, chars_start_with, decimal, decimal_text, ends_with,
    find, find_chars, join, join_texts, occurs_at, opt_text, part, same_text, starts_with, text_of,
    texts_view, trim_end_of, trim_end_of_chars,
};
use aes::cipher::{BlockDecryptMut, KeyIvInit};
use base64::Engine;
use vstd::prelude::*;
use vstd::utf8::{decode_utf8, encode_utf8, valid_utf8};

verus! {

// ---------------------------------------------------------------------------
// Queries and bodies
// ---------------------------------------------------------------------------

/// The value of a hexadecimal digit.
pub open spec fn nibble(b: u8) -> Option<int> {
    if 48 <= b <= 57 {
        Some(b - 48)
    } else if 97 <= b <= 102 {
        Some(b - 87)
    } else if 65 <= b <= 70 {
        Some(b - 55)
    } else {
        None
    }
}

pub fn hex_nibble(b: u8) -> (r: Option<u8>)
    ensures
        match r {
            Some(n) => nibble(b) == Some(n as int) && n < 16,
            None => nibble(b) is None,
        },
{
    if 48 <= b && b <= 57 {
        Some(b - 48)
    } else if 97 <= b && b <= 102 {
        Some(b - 87)
    } else if 65 <= b && b <= 70 {
        Some(b - 55)
    } else {
        None
    }
}

/// Some bytes of a query with each `%XX` replaced by the byte that it stands for; every byte
/// becomes the character of that number.
pub open spec fn unescaped(bytes: Seq<u8>) -> Seq<char>
    decreases bytes.len(),
{
    if bytes.len() == 0 {
        Seq::empty()
    } else if bytes[0] == 37 && bytes.len() > 2 && nibble(bytes[1]) is Some && nibble(
        bytes[2],
    ) is Some {
        seq![(nibble(bytes[1])->0 * 16 + nibble(bytes[2])->0) as char] + unescaped(bytes.skip(3))
    } else {
        seq![bytes[0] as char] + unescaped(bytes.skip(1))
    }
}

pub fn percent_decode(s: &str) -> (r: String)
    ensures
        r@ == unescaped(encode_utf8(s@)),
{
    let bytes = s.as_bytes();
    let ghost all = bytes@;
    let mut out = String::new();
    let mut i: usize = 0;
    assert(bytes@.len() == bytes.len());
    assert(all.skip(0) =~= all);
    assert(out@ + unescaped(all) =~= unescaped(all));
    while i < bytes.len()
        invariant
            i <= bytes.len() == bytes@.len(),
            all == bytes@,
            out@ + unescaped(all.skip(i as int)) == unescaped(all),
        decreases bytes.len() - i,
    {
        let ghost rest = all.skip(i as int);
        let ghost so_far = out@;
        assert(rest[0] == bytes@[i as int]);
        if bytes[i] == 37 && bytes.len() - i > 2 {
            assert(rest[1] == bytes@[i + 1] && rest[2] == bytes@[i + 2]);
            if let Some(h) = hex_nibble(bytes[i + 1]) {
                if let Some(l) = hex_nibble(bytes[i + 2]) {
                    let c: u8 = h * 16 + l;
                    out.push(c as char);
                    assert(rest.skip(3) =~= all.skip(i + 3));
                    assert(so_far + (seq![c as char] + unescaped(rest.skip(3))) =~= out@
                        + unescaped(rest.skip(3)));
                    i += 3;
                    continue ;
                }
            }
        }
        out.push(bytes[i] as char);
        assert(rest.skip(1) =~= all.skip(i + 1));
        assert(so_far + (seq![rest[0] as char] + unescaped(rest.skip(1))) =~= out@ + unescaped(
            rest.skip(1),
        ));
        i += 1;
    }
    assert(out@ + Seq::empty() =~= out@);
    out
}

/// What a tag holds, without the frame of raw text.
pub open spec fn raw_text(content: Seq<char>) -> Seq<char> {
    if starts_with(content, "<![CDATA["@) && ends_with(content, "]]>"@) {
        content.subrange(9, content.len() - 3)
    } else {
        content
    }
}

/// What stands between the first opening tag of this name and the first closing one behind it.
pub open spec fn tag_text(xml: Seq<char>, tag: Seq<char>) -> Option<Seq<char>> {
    let open = "<"@ + tag + ">"@;
    let close = "</"@ + tag + ">"@;
    match find(xml, open) {
        None => None,
        Some(at) => {
            let rest = xml.skip(at + open.len());
            match find(rest, close) {
                None => None,
                Some(end) => Some(raw_text(rest.take(end))),
            }
        },
    }
}

proof fn lemma_raw_frame(content: Seq<char>)
    requires
        starts_with(content, "<![CDATA["@),
        ends_with(content, "]]>"@),
    ensures
        content.len() >= 12,
{
    reveal_strlit("<![CDATA[");
    reveal_strlit("]]>");
    let head = "<![CDATA["@;
    let tail = "]]>"@;
    assert(head.len() == 9 && tail.len() == 3);
    assert(head[8] == '[');
    assert(content[8] == content.take(9)[8]);
    if content.len() < 12 {
        let k = 8 - (content.len() - 3);
        assert(content.skip(content.len() - 3)[k] == content[8]);
        assert(tail[0] == ']' && tail[1] == ']' && tail[2] == '>');
    }
}

/// What is put into an element is read out of it, framed as raw text or not, unless it closes the
/// element itself.
pub proof fn law_element_reads_back(tag: Seq<char>, content: Seq<char>, rest: Seq<char>)
    requires
        forall|i: int|
            0 <= i < content.len() ==> !#[trigger] occurs_at(
                content + ("</"@ + tag + ">"@) + rest,
                "</"@ + tag + ">"@,
                i,
            ),
    ensures
        tag_text("<"@ + tag + ">"@ + (content + ("</"@ + tag + ">"@) + rest), tag) == Some(
            raw_text(content),
        ),
        raw_text("<![CDATA["@ + content + "]]>"@) == content,
{
    let open = "<"@ + tag + ">"@;
    let close = "</"@ + tag + ">"@;
    let inner = content + close + rest;
    let xml = open + inner;
    assert(xml.subrange(0, open.len() as int) =~= open);
    assert(occurs_at(xml, open, 0));
    assert(find(xml, open) == Some(0int));
    assert(xml.skip(open.len() as int) =~= inner);
    assert(inner.subrange(content.len() as int, (content.len() + close.len()) as int) =~= close);
    lemma_first_at(inner, close, 0, content.len() as int);
    assert(inner.take(content.len() as int) =~= content);
    reveal_strlit("<![CDATA[");
    reveal_strlit("]]>");
    let framed = "<![CDATA["@ + content + "]]>"@;
    assert("<![CDATA["@.len() == 9 && "]]>"@.len() == 3);
    assert(framed.take(9) =~= "<![CDATA["@);
    assert(framed.skip(framed.len() - 3) =~= "]]>"@);
    assert(framed.subrange(9, framed.len() - 3) =~= content);
}

/// A search ends at the first place where the pattern occurs.
proof fn lemma_first_at(s: Seq<char>, pat: Seq<char>, from: int, at: int)
    requires
        0 <= from <= at,
        at + pat.len() <= s.len(),
        occurs_at(s, pat, at),
        forall|i: int| from <= i < at ==> !#[trigger] occurs_at(s, pat, i),
    ensures
        crate::text::find_from(s, pat, from) == Some(at),
    decreases at - from,
{
    if from < at {
        lemma_first_at(s, pat, from + 1, at);
    }
}

fn tag(start: &str, name: &str) -> (r: Vec<char>)
    ensures
        r@ == start@ + name@ + ">"@,
{
    let mut text = start.to_owned();
    text.push_str(name);
    text.push_str(">");
    chars_of(text.as_str())
}

pub fn extract_xml_tag(xml: &str, name: &str) -> (r: Option<String>)
    ensures
        opt_text(r) == tag_text(xml@, name@),
{
    let chars = chars_of(xml);
    let open = tag("<", name);
    let close = tag("</", name);
    match find_chars(chars.as_slice(), open.as_slice()) {
        None => None,
        Some(at) => {
            proof {
                crate::text::lemma_find_from(chars@, open@, 0);
            }
            let len = chars.len();
            assert(at + open@.len() <= len);
            let rest = after(chars.as_slice(), at + open.len());
            match find_chars(rest, close.as_slice()) {
                None => None,
                Some(end) => {
                    proof {
                        crate::text::lemma_find_from(rest@, close@, 0);
                    }
                    let content = before(rest, end);
                    let head = chars_of("<![CDATA[");
                    let tail = chars_of("]]>");
                    if chars_start_with(content, head.as_slice()) && chars_end_with(
                        content,
                        tail.as_slice(),
                    ) {
                        proof {
                            lemma_raw_frame(content@);
                        }
                        Some(text_of(part(content, 9, content.len() - 3)))
                    } else {
                        Some(text_of(content))
                    }
                },
            }
        },
    }
}

// ---------------------------------------------------------------------------
// Signatures
// ---------------------------------------------------------------------------

/// The signature of some texts: the hash of the texts in ascending order, one behind the other.
pub open spec fn signature(parts: Seq<Seq<char>>) -> Seq<char> {
    sha1_text(encode_utf8(join(sorted_texts(parts), ""@)))
}

fn sign(parts: &Vec<String>) -> (r: String)
    ensures
        r@ == signature(texts_view(parts@)),
{
    let sorted = sort_texts(parts);
    let combined = join_texts(&sorted, "");
    sha1_hex(combined.as_str().as_bytes())
}

/// Whether a request without a message is signed with the token.
pub fn verify_signature(token: &str, timestamp: &str, nonce: &str, expected: &str) -> (r: bool)
    ensures
        r == (signature(seq![token@, timestamp@, nonce@]) == expected@),
{
    let mut parts: Vec<String> = Vec::new();
    parts.push(token.to_owned());
    parts.push(timestamp.to_owned());
    parts.push(nonce.to_owned());
    assert(texts_view(parts@) =~= seq![token@, timestamp@, nonce@]);
    same_text(sign(&parts).as_str(), expected)
}

/// Whether a request with an encrypted message is signed with the token.
pub fn verify_signature_4(
    token: &str,
    timestamp: &str,
    nonce: &str,
    msg_encrypt: &str,
    expected: &str,
) -> (r: bool)
    ensures
        r == (signature(seq![token@, timestamp@, nonce@, msg_encrypt@]) == expected@),
{
    let mut parts: Vec<String> = Vec::new();
    parts.push(token.to_owned());
    parts.push(timestamp.to_owned());
    parts.push(nonce.to_owned());
    parts.push(msg_encrypt.to_owned());
    assert(texts_view(parts@) =~= seq![token@, timestamp@, nonce@, msg_encrypt@]);
    same_text(sign(&parts).as_str(), expected)
}

// ---------------------------------------------------------------------------
// Outside calls
// ---------------------------------------------------------------------------

/// What the engine `STANDARD` of `base64` decodes a text to, or what its error says.
pub uninterp spec fn base64_strict(text: Seq<char>) -> Result<Seq<u8>, Seq<char>>;

/// What an engine of `base64` with the standard alphabet, which takes any padding and any bits
/// behind the last byte, decodes a text to, or what its error says.
pub uninterp spec fn base64_lenient(text: Seq<char>) -> Result<Seq<u8>, Seq<char>>;

/// What the engine `STANDARD` of `base64` encodes bytes to.
pub uninterp spec fn base64_text(bytes: Seq<u8>) -> Seq<char>;

/// The bytes that AES-256 in CBC mode decrypts some whole blocks to.
pub uninterp spec fn aes_blocks(key: Seq<u8>, iv: Seq<u8>, data: Seq<u8>) -> Seq<u8>;

/// What the error of `std::str::from_utf8` says of some bytes.
pub uninterp spec fn utf8_complaint(bytes: Seq<u8>) -> Seq<char>;

pub open spec fn bytes_result(r: Result<Vec<u8>, String>) -> Result<Seq<u8>, Seq<char>> {
    match r {
        Ok(bytes) => Ok(bytes@),
        Err(text) => Err(text@),
    }
}

/// Calls `Engine::decode` of `base64::engine::general_purpose::STANDARD`.
#[verifier::external_body]
fn decode_strict(text: &str) -> (r: Result<Vec<u8>, String>)
    ensures
        bytes_result(r) == base64_strict(text@),
{
    base64::engine::general_purpose::STANDARD.decode(text).map_err(|e| e.to_string())
}

/// Calls `Engine::decode` of a `GeneralPurpose` engine with the standard alphabet, indifferent
/// padding and trailing bits allowed.
#[verifier::external_body]
fn decode_lenient(text: &str) -> (r: Result<Vec<u8>, String>)
    ensures
        bytes_result(r) == base64_lenient(text@),
{
    base64::engine::GeneralPurpose::new(
        &base64::alphabet::STANDARD,
        base64::engine::GeneralPurposeConfig::new()
            .with_decode_padding_mode(base64::engine::DecodePaddingMode::Indifferent)
            .with_decode_allow_trailing_bits(true),
    ).decode(text).map_err(|e| e.to_string())
}

/// Calls `Engine::encode` of `base64::engine::general_purpose::STANDARD`.
#[verifier::external_body]
pub(crate) fn encode_base64(bytes: &[u8]) -> (r: String)
    ensures
        r@ == base64_text(bytes@),
{
    base64::engine::general_purpose::STANDARD.encode(bytes)
}

/// Calls `BlockDecryptMut::decrypt_padded_vec_mut` of `cbc::Decryptor<aes::Aes256>` without
/// padding: an error where the bytes are no whole blocks of sixteen, otherwise as many bytes.
#[verifier::external_body]
fn decrypt_blocks(key: &[u8], iv: &[u8], data: &[u8]) -> (r: Result<Vec<u8>, String>)
    requires
        key@.len() == 32,
        iv@.len() == 16,
    ensures
        match r {
            Ok(plain) => data@.len() % 16 == 0 && plain@ == aes_blocks(key@, iv@, data@)
                && plain@.len() == data@.len(),
            Err(text) => data@.len() % 16 != 0 && text@ == "Unpad Error"@,
        },
{
    cbc::Decryptor::<aes::Aes256>::new(key.into(), iv.into())
        .decrypt_padded_vec_mut::<aes::cipher::block_padding::NoPadding>(data)
        .map_err(|e| e.to_string())
}

/// The bytes without a padding that repeats its own length up to the end of a block.
pub open spec fn unpadded(plain: Seq<u8>) -> Option<Seq<u8>> {
    if plain.len() == 0 {
        None
    } else {
        let n = plain.last() as int;
        if 0 < n <= 16 && n <= plain.len() && forall|i: int|
            plain.len() - n <= i < plain.len() ==> #[trigger] plain[i] == n {
            Some(plain.take(plain.len() - n))
        } else {
            None
        }
    }
}

/// Calls `BlockDecryptMut::decrypt_padded_vec_mut` of `cbc::Decryptor<aes::Aes256>` with PKCS #7
/// padding: an error where the bytes are no whole blocks of sixteen or their padding is wrong.
#[verifier::external_body]
fn decrypt_padded(key: &[u8], iv: &[u8], data: &[u8]) -> (r: Result<Vec<u8>, String>)
    requires
        key@.len() == 32,
        iv@.len() == 16,
    ensures
        match r {
            Ok(plain) => data@.len() % 16 == 0 && unpadded(aes_blocks(key@, iv@, data@)) == Some(
                plain@,
            ),
            Err(text) => (data@.len() % 16 != 0 || unpadded(
                aes_blocks(key@, iv@, data@),
            ) is None) && text@ == "Unpad Error"@,
        },
{
    cbc::Decryptor::<aes::Aes256>::new(key.into(), iv.into())
        .decrypt_padded_vec_mut::<aes::cipher::block_padding::Pkcs7>(data)
        .map_err(|e| e.to_string())
}

/// Calls `std::str::from_utf8`: a text where the bytes are valid UTF-8, an error otherwise.
#[verifier::external_body]
fn read_utf8(bytes: &[u8]) -> (r: Result<String, String>)
    ensures
        match r {
            Ok(text) => valid_utf8(bytes@) && text@ == decode_utf8(bytes@),
            Err(e) => !valid_utf8(bytes@) && e@ == utf8_complaint(bytes@),
        },
{
    std::str::from_utf8(bytes).map(|s| s.to_owned()).map_err(|e| e.to_string())
}

// ---------------------------------------------------------------------------
// Messages
// ---------------------------------------------------------------------------

/// The white space of ASCII.
pub open spec fn blank(c: char) -> bool {
    c == ' ' || c == '\t' || c == '\n' || c == '\u{C}' || c == '\r'
}

pub open spec fn without_blanks(s: Seq<char>) -> Seq<char>
    decreases s.len(),
{
    if s.len() == 0 {
        Seq::empty()
    } else if blank(s.last()) {
        without_blanks(s.drop_last())
    } else {
        without_blanks(s.drop_last()).push(s.last())
    }
}

/// A key without blanks and without its padding.
pub open spec fn bare_key(key: Seq<char>) -> Seq<char> {
    trim_end_of(without_blanks(key), '=')
}

/// A key with the padding that its length asks for.
pub open spec fn full_key(key: Seq<char>) -> Result<Seq<char>, Seq<char>> {
    let bare = bare_key(key);
    let len = encode_utf8(bare).len();
    if len % 4 == 0 {
        Ok(bare)
    } else if len % 4 == 2 {
        Ok(bare + "=="@)
    } else if len % 4 == 3 {
        Ok(bare + "="@)
    } else {
        Err(
            "Invalid EncodingAESKey length: "@ + decimal(len)
                + " (after whitespace removal / padding strip)"@,
        )
    }
}

pub open spec fn text_result(r: Result<String, String>) -> Result<Seq<char>, Seq<char>> {
    match r {
        Ok(text) => Ok(text@),
        Err(text) => Err(text@),
    }
}

/// The key with its padding.
pub fn pad_key(encoding_aes_key: &str) -> (r: Result<String, String>)
    ensures
        text_result(r) == full_key(encoding_aes_key@),
{
    let chars = chars_of(encoding_aes_key);
    let mut compact: Vec<char> = Vec::new();
    let mut i: usize = 0;
    while i < chars.len()
        invariant
            i <= chars.len(),
            compact@ == without_blanks(chars@.take(i as int)),
        decreases chars.len() - i,
    {
        assert(chars@.take(i + 1).drop_last() =~= chars@.take(i as int));
        let c = chars[i];
        if !(c == ' ' || c == '\t' || c == '\n' || c == '\u{C}' || c == '\r') {
            compact.push(c);
        }
        i += 1;
    }
    assert(chars@.take(chars@.len() as int) =~= chars@);
    let mut bare = text_of(trim_end_of_chars(compact.as_slice(), '='));
    let len = bare.as_str().as_bytes().len();
    if len % 4 == 0 {
        Ok(bare)
    } else if len % 4 == 2 {
        bare.push_str("==");
        Ok(bare)
    } else if len % 4 == 3 {
        bare.push_str("=");
        Ok(bare)
    } else {
        let mut text = "Invalid EncodingAESKey length: ".to_owned();
        text.push_str(decimal_text(len as u64).as_str());
        text.push_str(" (after whitespace removal / padding strip)");
        Err(text)
    }
}

/// The key that a text decodes to, or why it is none.
pub open spec fn key_in(full: Seq<char>, decoded: Result<Seq<u8>, Seq<char>>) -> Result<
    Seq<u8>,
    Seq<char>,
> {
    match decoded {
        Err(e) => Err(
            "Failed to decode EncodingAESKey: "@ + e + ". Key was: '"@ + full + "'"@,
        ),
        Ok(bytes) => if bytes.len() == 32 {
            Ok(bytes)
        } else {
            Err(
                "AES key length invalid after base64 decode: "@ + decimal(bytes.len())
                    + " (expected 32). Please verify WeCom EncodingAESKey is correct (usually 43 chars, no '=')."@,
            )
        },
    }
}

/// Checks what a key was decoded to.
pub fn check_key(full: &str, decoded: Result<Vec<u8>, String>) -> (r: Result<Vec<u8>, String>)
    ensures
        bytes_result(r) == key_in(full@, bytes_result(decoded)),
{
    match decoded {
        Err(e) => {
            let mut text = "Failed to decode EncodingAESKey: ".to_owned();
            text.push_str(e.as_str());
            text.push_str(". Key was: '");
            text.push_str(full);
            text.push_str("'");
            Err(text)
        },
        Ok(bytes) => if bytes.len() == 32 {
            Ok(bytes)
        } else {
            let mut text = "AES key length invalid after base64 decode: ".to_owned();
            text.push_str(decimal_text(bytes.len() as u64).as_str());
            text.push_str(
                " (expected 32). Please verify WeCom EncodingAESKey is correct (usually 43 chars, no '=').",
            );
            Err(text)
        },
    }
}

/// The encrypted bytes that a message decodes to, or why it does not.
pub open spec fn cipher_in(message: Seq<char>, decoded: Result<Seq<u8>, Seq<char>>) -> Result<
    Seq<u8>,
    Seq<char>,
> {
    match decoded {
        Ok(bytes) => Ok(bytes),
        Err(e) => Err(
            "Failed to decode msg_encrypt (len="@ + decimal(encode_utf8(message).len()) + "): "@ + e
                + ". Value was: '"@ + message + "'"@,
        ),
    }
}

/// Checks what a message was decoded to.
pub fn check_cipher(message: &str, decoded: Result<Vec<u8>, String>) -> (r: Result<
    Vec<u8>,
    String,
>)
    ensures
        bytes_result(r) == cipher_in(message@, bytes_result(decoded)),
{
    match decoded {
        Ok(bytes) => Ok(bytes),
        Err(e) => {
            let mut text = "Failed to decode msg_encrypt (len=".to_owned();
            text.push_str(decimal_text(message.as_bytes().len() as u64).as_str());
            text.push_str("): ");
            text.push_str(e.as_str());
            text.push_str(". Value was: '");
            text.push_str(message);
            text.push_str("'");
            Err(text)
        },
    }
}

/// Four bytes as a number, the greatest first.
pub open spec fn big_endian(bytes: Seq<u8>, at: int) -> nat {
    (bytes[at] * 0x100_0000 + bytes[at + 1] * 0x1_0000 + bytes[at + 2] * 0x100 + bytes[at + 3]) as nat
}

/// The padding of the decrypted bytes is no longer than they are.
pub open spec fn padding_fits(decrypted: Seq<u8>) -> bool {
    decrypted.len() > 0 && 0 < decrypted.last() <= 32 ==> decrypted.last() <= decrypted.len()
}

/// The message in decrypted bytes: sixteen random bytes, the length of the message in four bytes,
/// the message, the name of the company, and a padding of up to thirty-two bytes that ends with
/// its length.
pub open spec fn message_in(decrypted: Seq<u8>) -> Result<Seq<char>, Seq<char>> {
    if decrypted.len() == 0 {
        Err("AES decrypt: empty output"@)
    } else if decrypted.last() == 0 || decrypted.last() > 32 {
        Err("AES decrypt: invalid PKCS7 pad value "@ + decimal(decrypted.last() as nat))
    } else {
        let plain = decrypted.take(decrypted.len() - decrypted.last());
        if plain.len() < 20 {
            Err("Decrypted data too short: "@ + decimal(plain.len()) + " bytes"@)
        } else {
            let len = big_endian(plain, 16);
            if 20 + len > plain.len() {
                Err(
                    "msg_len "@ + decimal(len) + " exceeds plaintext length "@ + decimal(
                        plain.len(),
                    ),
                )
            } else {
                let bytes = plain.subrange(20, 20 + len as int);
                if valid_utf8(bytes) {
                    Ok(decode_utf8(bytes))
                } else {
                    Err("UTF-8 decode failed: "@ + utf8_complaint(bytes))
                }
            }
        }
    }
}

/// Takes the message out of decrypted bytes.
pub fn open_message(decrypted: &[u8]) -> (r: Result<String, String>)
    requires
        padding_fits(decrypted@),
    ensures
        text_result(r) == message_in(decrypted@),
{
    assert(decrypted@.len() == decrypted.len());
    if decrypted.len() == 0 {
        return Err("AES decrypt: empty output".to_owned());
    }
    let pad = decrypted[decrypted.len() - 1];
    if pad == 0 || pad > 32 {
        let mut text = "AES decrypt: invalid PKCS7 pad value ".to_owned();
        text.push_str(decimal_text(pad as u64).as_str());
        return Err(text);
    }
    let len: usize = decrypted.len() - pad as usize;
    let ghost plain = decrypted@.take(len as int);
    if len < 20 {
        let mut text = "Decrypted data too short: ".to_owned();
        text.push_str(decimal_text(len as u64).as_str());
        text.push_str(" bytes");
        return Err(text);
    }
    let size: u32 = decrypted[16] as u32 * 0x100_0000 + decrypted[17] as u32 * 0x1_0000
        + decrypted[18] as u32 * 0x100 + decrypted[19] as u32;
    assert(size as nat == big_endian(plain, 16));
    if size as u64 > (len - 20) as u64 {
        let mut text = "msg_len ".to_owned();
        text.push_str(decimal_text(size as u64).as_str());
        text.push_str(" exceeds plaintext length ");
        text.push_str(decimal_text(len as u64).as_str());
        return Err(text);
    }
    let bytes = vstd::slice::slice_subrange(decrypted, 20, 20 + size as usize);
    assert(bytes@ =~= plain.subrange(20, 20 + size));
    match read_utf8(bytes) {
        Ok(text) => Ok(text),
        Err(e) => {
            let mut text = "UTF-8 decode failed: ".to_owned();
            text.push_str(e.as_str());
            Err(text)
        },
    }
}

/// Why a message could not be decrypted.
pub enum DecryptError {
    Message(String),
    /// The bytes end with a padding that is longer than they are.
    PaddingTooLong,
}

/// The bytes that an encrypted message holds, or why there are none.
pub open spec fn decrypted_bytes(message: Seq<char>, key: Seq<char>) -> Result<
    Seq<u8>,
    Seq<char>,
> {
    if key.len() == 0 {
        Err("encodingAesKey not configured"@)
    } else {
        match full_key(key) {
            Err(e) => Err(e),
            Ok(full) => match key_in(full, base64_lenient(full)) {
                Err(e) => Err(e),
                Ok(key_bytes) => match cipher_in(message, base64_strict(message)) {
                    Err(e) => Err(e),
                    Ok(cipher) => if cipher.len() % 16 == 0 {
                        Ok(aes_blocks(key_bytes, key_bytes.take(16), cipher))
                    } else {
                        Err("AES decrypt failed: "@ + "Unpad Error"@)
                    },
                },
            },
        }
    }
}

fn decrypt_bytes(message: &str, key: &str) -> (r: Result<Vec<u8>, String>)
    ensures
        bytes_result(r) == decrypted_bytes(message@, key@),
{
    if key.is_empty() {
        return Err("encodingAesKey not configured".to_owned());
    }
    let full = match pad_key(key) {
        Ok(full) => full,
        Err(e) => {
            return Err(e);
        },
    };
    let key_bytes = match check_key(full.as_str(), decode_lenient(full.as_str())) {
        Ok(bytes) => bytes,
        Err(e) => {
            return Err(e);
        },
    };
    let cipher = match check_cipher(message, decode_strict(message)) {
        Ok(bytes) => bytes,
        Err(e) => {
            return Err(e);
        },
    };
    let iv = vstd::slice::slice_subrange(key_bytes.as_slice(), 0, 16);
    assert(iv@ =~= key_bytes@.take(16));
    match decrypt_blocks(key_bytes.as_slice(), iv, cipher.as_slice()) {
        Ok(plain) => Ok(plain),
        Err(e) => {
            let mut text = "AES decrypt failed: ".to_owned();
            text.push_str(e.as_str());
            Err(text)
        },
    }
}

/// Decrypts a message with the key that was set up for it.
pub fn decrypt_wecom_msg(msg_encrypt: &str, encoding_aes_key: &str) -> (r: Result<
    String,
    DecryptError,
>)
    ensures
        match decrypted_bytes(msg_encrypt@, encoding_aes_key@) {
            Err(e) => r is Err && r->Err_0 is Message && r->Err_0->Message_0@ == e,
            Ok(bytes) => if padding_fits(bytes) {
                match message_in(bytes) {
                    Ok(text) => r is Ok && r->Ok_0@ == text,
                    Err(e) => r is Err && r->Err_0 is Message && r->Err_0->Message_0@ == e,
                }
            } else {
                r is Err && r->Err_0 is PaddingTooLong
            },
        },
{
    match decrypt_bytes(msg_encrypt, encoding_aes_key) {
        Err(e) => Err(DecryptError::Message(e)),
        Ok(bytes) => {
            if bytes.len() > 0 {
                let pad = bytes[bytes.len() - 1];
                if pad > 0 && pad <= 32 && pad as usize > bytes.len() {
                    return Err(DecryptError::PaddingTooLong);
                }
            }
            match open_message(bytes.as_slice()) {
                Ok(text) => Ok(text),
                Err(e) => Err(DecryptError::Message(e)),
            }
        },
    }
}

/// A number below 2^32 in four bytes, the greatest first.
pub open spec fn four_bytes(n: nat) -> Seq<u8> {
    seq![
        (n / 0x100_0000) as u8,
        ((n / 0x1_0000) % 256) as u8,
        ((n / 0x100) % 256) as u8,
        (n % 256) as u8,
    ]
}

/// The bytes that a sender encrypts for a message.
pub open spec fn sealed(random: Seq<u8>, text: Seq<char>, company: Seq<u8>, padding: Seq<u8>) -> Seq<
    u8,
> {
    random + four_bytes(encode_utf8(text).len()) + encode_utf8(text) + company + padding
}

/// What was sealed is what is taken out, whatever the random bytes, the name of the company and
/// the padding are.
pub proof fn law_sealed_message_opens(
    random: Seq<u8>,
    text: Seq<char>,
    company: Seq<u8>,
    padding: Seq<u8>,
)
    requires
        random.len() == 16,
        encode_utf8(text).len() < 0x1_0000_0000,
        0 < padding.len() <= 32,
        padding.last() == padding.len(),
    ensures
        padding_fits(sealed(random, text, company, padding)),
        message_in(sealed(random, text, company, padding)) == Ok::<Seq<char>, Seq<char>>(text),
{
    let bytes = encode_utf8(text);
    let n = bytes.len();
    let all = sealed(random, text, company, padding);
    let plain = random + four_bytes(n) + bytes + company;
    assert(all.last() == padding.last());
    assert(all.take(all.len() - all.last()) =~= plain);
    assert(plain[16] == four_bytes(n)[0]);
    assert(plain[17] == four_bytes(n)[1]);
    assert(plain[18] == four_bytes(n)[2]);
    assert(plain[19] == four_bytes(n)[3]);
    assert(big_endian(plain, 16) == n);
    assert(plain.subrange(20, 20 + n as int) =~= bytes);
    vstd::utf8::encode_utf8_valid_utf8(text);
    vstd::utf8::encode_utf8_decode_utf8(text);
}

// ---------------------------------------------------------------------------
// Media
// ---------------------------------------------------------------------------

/// A key of a file with the padding that its length asks for.
pub open spec fn padded_media_key(key: Seq<char>) -> Seq<char> {
    let len = encode_utf8(key).len();
    if len % 4 == 2 {
        key + "=="@
    } else if len % 4 == 3 {
        key + "="@
    } else {
        key
    }
}

/// The key of a file, decoded as it is or else with padding.
pub open spec fn media_key(key: Seq<char>) -> Result<Seq<u8>, Seq<char>> {
    match base64_strict(key) {
        Ok(bytes) => Ok(bytes),
        Err(_) => base64_strict(padded_media_key(key)),
    }
}

/// The decoded key of a file, or why it cannot be used.
pub open spec fn usable_media_key(decoded: Result<Seq<u8>, Seq<char>>) -> Result<
    Seq<u8>,
    Seq<char>,
> {
    match decoded {
        Err(e) => Err("WeCom long media aeskey decode failed: "@ + e),
        Ok(bytes) => if bytes.len() == 32 {
            Ok(bytes)
        } else {
            Err("WeCom long media aeskey invalid length: "@ + decimal(bytes.len()))
        },
    }
}

/// Checks what the key of a file was decoded to.
pub fn check_media_key(decoded: Result<Vec<u8>, String>) -> (r: Result<Vec<u8>, String>)
    ensures
        bytes_result(r) == usable_media_key(bytes_result(decoded)),
{
    match decoded {
        Err(e) => {
            let mut text = "WeCom long media aeskey decode failed: ".to_owned();
            text.push_str(e.as_str());
            Err(text)
        },
        Ok(bytes) => if bytes.len() == 32 {
            Ok(bytes)
        } else {
            let mut text = "WeCom long media aeskey invalid length: ".to_owned();
            text.push_str(decimal_text(bytes.len() as u64).as_str());
            Err(text)
        },
    }
}

/// The decrypted bytes of a file, or why there are none.
pub open spec fn media_bytes(data: Seq<u8>, key: Seq<char>) -> Result<Seq<u8>, Seq<char>> {
    match usable_media_key(media_key(key)) {
        Err(e) => Err(e),
        Ok(bytes) => if data.len() % 16 != 0 {
            Err("WeCom long media decrypt failed: "@ + "Unpad Error"@)
        } else {
            match unpadded(aes_blocks(bytes, bytes.take(16), data)) {
                Some(plain) => Ok(plain),
                None => Err("WeCom long media decrypt failed: "@ + "Unpad Error"@),
            }
        },
    }
}

pub fn decrypt_longconn_media_bytes(ciphertext: &[u8], aeskey: &str) -> (r: Result<Vec<u8>, Error>)
    ensures
        match media_bytes(ciphertext@, aeskey@) {
            Ok(plain) => r is Ok && r->Ok_0@ == plain,
            Err(e) => r is Err && r->Err_0@ == ErrorView::Channel(e),
        },
{
    let decoded = match decode_strict(aeskey) {
        Ok(bytes) => Ok(bytes),
        Err(_) => {
            let len = aeskey.as_bytes().len();
            let mut padded_key = aeskey.to_owned();
            if len % 4 == 2 {
                padded_key.push_str("==");
            } else if len % 4 == 3 {
                padded_key.push_str("=");
            }
            decode_strict(padded_key.as_str())
        },
    };
    let key = match check_media_key(decoded) {
        Ok(bytes) => bytes,
        Err(e) => {
            return Err(Error::Channel(e));
        },
    };
    let iv = vstd::slice::slice_subrange(key.as_slice(), 0, 16);
    assert(iv@ =~= key@.take(16));
    match decrypt_padded(key.as_slice(), iv, ciphertext) {
        Ok(plain) => Ok(plain),
        Err(e) => {
            let mut text = "WeCom long media decrypt failed: ".to_owned();
            text.push_str(e.as_str());
            Err(Error::Channel(text))
        },
    }
}

/// A file as a text that names its type and holds its bytes.
pub fn data_url(mime: &str, bytes: &[u8]) -> (r: String)
    ensures
        r@ == "data:"@ + mime@ + ";base64,"@ + base64_text(bytes@),
{
    let mut text = "data:".to_owned();
    text.push_str(mime);
    text.push_str(";base64,");
    text.push_str(encode_base64(bytes).as_str());
    text
}

} // verus!
