//! What holds of the messages that come from WeCom and go to it.

use crate::accounts::{listeners, ListenerView};
use crate::config::{ConfigView, WeComAccountConfig};
use crate::json::{law_insert_then_lookup, lookup};
use crate::sha1::sha1_text;
use crate::sorting::{ascending, law_sorted_texts, lemma_less_total, sorted_texts};
use crate::text::{join, text_less};
use crate::text_laws::{law_split_at_the_first, leads_to, lemma_trim_tight, tight};
use crate::value::JsonView;
use crate::wecom_crypto::{
    aes_blocks, bare_key, base64_lenient, base64_strict, blank, full_key, law_sealed_message_opens,
    nibble, raw_text, sealed, signature, tag_text, unescaped, unpadded, without_blanks,
};
use crate::wecom_send::{group_body, line_end, pieces_of, user_body};
use crate::wecom_webhook::{
    accepted, allowed, element, from_wecom, handled, message_read, opened, parameter, program_name,
    refused, sent_signature, signed_payload, signed_with, signer_from, webhook_inbound,
    webhook_settings, WebhookView,
};
use vstd::prelude::*;
use vstd::utf8::encode_utf8;

verus! {

// ---------------------------------------------------------------------------
// Queries
// ---------------------------------------------------------------------------

/// A hexadecimal digit, in capitals or not.
pub open spec fn digit_byte(n: int, capital: bool) -> u8 {
    if n < 10 {
        (48 + n) as u8
    } else if capital {
        (55 + n) as u8
    } else {
        (87 + n) as u8
    }
}

/// Every byte as `%XX`.
pub open spec fn escaped(bytes: Seq<u8>, capital: bool) -> Seq<u8>
    decreases bytes.len(),
{
    if bytes.len() == 0 {
        Seq::empty()
    } else {
        seq![
            37u8,
            digit_byte(bytes[0] as int / 16, capital),
            digit_byte(bytes[0] as int % 16, capital),
        ] + escaped(bytes.skip(1), capital)
    }
}

/// What was escaped is read back, byte by byte, and what holds no percent sign is read as it is.
pub proof fn law_escapes_read_back(bytes: Seq<u8>, rest: Seq<u8>, capital: bool)
    ensures
        unescaped(escaped(bytes, capital) + rest) == Seq::new(
            bytes.len(),
            |i: int| bytes[i] as char,
        ) + unescaped(rest),
        (forall|i: int| 0 <= i < bytes.len() ==> (#[trigger] bytes[i]) != 37) ==> unescaped(
            bytes + rest,
        ) == Seq::new(bytes.len(), |i: int| bytes[i] as char) + unescaped(rest),
    decreases bytes.len(),
{
    let read = Seq::new(bytes.len(), |i: int| bytes[i] as char);
    if bytes.len() == 0 {
        assert(escaped(bytes, capital) + rest =~= rest);
        assert(bytes + rest =~= rest);
        assert(read + unescaped(rest) =~= unescaped(rest));
    } else {
        let later = bytes.skip(1);
        law_escapes_read_back(later, rest, capital);
        let read_later = Seq::new(later.len(), |i: int| later[i] as char);
        assert(read =~= seq![bytes[0] as char] + read_later);
        let b = bytes[0] as int;
        let s = escaped(bytes, capital) + rest;
        assert(s.skip(3) =~= escaped(later, capital) + rest);
        assert(nibble(digit_byte(b / 16, capital)) == Some(b / 16));
        assert(nibble(digit_byte(b % 16, capital)) == Some(b % 16));
        assert(b / 16 * 16 + b % 16 == b);
        assert(s[0] == 37 && s[1] == digit_byte(b / 16, capital) && s[2] == digit_byte(
            b % 16,
            capital,
        ));
        assert(unescaped(s) =~= read + unescaped(rest));
        if forall|i: int| 0 <= i < bytes.len() ==> (#[trigger] bytes[i]) != 37 {
            assert forall|i: int| 0 <= i < later.len() implies (#[trigger] later[i]) != 37 by {
                assert(later[i] == bytes[i + 1]);
            }
            let t = bytes + rest;
            assert(t[0] == bytes[0]);
            assert(t.skip(1) =~= later + rest);
            assert(unescaped(t) =~= read + unescaped(rest));
        }
    }
}

/// The first element of a name is read wherever it stands.
pub proof fn law_element_is_found(
    head: Seq<char>,
    tag: Seq<char>,
    content: Seq<char>,
    rest: Seq<char>,
)
    requires
        leads_to(head, "<"@ + tag + ">"@),
        leads_to(content, "</"@ + tag + ">"@),
    ensures
        tag_text(head + ("<"@ + tag + ">"@) + (content + ("</"@ + tag + ">"@) + rest), tag) == Some(
            raw_text(content),
        ),
{
    reveal_strlit("<");
    reveal_strlit("</");
    let open = "<"@ + tag + ">"@;
    let close = "</"@ + tag + ">"@;
    let inner = content + close + rest;
    let xml = head + open + inner;
    law_split_at_the_first(head, open, inner);
    law_split_at_the_first(content, close, rest);
    assert(xml.skip((head.len() + open.len()) as int) =~= inner);
    assert(inner.take(content.len() as int) =~= content);
}

// ---------------------------------------------------------------------------
// Signatures
// ---------------------------------------------------------------------------

proof fn lemma_sorted_once(a: Seq<Seq<char>>, b: Seq<Seq<char>>)
    requires
        ascending(a),
        ascending(b),
        a.to_multiset() == b.to_multiset(),
    ensures
        a == b,
    decreases a.len(),
{
    broadcast use vstd::seq_lib::group_to_multiset_ensures;

    assert(a.to_multiset().len() == a.len());
    assert(b.to_multiset().len() == b.len());
    if a.len() == 0 {
        assert(a =~= b);
    } else {
        let x = a.last();
        let y = b.last();
        assert(a[a.len() - 1] == x && b[b.len() - 1] == y);
        assert(a.contains(x) && b.contains(y));
        assert(b.to_multiset().count(x) > 0);
        assert(a.to_multiset().count(y) > 0);
        assert(b.contains(x) && a.contains(y));
        let i = choose|i: int| 0 <= i < b.len() && b[i] == x;
        let j = choose|j: int| 0 <= j < a.len() && a[j] == y;
        if i < b.len() - 1 {
            assert(!text_less(b[b.len() - 1], b[i]));
        }
        if j < a.len() - 1 {
            assert(!text_less(a[a.len() - 1], a[j]));
        }
        lemma_less_total(x, y);
        assert(x == y);
        let c = a.drop_last();
        let d = b.drop_last();
        assert(a =~= c.push(x) && b =~= d.push(y));
        assert(a.to_multiset() =~= c.to_multiset().insert(x));
        assert(b.to_multiset() =~= d.to_multiset().insert(x));
        assert(c.to_multiset() =~= a.to_multiset().remove(x));
        assert(d.to_multiset() =~= b.to_multiset().remove(x));
        lemma_sorted_once(c, d);
    }
}

/// A signature is the hash of all its parts, in ascending order, and so does not depend on the
/// order in which they are given.
pub proof fn law_signature_of_ordered_parts(
    parts: Seq<Seq<char>>,
    others: Seq<Seq<char>>,
    ordered: Seq<Seq<char>>,
)
    requires
        ascending(ordered),
        ordered.to_multiset() == parts.to_multiset(),
        others.to_multiset() == parts.to_multiset(),
    ensures
        signature(parts) == sha1_text(encode_utf8(join(ordered, ""@))),
        signature(others) == signature(parts),
{
    law_sorted_texts(parts);
    law_sorted_texts(others);
    lemma_sorted_once(sorted_texts(parts), ordered);
    lemma_sorted_once(sorted_texts(others), ordered);
}

/// Among several accounts a request is handled for the first whose token signed it.
pub proof fn law_first_signer_is_meant(
    list: Seq<ListenerView>,
    i: nat,
    k: int,
    query: Map<Seq<char>, Seq<char>>,
    payload: Seq<char>,
)
    requires
        i <= k < list.len(),
        list[k].config.wecom.active.callback_token.len() > 0,
        signed_with(list[k].config.wecom.active.callback_token, query, payload),
        forall|j: int|
            i <= j < k && (#[trigger] list[j]).config.wecom.active.callback_token.len() > 0
                ==> !signed_with(list[j].config.wecom.active.callback_token, query, payload),
    ensures
        signer_from(list, i, query, payload) == Some(list[k].config),
    decreases k - i,
{
    if i < k {
        law_first_signer_is_meant(list, i + 1, k, query, payload);
    }
}

// ---------------------------------------------------------------------------
// Keys and messages
// ---------------------------------------------------------------------------

/// Padding that repeats its own length is taken off; all of the data and nothing else is left.
pub proof fn law_padding_is_taken_off(data: Seq<u8>, n: u8)
    requires
        0 < n <= 16,
    ensures
        unpadded(data + Seq::new(n as nat, |i: int| n)) == Some(data),
{
    let all = data + Seq::new(n as nat, |i: int| n);
    assert(all.last() == n);
    assert(all.take(all.len() - n) =~= data);
}

/// Blanks in a key do not matter, wherever they stand.
pub proof fn law_blanks_do_not_matter(a: Seq<char>, b: Seq<char>, c: char)
    requires
        blank(c),
    ensures
        without_blanks(a + b) == without_blanks(a) + without_blanks(b),
        without_blanks(a.push(c) + b) == without_blanks(a + b),
        full_key(a.push(c) + b) == full_key(a + b),
        (forall|i: int| 0 <= i < a.len() ==> !blank(#[trigger] a[i])) ==> without_blanks(a) == a,
    decreases a.len() + b.len(),
{
    lemma_blanks_sum(a, b);
    lemma_blanks_sum(a.push(c), b);
    assert(a.push(c).drop_last() =~= a);
    if forall|i: int| 0 <= i < a.len() ==> !blank(#[trigger] a[i]) {
        lemma_no_blanks(a);
    }
}

proof fn lemma_blanks_sum(a: Seq<char>, b: Seq<char>)
    ensures
        without_blanks(a + b) == without_blanks(a) + without_blanks(b),
    decreases b.len(),
{
    if b.len() == 0 {
        assert(a + b =~= a);
        assert(without_blanks(a) + without_blanks(b) =~= without_blanks(a));
    } else {
        lemma_blanks_sum(a, b.drop_last());
        assert((a + b).drop_last() =~= a + b.drop_last());
        assert((a + b).last() == b.last());
        assert(without_blanks(a + b) =~= without_blanks(a) + without_blanks(b));
    }
}

proof fn lemma_no_blanks(a: Seq<char>)
    requires
        forall|i: int| 0 <= i < a.len() ==> !blank(#[trigger] a[i]),
    ensures
        without_blanks(a) == a,
    decreases a.len(),
{
    if a.len() > 0 {
        assert forall|i: int| 0 <= i < a.drop_last().len() implies !blank(
            #[trigger] a.drop_last()[i],
        ) by {
            assert(a.drop_last()[i] == a[i]);
        }
        lemma_no_blanks(a.drop_last());
        assert(!blank(a[a.len() - 1]));
    }
    assert(without_blanks(a) =~= a);
}

/// A key keeps all its characters and gets at most two signs of padding, so that its length can be
/// decoded; only a length that no padding completes is refused.
pub proof fn law_key_is_completed(key: Seq<char>)
    ensures
        full_key(key) is Err <==> encode_utf8(bare_key(key)).len() % 4 == 1,
        full_key(key) is Ok ==> {
            let full = full_key(key)->Ok_0;
            let bare = bare_key(key);
            &&& bare.len() <= full.len() <= bare.len() + 2
            &&& full.take(bare.len() as int) == bare
            &&& forall|i: int| bare.len() <= i < full.len() ==> (#[trigger] full[i]) == '='
            &&& (encode_utf8(bare).len() + (full.len() - bare.len())) % 4 == 0
        },
{
    reveal_strlit("==");
    reveal_strlit("=");
    let bare = bare_key(key);
    assert(bare.take(bare.len() as int) =~= bare);
    assert((bare + "=="@).take(bare.len() as int) =~= bare);
    assert((bare + "="@).take(bare.len() as int) =~= bare);
    assert("=="@[0] == '=' && "=="@[1] == '=' && "="@[0] == '=');
}

/// A message that was sealed and encrypted for a key of thirty-two bytes is opened with that key.
pub proof fn law_encrypted_message_opens(
    message: Seq<char>,
    key: Seq<char>,
    key_bytes: Seq<u8>,
    cipher: Seq<u8>,
    random: Seq<u8>,
    text: Seq<char>,
    company: Seq<u8>,
    padding: Seq<u8>,
)
    requires
        key.len() > 0,
        full_key(key) is Ok,
        base64_lenient(full_key(key)->Ok_0) == Ok::<Seq<u8>, Seq<char>>(key_bytes),
        key_bytes.len() == 32,
        base64_strict(message) == Ok::<Seq<u8>, Seq<char>>(cipher),
        cipher.len() % 16 == 0,
        aes_blocks(key_bytes, key_bytes.take(16), cipher) == sealed(random, text, company, padding),
        random.len() == 16,
        encode_utf8(text).len() < 0x1_0000_0000,
        0 < padding.len() <= 32,
        padding.last() == padding.len(),
    ensures
        opened(message, key) == Some(text),
{
    law_sealed_message_opens(random, text, company, padding);
}

// ---------------------------------------------------------------------------
// Requests
// ---------------------------------------------------------------------------

/// A request to confirm the address is answered with the text that it holds, if it is signed; if
/// not, it is refused. Nothing is passed on.
pub proof fn law_address_is_confirmed(
    config: ConfigView,
    query: Map<Seq<char>, Seq<char>>,
    body: Seq<char>,
    seen: Seq<Seq<char>>,
    text: Seq<char>,
)
    requires
        from_wecom(query),
        webhook_settings(config, "GET"@, query, body).wecom.active.callback_token.len() > 0,
        opened(
            unescaped(encode_utf8(parameter(query, "echostr"@))),
            webhook_settings(config, "GET"@, query, body).wecom.active.encoding_aes_key,
        ) == Some(text),
    ensures
        signed_with(
            webhook_settings(config, "GET"@, query, body).wecom.active.callback_token,
            query,
            unescaped(encode_utf8(parameter(query, "echostr"@))),
        ) ==> handled(config, "GET"@, query, body, seen) == (
            (200int, text),
            None::<WebhookView>,
            seen,
        ),
        !signed_with(
            webhook_settings(config, "GET"@, query, body).wecom.active.callback_token,
            query,
            unescaped(encode_utf8(parameter(query, "echostr"@))),
        ) ==> handled(config, "GET"@, query, body, seen) == (
            refused(),
            None::<WebhookView>,
            seen,
        ),
{
}

/// A text that someone who may write sends for the first time is passed on as it was said, and the
/// one who sent it is the one who is answered.
pub proof fn law_text_is_passed_on(
    config: ConfigView,
    query: Map<Seq<char>, Seq<char>>,
    body: Seq<char>,
    seen: Seq<Seq<char>>,
    user: Seq<char>,
    text: Seq<char>,
    time_ms: int,
)
    requires
        body.len() > 0,
        element(body, "Encrypt"@).len() == 0,
        tag_text(body, "FromUserName"@) == Some(user),
        !program_name(user),
        tag_text(body, "MsgType"@) == Some("text"@),
        tag_text(body, "Content"@) == Some(text),
        text.len() > 0,
        tight(text),
        tag_text(body, "MsgId"@) is Some ==> !seen.contains(tag_text(body, "MsgId"@)->0),
        allowed(
            webhook_settings(config, "POST"@, query, body).wecom.active.allow_from,
            user,
        ),
    ensures
        ({
            let (answer, message, now) = handled(config, "POST"@, query, body, seen);
            &&& answer == accepted()
            &&& message is Some
            &&& message->0.from_user == user
            &&& message->0.msg_id == tag_text(body, "MsgId"@)
            &&& message->0.said.content == text
            &&& message->0.said.download is None
            &&& tag_text(body, "MsgId"@) is Some && tag_text(body, "MsgId"@)->0.len() > 0
                ==> now.contains(tag_text(body, "MsgId"@)->0)
            &&& ({
                let passed = webhook_inbound(message->0, None, time_ms);
                &&& passed.channel == "wecom"@
                &&& passed.sender_id == user && passed.chat_id == user
                &&& passed.content == text && passed.media.len() == 0
                &&& passed.timestamp_ms == time_ms
            })
        }),
{
    reveal_strlit("POST");
    reveal_strlit("GET");
    assert("POST"@.len() == 4 && "GET"@.len() == 3);
    lemma_trim_tight(text);
    if tag_text(body, "MsgId"@) is Some {
        crate::seen::law_seen_is_known(seen, tag_text(body, "MsgId"@)->0);
    }
}

/// A file that someone sends is asked for under the name that the message gives it, and what was
/// loaded is passed on.
pub proof fn law_file_is_asked_for(
    settings: ConfigView,
    body: Seq<char>,
    seen: Seq<Seq<char>>,
    kind: Seq<char>,
    media_id: Seq<char>,
    path: Seq<char>,
    time_ms: int,
)
    requires
        kind == "image"@ || kind == "voice"@ || kind == "video"@ || kind == "file"@,
        message_read(settings, body, seen) is Some,
        tag_text(body, "MsgType"@) == Some(kind),
        tag_text(body, "MediaId"@) == Some(media_id),
        media_id.len() > 0,
    ensures
        ({
            let message = message_read(settings, body, seen)->0;
            &&& message.said.download is Some
            &&& message.said.download->0.media_id == media_id
            &&& message.said.download->0.media_type == kind
            &&& webhook_inbound(message, Some(path), time_ms).media == seq![path]
        }),
{
    reveal_strlit("text");
    reveal_strlit("image");
    reveal_strlit("voice");
    reveal_strlit("video");
    reveal_strlit("shortvideo");
    reveal_strlit("file");
    assert("text"@[0] == 't' && "image"@[0] == 'i' && "file"@[0] == 'f' && "voice"@[0] == 'v');
    assert("video"@[0] == 'v' && "video"@[1] == 'i' && "voice"@[1] == 'o');
    assert("shortvideo"@[0] == 's');
}

// ---------------------------------------------------------------------------
// Sending
// ---------------------------------------------------------------------------

proof fn lemma_line_end_last(s: Seq<char>, n: nat, j: int)
    requires
        n <= s.len(),
    ensures
        line_end(s, n) <= n,
        line_end(s, n) > 0 ==> s[line_end(s, n) - 1] == '\n',
        line_end(s, n) <= j < n ==> s[j] != '\n',
    decreases n,
{
    if n > 0 && s[n - 1] != '\n' {
        lemma_line_end_last(s, (n - 1) as nat, j);
    }
}

/// The first piece of a long text takes as many whole lines as are allowed, or as many characters
/// where not one line ends in time; the rest is cut in the same way.
pub proof fn law_pieces_are_as_long_as_allowed(s: Seq<char>, max: nat, j: int)
    requires
        0 < max < s.len(),
    ensures
        ({
            let pieces = pieces_of(s, max);
            let n = pieces[0].len();
            &&& 0 < n <= max
            &&& pieces[0] == s.take(n as int)
            &&& pieces.skip(1) == pieces_of(s.skip(n as int), max)
            &&& s[n - 1] == '\n' ==> n <= j < max ==> s[j] != '\n'
            &&& s[n - 1] != '\n' ==> n == max && (0 <= j < max ==> s[j] != '\n')
        }),
{
    lemma_line_end_last(s, max, j);
    let pieces = pieces_of(s, max);
    let n = pieces[0].len();
    assert(pieces.skip(1) =~= pieces_of(s.skip(n as int), max));
    if s[n - 1] != '\n' {
        assert(line_end(s, max) == 0);
    }
    if line_end(s, max) == 0 && s[max - 1] == '\n' {
        assert(false);
    }
}

/// A message names its chat or its user, its kind, and under its kind what it says.
pub proof fn law_message_names_its_target(
    chat: Seq<char>,
    agent: int,
    kind: Seq<char>,
    content: JsonView,
)
    requires
        kind == "text"@ || kind == "image"@ || kind == "voice"@ || kind == "video"@ || kind
            == "file"@ || kind == "markdown"@,
    ensures
        group_body(chat, kind, content).str_at("chatid"@) == Some(chat),
        group_body(chat, kind, content).str_at("msgtype"@) == Some(kind),
        group_body(chat, kind, content).get(kind) == Some(content),
        user_body(chat, agent, kind, content).str_at("touser"@) == Some(chat),
        user_body(chat, agent, kind, content).str_at("msgtype"@) == Some(kind),
        user_body(chat, agent, kind, content).get(kind) == Some(content),
{
    reveal_strlit("text");
    reveal_strlit("image");
    reveal_strlit("voice");
    reveal_strlit("video");
    reveal_strlit("file");
    reveal_strlit("markdown");
    reveal_strlit("chatid");
    reveal_strlit("msgtype");
    reveal_strlit("safe");
    reveal_strlit("agentid");
    reveal_strlit("touser");
    assert("text"@[1] == 'e' && "image"@[0] == 'i' && "voice"@[0] == 'v' && "video"@[0] == 'v');
    assert("file"@[0] == 'f' && "markdown"@[1] == 'a' && "chatid"@[0] == 'c');
    assert("msgtype"@[0] == 'm' && "msgtype"@[1] == 's' && "safe"@[0] == 's');
    assert("agentid"@[0] == 'a' && "touser"@[0] == 't' && "touser"@[1] == 'o');
    reveal_with_fuel(lookup, 5);
    let group = seq![
        ("chatid"@, JsonView::Str(chat)),
        ("msgtype"@, JsonView::Str(kind)),
        ("safe"@, crate::wecom_send::number(0)),
    ];
    let user = seq![
        ("agentid"@, crate::wecom_send::number(agent)),
        ("msgtype"@, JsonView::Str(kind)),
        ("safe"@, crate::wecom_send::number(0)),
        ("touser"@, JsonView::Str(chat)),
    ];
    law_insert_then_lookup(group, kind, content, "chatid"@);
    law_insert_then_lookup(group, kind, content, "msgtype"@);
    law_insert_then_lookup(user, kind, content, "touser"@);
    law_insert_then_lookup(user, kind, content, "msgtype"@);
    assert(group.skip(1)[0] == group[1]);
    assert(user.skip(1)[0] == user[1]);
    assert(user.skip(1).skip(1)[0] == user[2]);
    assert(user.skip(1).skip(1).skip(1)[0] == user[3]);
}

/// A request is signed where its signature is the hash of the token, its time, its nonce and its
/// payload, in ascending order: all four count, and nothing else.
pub proof fn law_signed_request(
    token: Seq<char>,
    query: Map<Seq<char>, Seq<char>>,
    payload: Seq<char>,
    ordered: Seq<Seq<char>>,
)
    requires
        query.contains_key("timestamp"@),
        query.contains_key("nonce"@),
        query.contains_key("msg_signature"@),
        ascending(ordered),
        ordered.to_multiset() == seq![
            token,
            query["timestamp"@],
            query["nonce"@],
            payload,
        ].to_multiset(),
    ensures
        signed_with(token, query, payload) <==> query["msg_signature"@] == sha1_text(
            encode_utf8(join(ordered, ""@)),
        ),
{
    let parts = seq![token, query["timestamp"@], query["nonce"@], payload];
    law_signature_of_ordered_parts(parts, parts, ordered);
}

/// The signature of a request is for its echo where it asks for a confirmation, and else for the
/// encrypted message in its body; it may come under its old name.
pub proof fn law_what_is_signed(
    query: Map<Seq<char>, Seq<char>>,
    body: Seq<char>,
    echo: Seq<char>,
    message: Seq<char>,
)
    ensures
        query.contains_key("echostr"@) && query["echostr"@] == echo ==> signed_payload(
            "GET"@,
            query,
            body,
        ) == unescaped(encode_utf8(echo)),
        tag_text(body, "Encrypt"@) == Some(message) ==> signed_payload("POST"@, query, body)
            == message,
        query.contains_key("msg_signature"@) ==> sent_signature(query) == query["msg_signature"@],
        !query.contains_key("msg_signature"@) && query.contains_key("signature"@)
            ==> sent_signature(query) == query["signature"@],
{
    reveal_strlit("POST");
    reveal_strlit("GET");
    assert("POST"@.len() == 4 && "GET"@.len() == 3);
}

/// A request is handled under the settings of the only account that listens, or of the one of
/// several whose token signed it; where nothing tells them apart, under those in use.
pub proof fn law_settings_of_a_request(
    config: ConfigView,
    method: Seq<char>,
    query: Map<Seq<char>, Seq<char>>,
    body: Seq<char>,
    k: int,
)
    ensures
        ({
            let list = listeners::<WeComAccountConfig>(config);
            let payload = signed_payload(method, query, body);
            let settings = webhook_settings(config, method, query, body);
            &&& list.len() == 0 ==> settings == config
            &&& list.len() == 1 ==> settings == list[0].config
            &&& list.len() > 1 && sent_signature(query).len() == 0 ==> settings == config
            &&& list.len() > 1 && sent_signature(query).len() > 0 && payload.len() > 0 && 0 <= k
                < list.len() && list[k].config.wecom.active.callback_token.len() > 0
                && signed_with(list[k].config.wecom.active.callback_token, query, payload) && (
            forall|j: int|
                0 <= j < k && (#[trigger] list[j]).config.wecom.active.callback_token.len() > 0
                    ==> !signed_with(list[j].config.wecom.active.callback_token, query, payload))
                ==> settings == list[k].config
        }),
{
    let list = listeners::<WeComAccountConfig>(config);
    let payload = signed_payload(method, query, body);
    if list.len() > 1 && 0 <= k < list.len() && list[k].config.wecom.active.callback_token.len() > 0
        && signed_with(list[k].config.wecom.active.callback_token, query, payload) && (forall|
        j: int,
    |
        0 <= j < k && (#[trigger] list[j]).config.wecom.active.callback_token.len() > 0
            ==> !signed_with(list[j].config.wecom.active.callback_token, query, payload)) {
        law_first_signer_is_meant(list, 0, k, query, payload);
    }
}

/// An encrypted message that is signed is opened with the key of its account and read; without a
/// body there is nothing to read, and without a key the body is read as it is.
pub proof fn law_signed_message_is_read(
    config: ConfigView,
    query: Map<Seq<char>, Seq<char>>,
    body: Seq<char>,
    seen: Seq<Seq<char>>,
    message: Seq<char>,
    text: Seq<char>,
)
    requires
        body.len() > 0,
        tag_text(body, "Encrypt"@) == Some(message),
        message.len() > 0,
        ({
            let account = webhook_settings(config, "POST"@, query, body).wecom.active;
            &&& account.callback_token.len() > 0 ==> signed_with(
                account.callback_token,
                query,
                message,
            )
            &&& account.encoding_aes_key.len() > 0
            &&& opened(message, account.encoding_aes_key) == Some(text)
        }),
    ensures
        handled(config, "POST"@, query, body, seen).0 == accepted(),
        handled(config, "POST"@, query, body, seen).1 == message_read(
            webhook_settings(config, "POST"@, query, body),
            text,
            seen,
        ),
{
    reveal_strlit("POST");
    reveal_strlit("GET");
    assert("POST"@.len() == 4 && "GET"@.len() == 3);
}

} // verus!
