//! What holds of the operations on texts, over all texts.

use crate::text::{
    decimal, decimal_int, find, hex, hex_char, integer, is_space, join, law_decimal_reads_back,
    lemma_find_from, lower, occurs_at, split, split_fold, strip_prefix, text_less, text_lines, trim,
    trim_end, trim_start, word_len, words,
};
use vstd::prelude::*;

verus! {

// ---------------------------------------------------------------------------
// Searching
// ---------------------------------------------------------------------------

/// In a text that starts with `head` and goes on with `pat`, no `pat` stands before that one.
pub open spec fn leads_to(head: Seq<char>, pat: Seq<char>) -> bool {
    forall|i: int| 0 <= i < head.len() ==> !#[trigger] occurs_at(head + pat, pat, i)
}

/// The character stands nowhere in the text.
pub open spec fn lacks(s: Seq<char>, c: char) -> bool {
    forall|i: int| 0 <= i < s.len() ==> (#[trigger] s[i]) != c
}

/// A text without the first character of a pattern leads to it.
pub proof fn lemma_lacks_leads(head: Seq<char>, pat: Seq<char>)
    requires
        pat.len() > 0,
        lacks(head, pat[0]),
    ensures
        leads_to(head, pat),
{
    assert forall|i: int| 0 <= i < head.len() implies !#[trigger] occurs_at(head + pat, pat, i) by {
        if occurs_at(head + pat, pat, i) {
            assert((head + pat).subrange(i, i + pat.len())[0] == head[i]);
        }
    }
}

/// The first place of a pattern is where it stands and where none stands before; nothing is found
/// just where it stands nowhere.
pub proof fn law_found_is_the_first(s: Seq<char>, pat: Seq<char>, i: int)
    ensures
        find(s, pat) == Some(i) <==> occurs_at(s, pat, i) && forall|j: int|
            0 <= j < i ==> !#[trigger] occurs_at(s, pat, j),
        find(s, pat) is None <==> forall|j: int| 0 <= j ==> !#[trigger] occurs_at(s, pat, j),
{
    lemma_find_from(s, pat, 0);
    if find(s, pat) is Some {
        let k = find(s, pat)->0;
        assert(occurs_at(s, pat, k));
        if occurs_at(s, pat, i) && (forall|j: int| 0 <= j < i ==> !#[trigger] occurs_at(s, pat, j)) {
            if k < i {
                assert(!occurs_at(s, pat, k));
            } else if i < k {
                assert(!occurs_at(s, pat, i));
            }
        }
    }
}

/// A text is split at the first place of the pattern.
pub proof fn law_split_at_the_first(head: Seq<char>, pat: Seq<char>, tail: Seq<char>)
    requires
        pat.len() > 0,
        leads_to(head, pat),
    ensures
        find(head + pat + tail, pat) == Some(head.len() as int),
        split(head + pat + tail, pat) == Some((head, tail)),
{
    let s = head + pat + tail;
    let n = head.len() as int;
    assert(s.subrange(n, n + pat.len()) =~= pat);
    assert forall|j: int| 0 <= j < n implies !#[trigger] occurs_at(s, pat, j) by {
        if occurs_at(s, pat, j) {
            assert((head + pat).subrange(j, j + pat.len()) =~= s.subrange(j, j + pat.len()));
            assert(occurs_at(head + pat, pat, j));
        }
    }
    law_found_is_the_first(s, pat, n);
    assert(s.take(n) =~= head);
    assert(s.skip(n + pat.len()) =~= tail);
}

/// A text without the pattern is not split.
pub proof fn law_no_split_without_pattern(s: Seq<char>, pat: Seq<char>)
    requires
        pat.len() > 0,
        lacks(s, pat[0]),
    ensures
        find(s, pat) is None,
        split(s, pat) is None,
{
    lemma_find_from(s, pat, 0);
    if find(s, pat) is Some {
        let k = find(s, pat)->0;
        assert(s.subrange(k, k + pat.len())[0] == s[k]);
    }
}

/// Where letters of either case match, a text is split at the first place of the pattern in its
/// lower-case form, and the parts keep their letters.
pub proof fn law_split_fold_at_the_first(head: Seq<char>, found: Seq<char>, tail: Seq<char>)
    requires
        found.len() > 0,
        leads_to(lower(head), lower(found)),
    ensures
        split_fold(head + found + tail, lower(found)) == Some((head, tail)),
{
    let s = head + found + tail;
    assert(lower(s) =~= lower(head) + lower(found) + lower(tail));
    law_split_at_the_first(lower(head), lower(found), lower(tail));
    assert(s.take(head.len() as int) =~= head);
    assert(s.skip((head.len() + found.len()) as int) =~= tail);
}

pub proof fn law_no_split_fold_without_pattern(s: Seq<char>, pat: Seq<char>)
    requires
        pat.len() > 0,
        lacks(lower(s), pat[0]),
    ensures
        split_fold(s, pat) is None,
{
    law_no_split_without_pattern(lower(s), pat);
}

/// What follows a prefix is what was put behind it; a text that starts otherwise has no rest.
pub proof fn law_prefix_is_stripped(s: Seq<char>, prefix: Seq<char>, rest: Seq<char>)
    ensures
        strip_prefix(s, prefix) == Some(rest) <==> s == prefix + rest,
{
    if s == prefix + rest {
        assert(s.subrange(0, prefix.len() as int) =~= prefix);
        assert(s.skip(prefix.len() as int) =~= rest);
    }
    if strip_prefix(s, prefix) == Some(rest) {
        assert(s =~= s.subrange(0, prefix.len() as int) + s.skip(prefix.len() as int));
    }
}

// ---------------------------------------------------------------------------
// Letters
// ---------------------------------------------------------------------------

/// Lower case changes the capital letters of ASCII alone, one for one.
pub proof fn law_lower_case(s: Seq<char>, i: int)
    requires
        0 <= i < s.len(),
    ensures
        lower(s).len() == s.len(),
        'A' <= s[i] <= 'Z' ==> lower(s)[i] as int == s[i] as int + 32,
        !('A' <= s[i] <= 'Z') ==> lower(s)[i] == s[i],
{
}

// ---------------------------------------------------------------------------
// White space
// ---------------------------------------------------------------------------

pub open spec fn spaces(s: Seq<char>) -> bool {
    forall|i: int| 0 <= i < s.len() ==> is_space(#[trigger] s[i])
}

/// The text neither starts nor ends with white space.
pub open spec fn tight(s: Seq<char>) -> bool {
    s.len() > 0 ==> !is_space(s[0]) && !is_space(s.last())
}

pub proof fn lemma_trim_start_spaces(a: Seq<char>, m: Seq<char>)
    requires
        spaces(a),
        m.len() > 0 ==> !is_space(m[0]),
    ensures
        trim_start(a + m) == m,
    decreases a.len(),
{
    if a.len() == 0 {
        assert(a + m =~= m);
    } else {
        assert((a + m).skip(1) =~= a.skip(1) + m);
        lemma_trim_start_spaces(a.skip(1), m);
    }
}

proof fn lemma_trim_end_spaces(m: Seq<char>, b: Seq<char>)
    requires
        spaces(b),
        m.len() > 0 ==> !is_space(m.last()),
    ensures
        trim_end(m + b) == m,
    decreases b.len(),
{
    if b.len() == 0 {
        assert(m + b =~= m);
    } else {
        assert((m + b).drop_last() =~= m + b.drop_last());
        assert((m + b).last() == b.last());
        lemma_trim_end_spaces(m, b.drop_last());
    }
}

/// Trimming takes the white space around a text away, and nothing else.
pub proof fn law_trim(a: Seq<char>, m: Seq<char>, b: Seq<char>)
    requires
        spaces(a),
        tight(m),
        spaces(b),
    ensures
        trim(a + m + b) == m,
{
    if m.len() == 0 {
        assert(a + m + b =~= (a + b) + m);
        lemma_trim_start_spaces(a + b, m);
        assert(trim_end(m) =~= m);
    } else {
        assert(a + m + b =~= a + (m + b));
        lemma_trim_start_spaces(a, m + b);
        lemma_trim_end_spaces(m, b);
    }
}

pub proof fn lemma_trim_tight(m: Seq<char>)
    requires
        tight(m),
    ensures
        trim(m) == m,
{
    law_trim(Seq::empty(), m, Seq::empty());
    assert(Seq::empty() + m + Seq::empty() =~= m);
}

/// A text without white space.
pub open spec fn one_word(s: Seq<char>) -> bool {
    s.len() > 0 && forall|i: int| 0 <= i < s.len() ==> !is_space(#[trigger] s[i])
}

proof fn lemma_word_len(w: Seq<char>, rest: Seq<char>)
    requires
        forall|i: int| 0 <= i < w.len() ==> !is_space(#[trigger] w[i]),
        rest.len() > 0 ==> is_space(rest[0]),
    ensures
        word_len(w + rest) == w.len(),
    decreases w.len(),
{
    if w.len() == 0 {
        assert(w + rest =~= rest);
    } else {
        assert((w + rest).skip(1) =~= w.skip(1) + rest);
        lemma_word_len(w.skip(1), rest);
    }
}

/// Words that were put behind each other with white space in between are read again.
pub proof fn law_words_are_read(gap: Seq<char>, word: Seq<char>, rest: Seq<char>)
    requires
        spaces(gap),
        one_word(word),
        rest.len() > 0 ==> is_space(rest[0]),
    ensures
        words(gap + word + rest) == seq![word] + words(rest),
{
    let s = gap + word + rest;
    assert(s =~= gap + (word + rest));
    lemma_trim_start_spaces(gap, word + rest);
    lemma_word_len(word, rest);
    let t = word + rest;
    assert(t.take(word.len() as int) =~= word);
    assert(t.skip(word.len() as int) =~= rest);
}

/// White space alone holds no word.
pub proof fn law_no_words_in_space(gap: Seq<char>)
    requires
        spaces(gap),
    ensures
        words(gap) == Seq::<Seq<char>>::empty(),
{
    lemma_trim_start_spaces(gap, Seq::empty());
    assert(gap + Seq::empty() =~= gap);
}

// ---------------------------------------------------------------------------
// Lines
// ---------------------------------------------------------------------------

/// A line ends at its line end; a carriage return before it is no part of the line, and what
/// follows is read in the same way.
pub proof fn law_lines_are_read(line: Seq<char>, rest: Seq<char>)
    requires
        lacks(line, '\n'),
        line.len() > 0 ==> line.last() != '\r',
    ensures
        text_lines(line + seq!['\n'] + rest) == seq![line] + text_lines(rest),
        text_lines(line + seq!['\r', '\n'] + rest) == seq![line] + text_lines(rest),
        line.len() > 0 ==> text_lines(line) == seq![line],
{
    reveal_strlit("\n");
    let end = "\n"@;
    assert(end =~= seq!['\n']);
    lemma_lacks_leads(line, end);
    law_split_at_the_first(line, end, rest);
    let longer = line.push('\r');
    lemma_lacks_leads(longer, end);
    law_split_at_the_first(longer, end, rest);
    assert(line + seq!['\r', '\n'] + rest =~= longer + end + rest);
    assert(longer.drop_last() =~= line);
    law_no_split_without_pattern(line, end);
}

// ---------------------------------------------------------------------------
// Numbers
// ---------------------------------------------------------------------------

/// The value of a hexadecimal digit.
pub open spec fn hex_value(c: char) -> nat {
    if '0' <= c <= '9' {
        (c as nat - '0' as nat) as nat
    } else {
        (c as nat - 'a' as nat + 10) as nat
    }
}

/// The number that hexadecimal digits write.
pub open spec fn hex_number(s: Seq<char>) -> nat
    decreases s.len(),
{
    if s.len() == 0 {
        0
    } else {
        hex_number(s.drop_last()) * 16 + hex_value(s.last())
    }
}

/// Hexadecimal digits read back: as many as asked for, and the number where it needs no more.
pub proof fn law_hex_reads_back(n: nat, digits: nat)
    requires
        n < vstd::arithmetic::power::pow(16, digits),
    ensures
        hex(n, digits).len() == digits,
        hex_number(hex(n, digits)) == n,
    decreases digits,
{
    vstd::arithmetic::power::lemma_pow0(16);
    if digits > 0 {
        reveal(vstd::arithmetic::power::pow);
        assert(n / 16 < vstd::arithmetic::power::pow(16, (digits - 1) as nat)) by {
            assert(vstd::arithmetic::power::pow(16, digits) == 16 * vstd::arithmetic::power::pow(
                16,
                (digits - 1) as nat,
            ));
        }
        law_hex_reads_back(n / 16, (digits - 1) as nat);
        let all = hex(n, digits);
        assert(all.drop_last() =~= hex(n / 16, (digits - 1) as nat));
        assert(all.last() == hex_char((n % 16) as int));
        assert(hex_value(hex_char((n % 16) as int)) == n % 16);
    }
}

/// An integer of 64 bits that was written in decimal digits is read again.
pub proof fn law_integer_reads_back(n: int)
    requires
        -0x8000_0000_0000_0000 <= n < 0x8000_0000_0000_0000,
    ensures
        integer(decimal_int(n)) == Some(n),
{
    let digits = if n < 0 {
        decimal((-n) as nat)
    } else {
        decimal(n as nat)
    };
    law_decimal_reads_back((if n < 0 { -n } else { n }) as nat);
    if n < 0 {
        assert(decimal_int(n).skip(1) =~= digits);
    }
}

// ---------------------------------------------------------------------------
// Order and joining
// ---------------------------------------------------------------------------

/// Texts are in a total order.
pub proof fn law_texts_are_ordered(a: Seq<char>, b: Seq<char>, c: Seq<char>)
    ensures
        !text_less(a, a),
        a == b || text_less(a, b) || text_less(b, a),
        text_less(a, b) ==> !text_less(b, a),
        text_less(a, b) && text_less(b, c) ==> text_less(a, c),
    decreases a.len(),
{
    if a.len() > 0 {
        law_texts_are_ordered(
            a.skip(1),
            if b.len() > 0 { b.skip(1) } else { b },
            if c.len() > 0 { c.skip(1) } else { c },
        );
        if b.len() > 0 && a[0] == b[0] && a.skip(1) == b.skip(1) {
            assert(a =~= seq![a[0]] + a.skip(1));
            assert(b =~= seq![b[0]] + b.skip(1));
        }
    } else if b.len() == 0 {
        assert(a =~= b);
    }
}

/// The first difference decides, and a text comes before what it is the start of.
pub proof fn law_first_difference_decides(
    start: Seq<char>,
    x: char,
    y: char,
    a: Seq<char>,
    b: Seq<char>,
)
    requires
        x < y,
    ensures
        text_less(start + seq![x] + a, start + seq![y] + b),
        text_less(start, start + seq![x] + a),
    decreases start.len(),
{
    let l = start + seq![x] + a;
    let r = start + seq![y] + b;
    if start.len() > 0 {
        law_first_difference_decides(start.skip(1), x, y, a, b);
        assert(l.skip(1) =~= start.skip(1) + seq![x] + a);
        assert(r.skip(1) =~= start.skip(1) + seq![y] + b);
    }
}

/// Texts are joined with the separator between any two, and none at the ends.
pub proof fn law_join(a: Seq<Seq<char>>, b: Seq<Seq<char>>, sep: Seq<char>)
    requires
        a.len() > 0,
        b.len() > 0,
    ensures
        join(a + b, sep) == join(a, sep) + sep + join(b, sep),
        a.len() == 1 ==> join(a, sep) == a[0],
    decreases b.len(),
{
    assert((a + b).drop_last() =~= a + b.drop_last());
    assert((a + b).last() == b.last());
    if b.len() == 1 {
        assert((a + b).drop_last() =~= a);
    } else {
        law_join(a, b.drop_last(), sep);
        assert(join(a, sep) + sep + join(b.drop_last(), sep) + sep + b.last() =~= join(a, sep) + sep
            + (join(b.drop_last(), sep) + sep + b.last()));
    }
}

} // verus!
