//! Lines out of a stream of text pieces.

use crate::text::{
    after, before, chars_of, find, find_chars, lemma_find_from, occurs_at, text_of, texts_view,
    trim, trim_chars,
};
use vstd::prelude::*;

verus! {

/// The complete lines of a text, trimmed, and what stands behind the last line end.
pub open spec fn complete_lines(s: Seq<char>) -> (Seq<Seq<char>>, Seq<char>)
    decreases s.len(),
{
    match find(s, seq!['\n']) {
        Some(i) => {
            if 0 <= i < s.len() {
                let (lines, rest) = complete_lines(s.skip(i + 1));
                (seq![trim(s.take(i))] + lines, rest)
            } else {
                (Seq::empty(), s)
            }
        },
        None => (Seq::empty(), s),
    }
}

proof fn lemma_line_end(s: Seq<char>, i: int)
    requires
        0 <= i < s.len(),
        s[i] == '\n',
        forall|j: int| 0 <= j < i ==> s[j] != '\n',
    ensures
        find(s, seq!['\n']) == Some(i),
{
    lemma_find_from(s, seq!['\n'], 0);
    assert(occurs_at(s, seq!['\n'], i)) by {
        assert(s.subrange(i, i + 1) =~= seq!['\n']);
    }
    match find(s, seq!['\n']) {
        Some(k) => {
            assert(occurs_at(s, seq!['\n'], k));
            assert(s.subrange(k, k + 1)[0] == s[k]);
            if k > i {
                assert(!occurs_at(s, seq!['\n'], i));
            }
        },
        None => {},
    }
}

proof fn lemma_first_line_end(s: Seq<char>)
    ensures
        match find(s, seq!['\n']) {
            Some(i) => {
                &&& 0 <= i < s.len()
                &&& s[i] == '\n'
                &&& forall|j: int| 0 <= j < i ==> s[j] != '\n'
            },
            None => true,
        },
{
    lemma_find_from(s, seq!['\n'], 0);
    match find(s, seq!['\n']) {
        Some(i) => {
            assert(s.subrange(i, i + 1)[0] == s[i]);
            assert forall|j: int| 0 <= j < i implies s[j] != '\n' by {
                if s[j] == '\n' {
                    assert(s.subrange(j, j + 1) =~= seq!['\n']);
                    assert(occurs_at(s, seq!['\n'], j));
                }
            }
        },
        None => {},
    }
}

/// Where a text is cut does not matter: the lines of the first piece, followed by the lines of
/// what it left over joined with the second piece, are the lines of both pieces together.
pub proof fn law_lines_of_pieces(a: Seq<char>, b: Seq<char>)
    ensures
        complete_lines(a + b).0 == complete_lines(a).0 + complete_lines(
            complete_lines(a).1 + b,
        ).0,
        complete_lines(a + b).1 == complete_lines(complete_lines(a).1 + b).1,
    decreases a.len(),
{
    lemma_first_line_end(a);
    match find(a, seq!['\n']) {
        Some(i) => {
            lemma_line_end(a + b, i);
            assert((a + b).skip(i + 1) =~= a.skip(i + 1) + b);
            assert((a + b).take(i) =~= a.take(i));
            law_lines_of_pieces(a.skip(i + 1), b);
            let rest = complete_lines(a.skip(i + 1));
            let more = complete_lines(rest.1 + b).0;
            assert(seq![trim(a.take(i))] + (rest.0 + more) =~= (seq![trim(a.take(i))] + rest.0)
                + more);
        },
        None => {
            assert(complete_lines(a).0 + complete_lines(a + b).0 =~= complete_lines(a + b).0);
        },
    }
}

/// Collects text and hands out its lines as they are complete.
pub struct LineBuffer {
    pending: String,
}

impl View for LineBuffer {
    type V = Seq<char>;

    closed spec fn view(&self) -> Seq<char> {
        self.pending@
    }
}

impl LineBuffer {
    pub fn new() -> (r: Self)
        ensures
            r@ == Seq::<char>::empty(),
    {
        LineBuffer { pending: String::new() }
    }

    /// Adds a piece of text and takes out the lines that are complete now.
    pub fn feed(&mut self, piece: &str) -> (lines: Vec<String>)
        ensures
            texts_view(lines@) == complete_lines(old(self)@ + piece@).0,
            final(self)@ == complete_lines(old(self)@ + piece@).1,
    {
        self.pending.push_str(piece);
        let all = chars_of(self.pending.as_str());
        let end = chars_of("\n");
        proof {
            reveal_strlit("\n");
            assert("\n"@ =~= seq!['\n']);
        }
        let mut lines: Vec<String> = Vec::new();
        let mut rest = all.as_slice();
        assert(texts_view(lines@) + complete_lines(rest@).0 =~= complete_lines(all@).0);
        loop
            invariant
                end@ == seq!['\n'],
                texts_view(lines@) + complete_lines(rest@).0 == complete_lines(all@).0,
                complete_lines(rest@).1 == complete_lines(all@).1,
                all@ == old(self)@ + piece@,
            decreases rest@.len(),
        {
            assert(rest@.len() == rest.len());
            match find_chars(rest, end.as_slice()) {
                Some(i) => {
                    let ghost so_far = texts_view(lines@);
                    let line = text_of(trim_chars(before(rest, i)));
                    let next = after(rest, i + 1);
                    lines.push(line);
                    assert(texts_view(lines@) =~= so_far.push(line@));
                    assert(so_far + complete_lines(rest@).0 =~= texts_view(lines@)
                        + complete_lines(next@).0);
                    rest = next;
                },
                None => {
                    assert(texts_view(lines@) + complete_lines(rest@).0 =~= texts_view(lines@));
                    self.pending = text_of(rest);
                    return lines;
                },
            }
        }
    }
}

} // verus!
