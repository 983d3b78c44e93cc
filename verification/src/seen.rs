//! The ids of messages that came in before.

use crate::text::{same_text, texts_view};
use vstd::prelude::*;

verus! {

/// How many ids are remembered.
pub const SEEN_MAX: usize = 512;

/// Ids of messages that were taken in.
pub struct SeenIds {
    ids: Vec<String>,
}

/// What is remembered once a message with this id came in, in the order of arrival: a new id is
/// added, in place of the oldest where there is no more room.
pub open spec fn remembered(seen: Seq<Seq<char>>, id: Seq<char>) -> Seq<Seq<char>> {
    if seen.contains(id) {
        seen
    } else if seen.len() >= SEEN_MAX {
        seen.skip(1).push(id)
    } else {
        seen.push(id)
    }
}

/// What is remembered once messages with these ids came in, one after the other.
pub open spec fn remembered_all(seen: Seq<Seq<char>>, ids: Seq<Seq<char>>) -> Seq<Seq<char>>
    decreases ids.len(),
{
    if ids.len() == 0 {
        seen
    } else {
        remembered(remembered_all(seen, ids.drop_last()), ids.last())
    }
}

/// An id is known as soon as a message with it came in, and a second message changes nothing. Only
/// the oldest id is ever forgotten, no id is held twice, and no more are held than there is room
/// for.
pub proof fn law_seen_is_known(seen: Seq<Seq<char>>, id: Seq<char>)
    ensures
        remembered(seen, id).contains(id),
        remembered(remembered(seen, id), id) == remembered(seen, id),
        seen.no_duplicates() ==> remembered(seen, id).no_duplicates(),
        seen.len() <= SEEN_MAX ==> remembered(seen, id).len() <= SEEN_MAX,
        forall|i: int|
            0 <= i < seen.len() && (i > 0 || seen.len() < SEEN_MAX) ==> remembered(
                seen,
                id,
            ).contains(#[trigger] seen[i]),
{
    let now = remembered(seen, id);
    if !seen.contains(id) {
        assert(now.last() == id);
        assert(now[now.len() - 1] == id);
        assert forall|i: int|
            0 <= i < seen.len() && (i > 0 || seen.len() < SEEN_MAX) implies now.contains(
            #[trigger] seen[i],
        ) by {
            if seen.len() >= SEEN_MAX {
                assert(now[i - 1] == seen[i]);
            } else {
                assert(now[i] == seen[i]);
            }
        }
        if seen.no_duplicates() {
            assert forall|i: int, j: int|
                0 <= i < now.len() && 0 <= j < now.len() && i != j implies now[i] != now[j] by {
                let shift: int = if seen.len() >= SEEN_MAX {
                    1
                } else {
                    0
                };
                if i < now.len() - 1 {
                    assert(now[i] == seen[i + shift]);
                }
                if j < now.len() - 1 {
                    assert(now[j] == seen[j + shift]);
                }
            }
        }
    } else {
        assert forall|i: int| 0 <= i < seen.len() implies now.contains(#[trigger] seen[i]) by {
            assert(now[i] == seen[i]);
        }
    }
}

/// Where an id stands after others came in: at most one further from the end for each.
proof fn lemma_still_known(seen: Seq<Seq<char>>, p: int, ids: Seq<Seq<char>>) -> (q: int)
    requires
        seen.len() <= SEEN_MAX,
        0 <= p < seen.len(),
        ids.len() + (seen.len() - 1 - p) < SEEN_MAX,
    ensures
        0 <= q < remembered_all(seen, ids).len() <= SEEN_MAX,
        remembered_all(seen, ids)[q] == seen[p],
        remembered_all(seen, ids).len() - 1 - q <= ids.len() + (seen.len() - 1 - p),
    decreases ids.len(),
{
    if ids.len() == 0 {
        p
    } else {
        let before = remembered_all(seen, ids.drop_last());
        let q = lemma_still_known(seen, p, ids.drop_last());
        if before.contains(ids.last()) {
            q
        } else if before.len() >= SEEN_MAX {
            q - 1
        } else {
            q
        }
    }
}

/// An id stays known until as many newer ones have come in as there is room for: with the ids that
/// came in after it and with `ids`, there are fewer.
pub proof fn law_known_until_newer_fill_up(
    seen: Seq<Seq<char>>,
    p: int,
    ids: Seq<Seq<char>>,
)
    requires
        seen.len() <= SEEN_MAX,
        0 <= p < seen.len(),
        ids.len() + (seen.len() - 1 - p) < SEEN_MAX,
    ensures
        remembered_all(seen, ids).contains(seen[p]),
        remembered_all(seen, ids).len() <= SEEN_MAX,
{
    let q = lemma_still_known(seen, p, ids);
}

impl View for SeenIds {
    type V = Seq<Seq<char>>;

    closed spec fn view(&self) -> Seq<Seq<char>> {
        texts_view(self.ids@)
    }
}

impl SeenIds {
    #[verifier::type_invariant]
    spec fn in_order(self) -> bool {
        texts_view(self.ids@).no_duplicates() && self.ids@.len() <= SEEN_MAX
    }

    pub fn new() -> (r: Self)
        ensures
            r@ == Seq::<Seq<char>>::empty(),
    {
        let r = SeenIds { ids: Vec::new() };
        assert(texts_view(r.ids@) =~= Seq::empty());
        r
    }

    pub fn contains(&self, id: &str) -> (r: bool)
        ensures
            r == self@.contains(id@),
    {
        let ghost texts = texts_view(self.ids@);
        let mut i: usize = 0;
        while i < self.ids.len()
            invariant
                i <= self.ids.len(),
                texts == texts_view(self.ids@),
                forall|k: int| 0 <= k < i ==> texts[k] != id@,
            decreases self.ids.len() - i,
        {
            if same_text(self.ids[i].as_str(), id) {
                assert(texts[i as int] == id@);
                return true;
            }
            i += 1;
        }
        false
    }

    /// Takes in a message with this id: whether it is the first.
    pub fn take_in(&mut self, id: &str) -> (r: bool)
        ensures
            r == !old(self)@.contains(id@),
            final(self)@ == remembered(old(self)@, id@),
            final(self)@.no_duplicates(),
            final(self)@.len() <= SEEN_MAX,
    {
        proof {
            use_type_invariant(&*self);
        }
        if self.contains(id) {
            return false;
        }
        let ghost before = texts_view(self.ids@);
        proof {
            law_seen_is_known(before, id@);
        }
        let mut ids: Vec<String> = Vec::new();
        assert(texts_view(ids@) =~= Seq::empty());
        std::mem::swap(&mut ids, &mut self.ids);
        if ids.len() >= SEEN_MAX {
            ids.remove(0);
            assert(texts_view(ids@) =~= before.skip(1));
        }
        let ghost kept = texts_view(ids@);
        ids.push(id.to_owned());
        assert(texts_view(ids@) =~= kept.push(id@));
        self.ids = ids;
        true
    }
}

} // verus!
