//! Texts by texts.

use crate::text::{opt_text, same_text};
use vstd::prelude::*;

verus! {

pub open spec fn pairs_map(pairs: Seq<(String, String)>) -> Map<Seq<char>, Seq<char>>
    decreases pairs.len(),
{
    if pairs.len() == 0 {
        Map::empty()
    } else {
        pairs_map(pairs.drop_last()).insert(pairs.last().0@, pairs.last().1@)
    }
}

pub fn find_pair(pairs: &Vec<(String, String)>, key: &str) -> (r: Option<String>)
    ensures
        match r {
            Some(v) => pairs_map(pairs@).contains_key(key@) && pairs_map(pairs@)[key@] == v@,
            None => !pairs_map(pairs@).contains_key(key@),
        },
{
    let mut found: Option<String> = None;
    let mut i: usize = 0;
    while i < pairs.len()
        invariant
            i <= pairs.len(),
            match found {
                Some(v) => pairs_map(pairs@.take(i as int)).contains_key(key@) && pairs_map(
                    pairs@.take(i as int),
                )[key@] == v@,
                None => !pairs_map(pairs@.take(i as int)).contains_key(key@),
            },
        decreases pairs.len() - i,
    {
        assert(pairs@.take(i + 1).drop_last() =~= pairs@.take(i as int));
        if same_text(pairs[i].0.as_str(), key) {
            found = Some(pairs[i].1.clone());
        }
        i += 1;
    }
    assert(pairs@.take(pairs@.len() as int) =~= pairs@);
    found
}

pub fn without_pair(pairs: &Vec<(String, String)>, key: &str) -> (r: Vec<(String, String)>)
    ensures
        pairs_map(r@) == pairs_map(pairs@).remove(key@),
{
    let mut r: Vec<(String, String)> = Vec::new();
    let mut i: usize = 0;
    assert(pairs_map(r@) =~= pairs_map(pairs@.take(0)).remove(key@));
    while i < pairs.len()
        invariant
            i <= pairs.len(),
            pairs_map(r@) == pairs_map(pairs@.take(i as int)).remove(key@),
        decreases pairs.len() - i,
    {
        assert(pairs@.take(i + 1).drop_last() =~= pairs@.take(i as int));
        let ghost so_far = pairs_map(pairs@.take(i as int));
        if !same_text(pairs[i].0.as_str(), key) {
            let ghost kept = r@;
            r.push((pairs[i].0.clone(), pairs[i].1.clone()));
            assert(r@.drop_last() =~= kept);
        }
        assert(pairs_map(r@) =~= pairs_map(pairs@.take(i + 1)).remove(key@));
        i += 1;
    }
    assert(pairs@.take(pairs@.len() as int) =~= pairs@);
    r
}

/// A map from texts to texts.
pub struct TextMap {
    pub pairs: Vec<(String, String)>,
}

impl View for TextMap {
    type V = Map<Seq<char>, Seq<char>>;

    open spec fn view(&self) -> Map<Seq<char>, Seq<char>> {
        pairs_map(self.pairs@)
    }
}

/// What a map holds under a key.
pub open spec fn held(map: Map<Seq<char>, Seq<char>>, key: Seq<char>) -> Option<Seq<char>> {
    if map.contains_key(key) {
        Some(map[key])
    } else {
        None
    }
}

impl TextMap {
    pub fn new() -> (r: Self)
        ensures
            r@ == Map::<Seq<char>, Seq<char>>::empty(),
    {
        TextMap { pairs: Vec::new() }
    }

    pub fn get(&self, key: &str) -> (r: Option<String>)
        ensures
            opt_text(r) == held(self@, key@),
    {
        find_pair(&self.pairs, key)
    }

    pub fn insert(&mut self, key: &str, value: &str)
        ensures
            final(self)@ == old(self)@.insert(key@, value@),
    {
        let ghost before = self@;
        let mut pairs = without_pair(&self.pairs, key);
        let ghost kept = pairs@;
        pairs.push((key.to_owned(), value.to_owned()));
        assert(pairs@.drop_last() =~= kept);
        self.pairs = pairs;
        assert(self@ =~= before.insert(key@, value@));
    }

    pub fn contains_key(&self, key: &str) -> (r: bool)
        ensures
            r == self@.contains_key(key@),
    {
        find_pair(&self.pairs, key).is_some()
    }
}

} // verus!
