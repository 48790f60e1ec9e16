//! The settings of one filter: an association list of names and values.

use crate::text::str_eq;
use vstd::prelude::*;

verus! {

broadcast use vstd::seq_lib::group_seq_properties;

/// The value that a list of settings gives to `key`: that of the last entry
/// with this name.
pub open spec fn lookup(s: Seq<(Seq<char>, Seq<char>)>, key: Seq<char>) -> Option<Seq<char>>
    decreases s.len(),
{
    if s.len() == 0 {
        None
    } else if s.last().0 == key {
        Some(s.last().1)
    } else {
        lookup(s.drop_last(), key)
    }
}

/// The settings of `s` under other names than `key`, in their order.
pub open spec fn without_key(s: Seq<(Seq<char>, Seq<char>)>, key: Seq<char>) -> Seq<
    (Seq<char>, Seq<char>),
> {
    s.filter(|e: (Seq<char>, Seq<char>)| e.0 != key)
}

/// Removing `key` from a list takes `key` away and leaves every other name
/// with its value.
pub proof fn lemma_without_key_lookup(
    s: Seq<(Seq<char>, Seq<char>)>,
    key: Seq<char>,
    other: Seq<char>,
)
    ensures
        lookup(without_key(s, key), key).is_none(),
        other != key ==> lookup(without_key(s, key), other) == lookup(s, other),
    decreases s.len(),
{
    reveal(Seq::filter);
    if s.len() > 0 {
        lemma_without_key_lookup(s.drop_last(), key, other);
        let f = without_key(s.drop_last(), key);
        if s.last().0 != key {
            assert(without_key(s, key) == f.push(s.last()));
            assert(f.push(s.last()).drop_last() =~= f);
            assert(f.push(s.last()).last() == s.last());
        } else {
            assert(without_key(s, key) == f);
        }
    } else {
        assert(without_key(s, key) =~= s);
    }
}

/// Named settings, as a configuration gives them for one filter.
#[derive(Debug, Clone, PartialEq, Eq, Default)]
pub struct Settings {
    pub entries: Vec<(String, String)>,
}

impl View for Settings {
    type V = Seq<(Seq<char>, Seq<char>)>;

    open spec fn view(&self) -> Seq<(Seq<char>, Seq<char>)> {
        self.entries@.map_values(|e: (String, String)| (e.0@, e.1@))
    }
}

impl Settings {
    /// No settings.
    pub fn new() -> (r: Self)
        ensures
            r@ == Seq::<(Seq<char>, Seq<char>)>::empty(),
    {
        let r = Settings { entries: Vec::new() };
        assert(r@ =~= Seq::empty());
        r
    }

    /// A copy of these settings.
    pub fn duplicate(&self) -> (r: Self)
        ensures
            r@ == self@,
    {
        let mut entries: Vec<(String, String)> = Vec::new();
        let mut i: usize = 0;
        while i < self.entries.len()
            invariant
                i <= self.entries@.len(),
                entries@.len() == i,
                forall|j: int|
                    0 <= j < i ==> (#[trigger] entries@[j]).0@ == self.entries@[j].0@
                        && entries@[j].1@ == self.entries@[j].1@,
            decreases self.entries@.len() - i,
        {
            entries.push((self.entries[i].0.clone(), self.entries[i].1.clone()));
            i += 1;
        }
        let r = Settings { entries };
        assert(r@ =~= self@);
        r
    }

    /// Whether there are no settings.
    pub fn is_empty(&self) -> (r: bool)
        ensures
            r == (self@.len() == 0),
    {
        self.entries.len() == 0
    }

    /// Gives `key` the value `value`. An earlier value of `key` is replaced.
    pub fn insert(&mut self, key: String, value: String)
        ensures
            final(self)@ == without_key(old(self)@, key@).push((key@, value@)),
            lookup(final(self)@, key@) == Some(value@),
            forall|other: Seq<char>|
                other != key@ ==> lookup(final(self)@, other) == lookup(old(self)@, other),
    {
        let _ = self.remove(key.as_str());
        let ghost mid = self@;
        self.entries.push((key, value));
        proof {
            assert(self@ =~= mid.push((key@, value@)));
            assert(self@.drop_last() =~= mid);
            assert forall|other: Seq<char>| other != key@ implies lookup(self@, other) == lookup(
                old(self)@,
                other,
            ) by {
                lemma_without_key_lookup(old(self)@, key@, other);
            }
        }
    }

    /// The value of `key`, if it has one.
    pub fn get(&self, key: &str) -> (r: Option<&String>)
        ensures
            match r {
                Some(v) => lookup(self@, key@) == Some(v@),
                None => lookup(self@, key@).is_none(),
            },
    {
        let mut i: usize = self.entries.len();
        assert(self@.take(i as int) =~= self@);
        while i > 0
            invariant
                i <= self.entries.len(),
                lookup(self@, key@) == lookup(self@.take(i as int), key@),
            decreases i,
        {
            let ghost cur = self@.take(i as int);
            assert(cur.last() == self@[i - 1]);
            assert(cur.drop_last() =~= self@.take(i - 1));
            if str_eq(self.entries[i - 1].0.as_str(), key) {
                return Some(&self.entries[i - 1].1);
            }
            i -= 1;
        }
        None
    }

    /// Takes `key` out of the settings and hands back the value it had.
    pub fn remove(&mut self, key: &str) -> (r: Option<String>)
        ensures
            final(self)@ == without_key(old(self)@, key@),
            match r {
                Some(v) => lookup(old(self)@, key@) == Some(v@),
                None => lookup(old(self)@, key@).is_none(),
            },
    {
        let mut all: Vec<(String, String)> = Vec::new();
        std::mem::swap(&mut self.entries, &mut all);
        let ghost before = all@.map_values(|e: (String, String)| (e.0@, e.1@));
        let ghost keep = |e: (Seq<char>, Seq<char>)| e.0 != key@;
        let mut found: Option<String> = None;
        let mut kept: Vec<(String, String)> = Vec::new();
        proof {
            assert(kept@.map_values(|e: (String, String)| (e.0@, e.1@)) =~= Seq::empty());
            reveal(Seq::filter);
            assert(before.take(0).filter(keep) =~= Seq::empty());
        }
        for e in it: all
            invariant
                before == old(self)@,
                keep == |e: (Seq<char>, Seq<char>)| e.0 != key@,
                it.seq().map_values(|e: (String, String)| (e.0@, e.1@)) == before,
                kept@.map_values(|e: (String, String)| (e.0@, e.1@)) == before.take(
                    it.index() as int,
                ).filter(keep),
                match found {
                    Some(v) => lookup(before.take(it.index() as int), key@) == Some(v@),
                    None => lookup(before.take(it.index() as int), key@).is_none(),
                },
        {
            proof {
                let k = it.index() as int;
                assert(before.take(k + 1) =~= before.take(k).push(before[k]));
                assert(before.take(k + 1).drop_last() =~= before.take(k));
                before.take(k).lemma_filter_push(before[k], keep);
                assert(before[k] == (e.0@, e.1@));
            }
            if str_eq(e.0.as_str(), key) {
                found = Some(e.1);
            } else {
                let ghost prev = kept@.map_values(|e: (String, String)| (e.0@, e.1@));
                kept.push(e);
                assert(kept@.map_values(|e: (String, String)| (e.0@, e.1@)) =~= prev.push(
                    (e.0@, e.1@),
                ));
            }
        }
        assert(before.take(before.len() as int) =~= before);
        self.entries = kept;
        found
    }
}

} // verus!
