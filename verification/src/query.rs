//! The decoded query and its lookups.

use std::borrow::Cow;
use vstd::prelude::*;
use vstd::std_specs::cmp::PartialEqSpecImpl;
use crate::decoding::{decode_form, form_pairs, same_text};

verus! {

/// The values that `pairs` gives for the name `key`, in the order in which
/// they occur.
pub open spec fn values_of(pairs: Seq<(Seq<char>, Seq<char>)>, key: Seq<char>) -> Seq<Seq<char>> {
    pairs.filter_map(
        |pair: (Seq<char>, Seq<char>)|
            if pair.0 == key {
                Some(pair.1)
            } else {
                None
            },
    )
}

/// Whether some pair of `pairs` has the name `key`.
pub open spec fn has_name(pairs: Seq<(Seq<char>, Seq<char>)>, key: Seq<char>) -> bool {
    exists|i: int| 0 <= i < pairs.len() && (#[trigger] pairs[i]).0 == key
}

/// The mapping that a sequence of name/value pairs stands for: each name
/// that occurs, with all the values given for it, in their order.
pub open spec fn grouped(pairs: Seq<(Seq<char>, Seq<char>)>) -> Map<Seq<char>, Seq<Seq<char>>> {
    Map::new(|key: Seq<char>| has_name(pairs, key), |key: Seq<char>| values_of(pairs, key))
}

/// The mapping that a raw query component decodes to; the empty one where
/// there is no component.
pub open spec fn decoded(raw: Option<Seq<char>>) -> Map<Seq<char>, Seq<Seq<char>>> {
    match raw {
        Some(text) => grouped(form_pairs(text)),
        None => Map::empty(),
    }
}

/// One more pair adds its value behind those of its name and leaves the
/// values of every other name as they were.
pub proof fn lemma_values_of_push(
    pairs: Seq<(Seq<char>, Seq<char>)>,
    pair: (Seq<char>, Seq<char>),
    key: Seq<char>,
)
    ensures
        values_of(pairs.push(pair), key) == if pair.0 == key {
            values_of(pairs, key).push(pair.1)
        } else {
            values_of(pairs, key)
        },
        has_name(pairs.push(pair), key) <==> has_name(pairs, key) || pair.0 == key,
{
    let longer = pairs.push(pair);
    assert(longer.drop_last() =~= pairs);
    assert(longer.last() == pair);
    if pair.0 == key {
        assert(values_of(pairs, key) + seq![pair.1] =~= values_of(pairs, key).push(pair.1));
    }
    if has_name(pairs, key) {
        let i = choose|i: int| 0 <= i < pairs.len() && (#[trigger] pairs[i]).0 == key;
        assert(longer[i].0 == key);
    }
    if pair.0 == key {
        assert(longer[pairs.len() as int].0 == key);
    }
    if has_name(longer, key) {
        let i = choose|i: int| 0 <= i < longer.len() && (#[trigger] longer[i]).0 == key;
        if i < pairs.len() {
            assert(pairs[i].0 == key);
        }
    }
}

/// A name has values exactly when some pair carries it.
pub proof fn lemma_values_of_named(pairs: Seq<(Seq<char>, Seq<char>)>, key: Seq<char>)
    ensures
        has_name(pairs, key) <==> values_of(pairs, key).len() > 0,
    decreases pairs.len(),
{
    if pairs.len() > 0 {
        let shorter = pairs.drop_last();
        assert(shorter.push(pairs.last()) =~= pairs);
        lemma_values_of_named(shorter, key);
        lemma_values_of_push(shorter, pairs.last(), key);
    }
}

/// Grouping depends only on the values of each name, in their order: pairs
/// that are written out again from a mapping, name by name in any order of
/// the names, group to that mapping again.
pub proof fn lemma_regrouping(
    pairs: Seq<(Seq<char>, Seq<char>)>,
    again: Seq<(Seq<char>, Seq<char>)>,
)
    requires
        forall|key: Seq<char>|
            grouped(pairs).contains_key(key) ==> #[trigger] values_of(again, key) == grouped(
                pairs,
            )[key],
        forall|key: Seq<char>| #[trigger] has_name(again, key) ==> grouped(pairs).contains_key(key),
    ensures
        grouped(again) == grouped(pairs),
{
    assert forall|key: Seq<char>| #[trigger] has_name(pairs, key) implies has_name(again, key) by {
        lemma_values_of_named(pairs, key);
        lemma_values_of_named(again, key);
        assert(grouped(pairs).contains_key(key));
    }
    assert(grouped(again) =~= grouped(pairs));
}

/// Whether some entry has the name `key`.
spec fn has_entry(entries: Seq<(Seq<char>, Seq<Seq<char>>)>, key: Seq<char>) -> bool {
    exists|j: int| 0 <= j < entries.len() && (#[trigger] entries[j]).0 == key
}

/// The place of an entry with the name `key`.
spec fn entry_index(entries: Seq<(Seq<char>, Seq<Seq<char>>)>, key: Seq<char>) -> int {
    choose|j: int| 0 <= j < entries.len() && (#[trigger] entries[j]).0 == key
}

/// No two entries have the same name.
spec fn distinct_names(entries: Seq<(Seq<char>, Seq<Seq<char>>)>) -> bool {
    forall|i: int, j: int|
        0 <= i < j < entries.len() ==> (#[trigger] entries[i]).0 != (#[trigger] entries[j]).0
}

/// The mapping that a sequence of entries with distinct names stands for.
spec fn entries_map(entries: Seq<(Seq<char>, Seq<Seq<char>>)>) -> Map<
    Seq<char>,
    Seq<Seq<char>>,
> {
    Map::new(
        |key: Seq<char>| has_entry(entries, key),
        |key: Seq<char>| entries[entry_index(entries, key)].1,
    )
}

/// Among entries with distinct names, the entry at `j` is the one that the
/// mapping holds for its name.
proof fn lemma_entry_at(entries: Seq<(Seq<char>, Seq<Seq<char>>)>, j: int)
    requires
        distinct_names(entries),
        0 <= j < entries.len(),
    ensures
        entries_map(entries).contains_key(entries[j].0),
        entries_map(entries)[entries[j].0] == entries[j].1,
{
    let key = entries[j].0;
    assert(has_entry(entries, key));
    let chosen = entry_index(entries, key);
    assert(entries[chosen].0 == key);
    assert(chosen == j);
}

/// The parameters of a query string: each name that was given, with the
/// values given for it in their order. The order of the names among
/// themselves is no part of the value.
#[derive(Debug)]
pub struct Query {
    entries: Vec<(String, Vec<String>)>,
}

impl View for Query {
    type V = Map<Seq<char>, Seq<Seq<char>>>;

    closed spec fn view(&self) -> Map<Seq<char>, Seq<Seq<char>>> {
        entries_map(self.entries.deep_view())
    }
}

/// The place of the entry named `key`, if there is one.
fn find_entry(entries: &Vec<(String, Vec<String>)>, key: &str) -> (found: Option<usize>)
    ensures
        match found {
            Some(j) => j < entries.len() && entries.deep_view()[j as int].0 == key@,
            None => !has_entry(entries.deep_view(), key@),
        },
{
    let mut j: usize = 0;
    while j < entries.len()
        invariant
            j <= entries.len(),
            forall|i: int| 0 <= i < j ==> (#[trigger] entries.deep_view()[i]).0 != key@,
        decreases entries.len() - j,
    {
        if same_text(entries[j].0.as_str(), key) {
            return Some(j);
        }
        j += 1;
    }
    None
}

/// Whether two slices hold the same strings in the same order.
fn same_values(left: &[String], right: &[String]) -> (same: bool)
    ensures
        same == (left.deep_view() == right.deep_view()),
{
    if left.len() != right.len() {
        proof {
            assert(left.deep_view().len() != right.deep_view().len());
        }
        return false;
    }
    let mut i: usize = 0;
    while i < left.len()
        invariant
            left.len() == right.len(),
            i <= left.len(),
            forall|m: int| 0 <= m < i ==> left.deep_view()[m] == right.deep_view()[m],
        decreases left.len() - i,
    {
        if !same_text(left[i].as_str(), right[i].as_str()) {
            proof {
                assert(left.deep_view()[i as int] != right.deep_view()[i as int]);
            }
            return false;
        }
        i += 1;
    }
    proof {
        assert(left.deep_view() =~= right.deep_view());
    }
    true
}

impl Query {
    /// Every name is held once.
    #[verifier::type_invariant]
    spec fn well_formed(&self) -> bool {
        distinct_names(self.entries.deep_view())
    }

    /// Groups decoded name/value pairs by name. A name that occurs more than
    /// once gets all its values, in the order in which they occur.
    pub fn from_pairs(pairs: Vec<(String, String)>) -> (query: Query)
        ensures
            query@ == grouped(pairs.deep_view()),
    {
        let mut entries: Vec<(String, Vec<String>)> = Vec::new();
        let ghost all = pairs.deep_view();
        let mut i: usize = 0;
        while i < pairs.len()
            invariant
                i <= pairs.len(),
                all == pairs.deep_view(),
                distinct_names(entries.deep_view()),
                forall|j: int|
                    0 <= j < entries.len() ==> (#[trigger] entries.deep_view()[j]).1 == values_of(
                        all.take(i as int),
                        entries.deep_view()[j].0,
                    ),
                forall|key: Seq<char>|
                    has_name(all.take(i as int), key) <==> has_entry(entries.deep_view(), key),
            decreases pairs.len() - i,
        {
            let name = pairs[i].0.clone();
            let value = pairs[i].1.clone();
            let ghost before = entries.deep_view();
            let ghost seen = all.take(i as int);
            let ghost added = name@;
            proof {
                assert(all.take(i + 1) =~= seen.push(all[i as int]));
                assert(all[i as int] == (name@, value@));
                assert forall|key: Seq<char>| true implies {
                    &&& #[trigger] values_of(all.take(i + 1), key) == if name@ == key {
                        values_of(seen, key).push(value@)
                    } else {
                        values_of(seen, key)
                    }
                    &&& has_name(all.take(i + 1), key) <==> has_name(seen, key) || name@ == key
                } by {
                    lemma_values_of_push(seen, all[i as int], key);
                }
                lemma_values_of_named(seen, name@);
            }
            match find_entry(&entries, name.as_str()) {
                Some(at) => {
                    entries[at].1.push(value);
                    proof {
                        let after = entries.deep_view();
                        assert(after.len() == before.len());
                        assert(after[at as int].0 == name@);
                        assert(after[at as int].1 =~= before[at as int].1.push(value@));
                        assert forall|j: int| 0 <= j < after.len() && j != at implies after[j]
                            == before[j] by {}
                        assert(has_entry(before, name@));
                    }
                },
                None => {
                    let mut values: Vec<String> = Vec::new();
                    values.push(value);
                    proof {
                        assert(values.deep_view() =~= seq![value@]);
                    }
                    entries.push((name, values));
                    proof {
                        let after = entries.deep_view();
                        assert(after =~= before.push((name@, seq![value@])));
                        assert(after[before.len() as int].0 == name@);
                    }
                },
            }
            proof {
                let after = entries.deep_view();
                assert(has_entry(after, added));
                assert(forall|j: int|
                    0 <= j < before.len() ==> (#[trigger] after[j]).0 == before[j].0);
                assert forall|key: Seq<char>|
                    has_name(all.take(i + 1), key) <==> has_entry(after, key) by {
                    lemma_values_of_push(seen, all[i as int], key);
                    assert(has_name(seen, key) <==> has_entry(before, key));
                    if has_entry(before, key) {
                        let j = entry_index(before, key);
                        assert(after[j].0 == key);
                    }
                    if has_entry(after, key) && key != added {
                        let j = entry_index(after, key);
                        assert(before[j].0 == key);
                    }
                }
            }
            i += 1;
        }
        let query = Query { entries };
        proof {
            assert(all.take(i as int) =~= all);
            let held = query.entries.deep_view();
            assert forall|key: Seq<char>| has_entry(held, key) implies entries_map(held)[key]
                == values_of(all, key) by {
                let j = entry_index(held, key);
                lemma_entry_at(held, j);
            }
            assert(query@ =~= grouped(all));
        }
        query
    }

    /// Decodes a raw query component. No component gives the empty query;
    /// one that is there is decoded as form data and grouped by name.
    pub fn decode(raw: Option<String>) -> (query: Query)
        ensures
            query@ == decoded(raw.deep_view()),
    {
        match raw {
            Some(text) => Query::from_pairs(decode_form(text.as_str())),
            None => {
                let query = Query::from_pairs(Vec::new());
                proof {
                    assert(query@ =~= Map::empty());
                }
                query
            },
        }
    }

    /// The values given for `key`, in their order, or `None` where the name
    /// was never given.
    pub fn get(&self, key: &str) -> (found: Option<&[String]>)
        ensures
            found.deep_view() == self@.get(key@),
    {
        proof {
            use_type_invariant(self);
        }
        match find_entry(&self.entries, key) {
            Some(at) => {
                proof {
                    lemma_entry_at(self.entries.deep_view(), at as int);
                }
                Some(self.entries[at].1.as_slice())
            },
            None => None,
        }
    }

    /// The values given for `key`, as they are stored, or the one value
    /// `default` where the name was never given.
    pub fn get_or<'a>(&'a self, key: &str, default: &str) -> (values: Cow<'a, [String]>)
        ensures
            values.deep_view() == if self@.contains_key(key@) {
                self@[key@]
            } else {
                seq![default@]
            },
            values is Borrowed <==> self@.contains_key(key@),
    {
        match self.get(key) {
            Some(stored) => Cow::Borrowed(stored),
            None => {
                let mut fresh: Vec<String> = Vec::new();
                fresh.push(default.to_owned());
                proof {
                    assert(fresh.deep_view() =~= seq![default@]);
                }
                Cow::Owned(fresh)
            },
        }
    }
}

impl Query {
    /// Whether every name of `self` has the same values in `other`.
    fn within(&self, other: &Query) -> (all: bool)
        ensures
            all == self@.submap_of(other@),
    {
        proof {
            use_type_invariant(self);
        }
        let ghost held = self.entries.deep_view();
        let mut j: usize = 0;
        while j < self.entries.len()
            invariant
                j <= self.entries.len(),
                held == self.entries.deep_view(),
                distinct_names(held),
                forall|m: int|
                    0 <= m < j ==> other@.contains_key((#[trigger] held[m]).0) && other@[held[m].0]
                        == held[m].1,
            decreases self.entries.len() - j,
        {
            proof {
                lemma_entry_at(held, j as int);
            }
            let same = match other.get(self.entries[j].0.as_str()) {
                Some(values) => same_values(self.entries[j].1.as_slice(), values),
                None => false,
            };
            if !same {
                return false;
            }
            j += 1;
        }
        proof {
            assert forall|key: Seq<char>| #[trigger] self@.dom().contains(key) implies other@.dom().contains(key)
                && self@[key] == other@[key] by {
                let m = entry_index(held, key);
                lemma_entry_at(held, m);
            }
        }
        true
    }
}

impl PartialEq for Query {
    /// Two queries are equal when they hold the same names, each with the
    /// same values in the same order.
    fn eq(&self, other: &Query) -> (same: bool) {
        let same = self.within(other) && other.within(self);
        proof {
            if same {
                assert(self@ =~= other@);
            }
        }
        same
    }
}

impl PartialEqSpecImpl for Query {
    open spec fn obeys_eq_spec() -> bool {
        true
    }

    open spec fn eq_spec(&self, other: &Query) -> bool {
        self@ == other@
    }
}

impl Eq for Query {

}

} // verus!
