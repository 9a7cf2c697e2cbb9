//! A catalog that maps short identifiers to descriptions, and a set of
//! descriptions; both keep their entries in the order they were first added.

use vstd::prelude::*;
use vstd::string::*;

verus! {

broadcast use vstd::seq_lib::group_seq_properties;

/// What `str::to_lowercase` gives for a string.
pub uninterp spec fn lower_of(s: Seq<char>) -> Seq<char>;

/// Relies on `str::to_lowercase`: the lowercase form of `s`, which depends on
/// the characters of `s` alone.
#[verifier::external_body]
fn lowercase(s: &str) -> (r: String)
    ensures
        r@ == lower_of(s@),
{
    s.to_lowercase()
}

/// The map that results from inserting the pairs of `s` into `m`, one after
/// another, a later pair replacing the value of an earlier one of equal key.
pub open spec fn inserted_all(m: Map<Seq<char>, Seq<char>>, s: Seq<(Seq<char>, Seq<char>)>) -> Map<
    Seq<char>,
    Seq<char>,
>
    decreases s.len(),
{
    if s.len() == 0 {
        m
    } else {
        inserted_all(m, s.drop_last()).insert(s.last().0, s.last().1)
    }
}

/// No two pairs of `s` have the same key.
pub open spec fn keys_unique(s: Seq<(Seq<char>, Seq<char>)>) -> bool {
    forall|i: int, j: int| 0 <= i < s.len() && 0 <= j < s.len() && i != j ==> s[i].0 != s[j].0
}

/// The position of the first of `s` equal to `target`, if there is one.
pub open spec fn is_first_equal(s: Seq<Seq<char>>, target: Seq<char>, r: Option<usize>) -> bool {
    match r {
        Some(i) => i < s.len() && s[i as int] == target && forall|j: int| 0 <= j < i ==> s[j] != target,
        None => forall|j: int| 0 <= j < s.len() ==> s[j] != target,
    }
}

/// `r` is the first pair of `listing` whose description in lowercase is
/// `target`, or `None` when there is no such pair.
pub open spec fn is_first_folded_pair(
    listing: Seq<(Seq<char>, Seq<char>)>,
    target: Seq<char>,
    r: Option<(Seq<char>, Seq<char>)>,
) -> bool {
    let folded = listing.map_values(|e: (Seq<char>, Seq<char>)| lower_of(e.1));
    match r {
        Some(e) => exists|i: usize| is_first_equal(folded, target, Some(i)) && e == listing[i as int],
        None => is_first_equal(folded, target, None),
    }
}

/// `r` is the first of `listing` whose lowercase form is `target`, or `None`
/// when there is none.
pub open spec fn is_first_folded(listing: Seq<Seq<char>>, target: Seq<char>, r: Option<Seq<char>>) -> bool {
    let folded = listing.map_values(|s: Seq<char>| lower_of(s));
    match r {
        Some(s) => exists|i: usize| is_first_equal(folded, target, Some(i)) && s == listing[i as int],
        None => is_first_equal(folded, target, None),
    }
}

pub open spec fn pair_view(e: (String, String)) -> (Seq<char>, Seq<char>) {
    (e.0@, e.1@)
}

pub open spec fn string_view(s: String) -> Seq<char> {
    s@
}

pub open spec fn pair_option_view(r: Option<(String, String)>) -> Option<(Seq<char>, Seq<char>)> {
    match r {
        Some(e) => Some(pair_view(e)),
        None => None,
    }
}

pub open spec fn string_option_view(r: Option<String>) -> Option<Seq<char>> {
    match r {
        Some(s) => Some(s@),
        None => None,
    }
}

/// Inserting pairs of distinct keys one after another, and then looking up any
/// of those keys, gives back the value it was inserted with.
pub proof fn lemma_insert_then_lookup(s: Seq<(Seq<char>, Seq<char>)>)
    requires
        keys_unique(s),
    ensures
        forall|i: int|
            0 <= i < s.len() ==> #[trigger] inserted_all(Map::empty(), s).contains_key(s[i].0)
                && inserted_all(Map::empty(), s)[s[i].0] == s[i].1,
    decreases s.len(),
{
    if s.len() > 0 {
        let t = s.drop_last();
        lemma_insert_then_lookup(t);
        assert(inserted_all(Map::empty(), s) == inserted_all(Map::empty(), t).insert(s.last().0, s.last().1));
        assert forall|i: int| 0 <= i < s.len() implies #[trigger] inserted_all(Map::empty(), s).contains_key(s[i].0)
            && inserted_all(Map::empty(), s)[s[i].0] == s[i].1 by {
            if i < s.len() - 1 {
                assert(t[i] == s[i]);
                assert(s[i].0 != s.last().0);
            }
        }
    }
}

proof fn lemma_absent(s: Seq<(Seq<char>, Seq<char>)>, k: Seq<char>)
    requires
        forall|i: int| 0 <= i < s.len() ==> s[i].0 != k,
    ensures
        !inserted_all(Map::empty(), s).contains_key(k),
    decreases s.len(),
{
    if s.len() > 0 {
        lemma_absent(s.drop_last(), k);
    }
}

proof fn lemma_replace(s: Seq<(Seq<char>, Seq<char>)>, j: int, v: Seq<char>)
    requires
        keys_unique(s),
        0 <= j < s.len(),
    ensures
        inserted_all(Map::empty(), s.update(j, (s[j].0, v))) == inserted_all(Map::empty(), s).insert(s[j].0, v),
    decreases s.len(),
{
    let u = s.update(j, (s[j].0, v));
    if j == s.len() - 1 {
        assert(u.drop_last() =~= s.drop_last());
        assert(inserted_all(Map::empty(), u) =~= inserted_all(Map::empty(), s).insert(s[j].0, v));
    } else {
        let t = s.drop_last();
        assert(u.drop_last() =~= t.update(j, (t[j].0, v)));
        lemma_replace(t, j, v);
        assert(s[j].0 != s.last().0);
        assert(inserted_all(Map::empty(), u) =~= inserted_all(Map::empty(), s).insert(s[j].0, v));
    }
}

/// The position of the first string of `folded` equal to `target`.
pub fn first_equal(folded: &Vec<String>, target: &str) -> (r: Option<usize>)
    ensures
        is_first_equal(folded@.map_values(|s: String| string_view(s)), target@, r),
{
    let ghost views = folded@.map_values(|s: String| string_view(s));
    let t = String::from_str(target);
    let mut i: usize = 0;
    while i < folded.len()
        invariant
            i <= folded@.len(),
            views == folded@.map_values(|s: String| string_view(s)),
            t@ == target@,
            forall|j: int| 0 <= j < i ==> views[j] != target@,
        decreases folded@.len() - i,
    {
        assert(views[i as int] == folded@[i as int]@);
        if folded[i] == t {
            return Some(i);
        }
        i = i + 1;
    }
    None
}

/// The lowercase form of each string, in order.
fn lowercase_all(items: &Vec<String>) -> (r: Vec<String>)
    ensures
        r@.map_values(|s: String| string_view(s)) == items@.map_values(|s: String| lower_of(s@)),
{
    let mut r: Vec<String> = Vec::new();
    let mut i: usize = 0;
    while i < items.len()
        invariant
            i <= items@.len(),
            r@.len() == i,
            forall|j: int| 0 <= j < i ==> #[trigger] r@[j]@ == lower_of(items@[j]@),
        decreases items@.len() - i,
    {
        let l = lowercase(items[i].as_str());
        r.push(l);
        i = i + 1;
    }
    assert(r@.map_values(|s: String| string_view(s)) =~= items@.map_values(|s: String| lower_of(s@)));
    r
}

/// A map from identifiers to descriptions, each identifier at most once.
pub struct Catalog {
    entries: Vec<(String, String)>,
}

impl Catalog {
    /// The pairs in the order their keys were first inserted.
    pub closed spec fn listing(&self) -> Seq<(Seq<char>, Seq<char>)> {
        self.entries@.map_values(|e: (String, String)| pair_view(e))
    }

    pub open spec fn wf(&self) -> bool {
        keys_unique(self.listing())
    }

    pub open spec fn view(&self) -> Map<Seq<char>, Seq<char>> {
        inserted_all(Map::empty(), self.listing())
    }

    pub fn new() -> (r: Catalog)
        ensures
            r.wf(),
            r.listing() == Seq::<(Seq<char>, Seq<char>)>::empty(),
            r.view() == Map::<Seq<char>, Seq<char>>::empty(),
    {
        let r = Catalog { entries: Vec::new() };
        assert(r.listing() =~= Seq::<(Seq<char>, Seq<char>)>::empty());
        r
    }

    fn position(&self, key: &String) -> (r: Option<usize>)
        ensures
            is_first_equal(self.listing().map_values(|e: (Seq<char>, Seq<char>)| e.0), key@, r),
    {
        let ghost keys = self.listing().map_values(|e: (Seq<char>, Seq<char>)| e.0);
        let mut i: usize = 0;
        while i < self.entries.len()
            invariant
                i <= self.entries@.len(),
                keys.len() == self.entries@.len(),
                keys == self.listing().map_values(|e: (Seq<char>, Seq<char>)| e.0),
                forall|j: int| 0 <= j < i ==> keys[j] != key@,
            decreases self.entries@.len() - i,
        {
            if self.entries[i].0 == *key {
                assert(keys[i as int] == self.entries@[i as int].0@);
                return Some(i);
            }
            assert(keys[i as int] == self.entries@[i as int].0@);
            i = i + 1;
        }
        None
    }

    /// Sets the description of `key` to `value`. A new key goes after all
    /// others; a known key keeps its place.
    pub fn insert(&mut self, key: &str, value: &str)
        requires
            old(self).wf(),
        ensures
            final(self).wf(),
            final(self).view() == old(self).view().insert(key@, value@),
            old(self).view().contains_key(key@) ==> final(self).listing().len() == old(self).listing().len(),
            !old(self).view().contains_key(key@) ==> final(self).listing() == old(self).listing().push((key@, value@)),
    {
        let k = String::from_str(key);
        let v = String::from_str(value);
        let ghost before = self.listing();
        let found = self.position(&k);
        match found {
            Some(j) => {
                proof {
                    assert(before[j as int].0 == key@);
                    lemma_replace(before, j as int, value@);
                    lemma_insert_then_lookup(before);
                }
                self.entries.set(j, (k, v));
                assert(self.listing() =~= before.update(j as int, (key@, value@)));
            },
            None => {
                proof {
                    assert forall|i: int| 0 <= i < before.len() implies before[i].0 != key@ by {
                        assert(before.map_values(|e: (Seq<char>, Seq<char>)| e.0)[i] == before[i].0);
                    }
                    lemma_absent(before, key@);
                }
                self.entries.push((k, v));
                assert(self.listing() =~= before.push((key@, value@)));
                assert(self.listing().drop_last() =~= before);
            },
        }
    }

    /// The description of `key`, if the catalog holds it.
    pub fn get(&self, key: &str) -> (r: Option<&String>)
        requires
            self.wf(),
        ensures
            match r {
                Some(v) => self.view().contains_key(key@) && self.view()[key@] == v@,
                None => !self.view().contains_key(key@),
            },
    {
        let k = String::from_str(key);
        let found = self.position(&k);
        let ghost s = self.listing();
        match found {
            Some(j) => {
                proof {
                    assert(s[j as int] == pair_view(self.entries@[j as int]));
                    assert(s[j as int].0 == key@);
                    lemma_insert_then_lookup(s);
                    assert(inserted_all(Map::empty(), s).contains_key(s[j as int].0));
                }
                Some(&self.entries[j].1)
            },
            None => {
                proof {
                    assert forall|i: int| 0 <= i < s.len() implies s[i].0 != key@ by {
                        assert(s.map_values(|e: (Seq<char>, Seq<char>)| e.0)[i] == s[i].0);
                    }
                    lemma_absent(s, key@);
                }
                None
            },
        }
    }

    /// The first pair, in catalog order, whose description in lowercase is `target`.
    pub fn find_by_folded_value(&self, target: &str) -> (r: Option<(String, String)>)
        ensures
            is_first_folded_pair(self.listing(), target@, pair_option_view(r)),
    {
        let mut values: Vec<String> = Vec::new();
        let mut i: usize = 0;
        while i < self.entries.len()
            invariant
                i <= self.entries@.len(),
                values@.len() == i,
                forall|j: int| 0 <= j < i ==> #[trigger] values@[j]@ == self.entries@[j].1@,
            decreases self.entries@.len() - i,
        {
            values.push(self.entries[i].1.clone());
            i = i + 1;
        }
        let folded = lowercase_all(&values);
        let found = first_equal(&folded, target);
        let ghost a = folded@.map_values(|s: String| string_view(s));
        let ghost b = self.listing().map_values(|e: (Seq<char>, Seq<char>)| lower_of(e.1));
        assert(a =~= b) by {
            assert forall|j: int| 0 <= j < a.len() implies a[j] == b[j] by {
                assert(values@.map_values(|s: String| lower_of(s@))[j] == lower_of(values@[j]@));
            }
        }
        match found {
            Some(j) => Some((self.entries[j].0.clone(), self.entries[j].1.clone())),
            None => None,
        }
    }

    /// The pairs, in the order their keys were first inserted.
    pub fn entries(&self) -> (r: &Vec<(String, String)>)
        ensures
            r@.map_values(|e: (String, String)| pair_view(e)) == self.listing(),
    {
        &self.entries
    }
}

/// A set of descriptions, each at most once.
pub struct ModelSet {
    items: Vec<String>,
}

impl ModelSet {
    /// The descriptions in the order they were first inserted.
    pub closed spec fn listing(&self) -> Seq<Seq<char>> {
        self.items@.map_values(|s: String| string_view(s))
    }

    pub open spec fn wf(&self) -> bool {
        self.listing().no_duplicates()
    }

    pub open spec fn view(&self) -> Set<Seq<char>> {
        self.listing().to_set()
    }

    pub fn new() -> (r: ModelSet)
        ensures
            r.wf(),
            r.listing() == Seq::<Seq<char>>::empty(),
    {
        let r = ModelSet { items: Vec::new() };
        assert(r.listing() =~= Seq::<Seq<char>>::empty());
        r
    }

    /// Whether `item` is in the set.
    pub fn contains(&self, item: &str) -> (r: bool)
        ensures
            r == self.view().contains(item@),
    {
        let found = first_equal(&self.items, item);
        proof {
            let s = self.listing();
            assert(self.items@.map_values(|s: String| string_view(s)) == s);
            match found {
                Some(i) => {
                    assert(s.contains(item@));
                },
                None => {
                    assert(!s.contains(item@));
                },
            }
        }
        found.is_some()
    }

    /// Adds `item`, after all others, unless it is there already; says
    /// whether it was added.
    pub fn insert(&mut self, item: &str) -> (r: bool)
        requires
            old(self).wf(),
        ensures
            final(self).wf(),
            r == !old(self).view().contains(item@),
            final(self).view() == old(self).view().insert(item@),
            r ==> final(self).listing() == old(self).listing().push(item@),
            !r ==> final(self).listing() == old(self).listing(),
    {
        if self.contains(item) {
            assert(self.view().insert(item@) =~= self.view());
            false
        } else {
            let ghost before = self.listing();
            self.items.push(String::from_str(item));
            assert(self.listing() =~= before.push(item@));
            proof {
                before.lemma_push_to_set_commute(item@);
            }
            true
        }
    }

    /// The first description, in set order, whose lowercase form is `target`.
    pub fn find_folded(&self, target: &str) -> (r: Option<String>)
        ensures
            is_first_folded(self.listing(), target@, string_option_view(r)),
    {
        let folded = lowercase_all(&self.items);
        let found = first_equal(&folded, target);
        let ghost a = folded@.map_values(|s: String| string_view(s));
        let ghost b = self.listing().map_values(|s: Seq<char>| lower_of(s));
        assert(a =~= b) by {
            assert forall|j: int| 0 <= j < a.len() implies a[j] == b[j] by {
                assert(self.items@.map_values(|s: String| lower_of(s@))[j] == lower_of(self.items@[j]@));
            }
        }
        match found {
            Some(j) => Some(self.items[j].clone()),
            None => None,
        }
    }

    /// The descriptions, in the order they were first inserted.
    pub fn items(&self) -> (r: &Vec<String>)
        ensures
            r@.map_values(|s: String| string_view(s)) == self.listing(),
    {
        &self.items
    }
}

} // verus!
