//! Ordering people by age, stably, and finding the youngest.

use vstd::prelude::*;
use crate::person::Person;

verus! {

broadcast use vstd::seq_lib::group_seq_properties;

/// The people of `s` whose age is `a`, in the order of `s`.
pub open spec fn with_age(s: Seq<Person>, a: u8) -> Seq<Person> {
    s.filter(|p: Person| p.age == a)
}

/// Ages never decrease along `s`.
pub open spec fn ages_ascending(s: Seq<Person>) -> bool {
    forall|i: int, j: int| 0 <= i <= j < s.len() ==> s[i].age <= s[j].age
}

/// `r` is `s` sorted by age, stably: ages ascend along `r`, and for every age
/// the people of that age stand in `r` in the order they stand in `s`.
pub open spec fn stably_sorted_by_age(s: Seq<Person>, r: Seq<Person>) -> bool {
    &&& ages_ascending(r)
    &&& forall|a: u8| #[trigger] with_age(r, a) == with_age(s, a)
}

/// `p` is the first person of `s` of the least age in `s`.
pub open spec fn is_first_youngest(s: Seq<Person>, p: Person) -> bool {
    exists|i: int|
        0 <= i < s.len() && s[i] == p
        && (forall|j: int| 0 <= j < s.len() ==> s[j].age >= p.age)
        && (forall|j: int| 0 <= j < i ==> s[j].age > p.age)
}

proof fn lemma_member_has_group(r: Seq<Person>, i: int)
    requires
        0 <= i < r.len(),
    ensures
        with_age(r, r[i].age).contains(r[i]),
{
    r.lemma_filter_contains(|q: Person| q.age == r[i].age, i);
}

proof fn lemma_group_member(r: Seq<Person>, a: u8, x: Person)
    requires
        with_age(r, a).contains(x),
    ensures
        x.age == a,
        exists|i: int| 0 <= i < r.len() && r[i] == x,
{
    let k = choose|k: int| 0 <= k < with_age(r, a).len() && with_age(r, a)[k] == x;
    r.lemma_filter_pred(|q: Person| q.age == a, k);
    r.lemma_filter_contains_rev(|q: Person| q.age == a, x);
}

/// Two sequences, each ordered by age, that hold the same people of each age
/// in the same order, are equal.
proof fn lemma_same_groups_equal(r1: Seq<Person>, r2: Seq<Person>)
    requires
        ages_ascending(r1),
        ages_ascending(r2),
        forall|a: u8| #[trigger] with_age(r1, a) == with_age(r2, a),
    ensures
        r1 == r2,
    decreases r1.len(),
{
    if r1.len() == 0 || r2.len() == 0 {
        if r1.len() > 0 {
            lemma_member_has_group(r1, 0);
            assert(with_age(r2, r1[0].age) == with_age(r1, r1[0].age));
            lemma_group_member(r2, r1[0].age, r1[0]);
        }
        if r2.len() > 0 {
            lemma_member_has_group(r2, 0);
            assert(with_age(r1, r2[0].age) == with_age(r2, r2[0].age));
            lemma_group_member(r1, r2[0].age, r2[0]);
        }
        assert(r1 =~= r2);
    } else {
        let x1 = r1.last();
        let x2 = r2.last();
        let m = x1.age;
        lemma_member_has_group(r2, r2.len() - 1);
        assert(with_age(r1, x2.age) == with_age(r2, x2.age));
        lemma_group_member(r1, x2.age, x2);
        lemma_member_has_group(r1, r1.len() - 1);
        assert(with_age(r2, m) == with_age(r1, m));
        lemma_group_member(r2, m, x1);
        assert(x2.age == m);
        let d1 = r1.drop_last();
        let d2 = r2.drop_last();
        assert(r1 =~= d1.push(x1));
        assert(r2 =~= d2.push(x2));
        assert forall|a: u8| #[trigger] with_age(d1, a) == with_age(d2, a) by {
            d1.lemma_filter_push(x1, |q: Person| q.age == a);
            d2.lemma_filter_push(x2, |q: Person| q.age == a);
            assert(with_age(r1, a) == with_age(r2, a));
            if a == m {
                assert(with_age(d1, a) =~= with_age(r1, a).drop_last());
                assert(with_age(d2, a) =~= with_age(r2, a).drop_last());
            }
        }
        d1.lemma_filter_push(x1, |q: Person| q.age == m);
        d2.lemma_filter_push(x2, |q: Person| q.age == m);
        assert(with_age(r1, m) == with_age(d1, m).push(x1));
        assert(with_age(r2, m) == with_age(d2, m).push(x2));
        assert(with_age(r1, m).last() == x1);
        assert(with_age(r2, m).last() == x2);
        lemma_same_groups_equal(d1, d2);
    }
}

/// Ordering people stably by age has exactly one outcome: any two sequences
/// that both order `s` stably by age are equal, so sorting the same people
/// always yields the same order.
pub proof fn lemma_stable_sort_unique(s: Seq<Person>, r1: Seq<Person>, r2: Seq<Person>)
    requires
        stably_sorted_by_age(s, r1),
        stably_sorted_by_age(s, r2),
    ensures
        r1 == r2,
{
    assert forall|a: u8| #[trigger] with_age(r1, a) == with_age(r2, a) by {
        assert(with_age(r1, a) == with_age(s, a));
        assert(with_age(r2, a) == with_age(s, a));
    }
    lemma_same_groups_equal(r1, r2);
}

proof fn lemma_insert_keeps_groups(out: Seq<Person>, j: int, p: Person, a: u8)
    requires
        0 <= j <= out.len(),
        forall|k: int| j <= k < out.len() ==> out[k].age > p.age,
    ensures
        with_age(out.insert(j, p), a) == if p.age == a {
            with_age(out, a).push(p)
        } else {
            with_age(out, a)
        },
{
    let pred = |q: Person| q.age == a;
    let lo = out.subrange(0, j);
    let hi = out.subrange(j, out.len() as int);
    assert(out =~= lo + hi);
    assert(out.insert(j, p) =~= lo.push(p) + hi);
    Seq::filter_distributes_over_add(lo, hi, pred);
    Seq::filter_distributes_over_add(lo.push(p), hi, pred);
    lo.lemma_filter_push(p, pred);
    if p.age == a {
        assert(hi.all(|q: Person| !pred(q)));
        hi.lemma_all_neg_filter_empty(pred);
        assert(hi.filter(pred) =~= Seq::<Person>::empty());
    }
}

/// Sorts people by age, ascending; people of equal age keep their order.
pub fn sort_by_age(persons: Vec<Person>) -> (r: Vec<Person>)
    ensures
        stably_sorted_by_age(persons@, r@),
        r@.len() == persons@.len(),
{
    let ghost input = persons@;
    let n: usize = persons.len();
    let mut rest = persons;
    let mut out: Vec<Person> = Vec::new();
    let mut k: usize = 0;
    while rest.len() > 0
        invariant
            k + rest@.len() == input.len(),
            input.len() == n,
            rest@ == input.subrange(k as int, input.len() as int),
            ages_ascending(out@),
            out@.len() == k,
            forall|a: u8| #[trigger] with_age(out@, a) == with_age(input.subrange(0, k as int), a),
        decreases rest@.len(),
    {
        let p = rest.remove(0);
        let mut j: usize = 0;
        while j < out.len() && out[j].age <= p.age
            invariant
                j <= out@.len(),
                forall|i: int| 0 <= i < j ==> out@[i].age <= p.age,
            decreases out@.len() - j,
        {
            j = j + 1;
        }
        assert(forall|i: int| j <= i < out@.len() ==> out@[i].age > p.age);
        let ghost before = out@;
        out.insert(j, p);
        proof {
            assert(input.subrange(0, k + 1) =~= input.subrange(0, k as int).push(p));
            assert forall|a: u8| #[trigger] with_age(out@, a) == with_age(input.subrange(0, k + 1), a) by {
                lemma_insert_keeps_groups(before, j as int, p, a);
                input.subrange(0, k as int).lemma_filter_push(p, |q: Person| q.age == a);
            }
        }
        k = k + 1;
    }
    assert(input.subrange(0, k as int) =~= input);
    out
}

proof fn lemma_first_of_group(s: Seq<Person>, a: u8)
    requires
        with_age(s, a).len() > 0,
    ensures
        exists|i: int|
            0 <= i < s.len() && s[i] == with_age(s, a)[0] && s[i].age == a
            && (forall|j: int| 0 <= j < i ==> s[j].age != a),
    decreases s.len(),
{
    let pred = |q: Person| q.age == a;
    if s.len() == 0 {
        assert(with_age(s, a).len() == 0) by {
            reveal(Seq::filter);
        }
    } else {
        let t = s.drop_first();
        assert(s =~= seq![s[0]] + t);
        t.lemma_filter_prepend(s[0], pred);
        if s[0].age == a {
            assert(s[0] == with_age(s, a)[0]);
        } else {
            assert(with_age(s, a) == with_age(t, a));
            lemma_first_of_group(t, a);
            let i = choose|i: int|
                0 <= i < t.len() && t[i] == with_age(t, a)[0] && t[i].age == a
                && (forall|j: int| 0 <= j < i ==> t[j].age != a);
            assert(s[i + 1] == t[i]);
            assert forall|j: int| 0 <= j < i + 1 implies s[j].age != a by {
                if j > 0 {
                    assert(s[j] == t[j - 1]);
                }
            }
        }
    }
}

/// The first of the youngest people, as the head of the stably sorted order;
/// `None` when there is nobody.
pub fn youngest(persons: Vec<Person>) -> (r: Option<Person>)
    ensures
        r is None <==> persons@.len() == 0,
        r matches Some(p) ==> is_first_youngest(persons@, p),
{
    let ghost input = persons@;
    let mut sorted = sort_by_age(persons);
    if sorted.len() == 0 {
        return None;
    }
    let ghost r = sorted@;
    let p = sorted.remove(0);
    proof {
        let m = p.age;
        let pm = |q: Person| q.age == m;
        assert forall|j: int| 0 <= j < input.len() implies input[j].age >= m by {
            let b = input[j].age;
            let pb = |q: Person| q.age == b;
            input.lemma_filter_contains(pb, j);
            assert(with_age(r, b).contains(input[j]));
            r.lemma_filter_contains_rev(pb, input[j]);
            let x = choose|x: int| 0 <= x < r.len() && r[x] == input[j];
            assert(r[0].age <= r[x].age);
        }
        assert(r =~= seq![r[0]] + r.drop_first());
        r.drop_first().lemma_filter_prepend(r[0], pm);
        assert(with_age(r, m)[0] == p);
        assert(with_age(input, m) == with_age(r, m));
        lemma_first_of_group(input, m);
        let i = choose|i: int|
            0 <= i < input.len() && input[i] == with_age(input, m)[0] && input[i].age == m
            && (forall|j: int| 0 <= j < i ==> input[j].age != m);
        assert(input[i] == p);
    }
    Some(p)
}

} // verus!
