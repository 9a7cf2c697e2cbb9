//! Lines and lists made from sequences of people.

use vstd::prelude::*;
use vstd::string::*;
use crate::person::{
    birth_year, debug_list_text, debug_text, friendly_text, is_simple_leap_year,
    simple_leap_year, year_of_birth_in, Person,
};
use crate::text::{bool_string, bool_text, decimal, decimal_text, joined};

verus! {

broadcast use vstd::seq_lib::group_seq_properties;

/// "Person {index}: {friendly form}"
pub open spec fn indexed_line(index: nat, name: Seq<char>, age: u8) -> Seq<char> {
    "Person "@ + decimal(index) + ": "@ + friendly_text(name, age)
}

/// "{friendly form}. Born in a leap year?: {true|false}", the year of birth
/// being estimated from `current_year`.
pub open spec fn leap_line(name: Seq<char>, age: u8, current_year: int) -> Seq<char> {
    friendly_text(name, age) + ". Born in a leap year?: "@
        + bool_text(is_simple_leap_year(birth_year(current_year, age)))
}

/// "{name} is the youngest person at {age} years old"
pub open spec fn youngest_text(name: Seq<char>, age: u8) -> Seq<char> {
    name + " is the youngest person at "@ + decimal(age as nat) + " years old"@
}

/// "Youngest age: {first}, oldest age: {last}"
pub open spec fn extremes_text(ages: (u8, u8, u8)) -> Seq<char> {
    "Youngest age: "@ + decimal(ages.0 as nat) + ", oldest age: "@ + decimal(ages.2 as nat)
}

/// "Middle age: {second}"
pub open spec fn middle_text(ages: (u8, u8, u8)) -> Seq<char> {
    "Middle age: "@ + decimal(ages.1 as nat)
}

/// Whether the year of birth estimated from `current_year` is after `year`.
pub open spec fn born_after_year(p: Person, current_year: int, year: u16) -> bool {
    birth_year(current_year, p.age) > year
}

/// The name and age of each person of `s` born after `year`, in order.
pub open spec fn born_after_pairs(s: Seq<Person>, current_year: int, year: u16) -> Seq<(Seq<char>, u8)> {
    s.filter(|p: Person| born_after_year(p, current_year, year)).map_values(
        |p: Person| (p.name@, p.age),
    )
}

/// One line per person, with the person's position counted from zero.
pub fn indexed_lines(persons: &Vec<Person>) -> (r: Vec<String>)
    ensures
        r@.len() == persons@.len(),
        forall|i: int| 0 <= i < r@.len() ==> #[trigger] r@[i]@ == indexed_line(i as nat, persons@[i].name@, persons@[i].age),
{
    let mut r: Vec<String> = Vec::new();
    let mut i: usize = 0;
    while i < persons.len()
        invariant
            i <= persons@.len(),
            r@.len() == i,
            forall|k: int| 0 <= k < i ==> #[trigger] r@[k]@ == indexed_line(k as nat, persons@[k].name@, persons@[k].age),
        decreases persons@.len() - i,
    {
        let mut line = String::from_str("Person ");
        let n = decimal_text(i as u64);
        line.append(n.as_str());
        line.append(": ");
        let f = persons[i].friendly();
        line.append(f.as_str());
        r.push(line);
        i = i + 1;
    }
    r
}

/// Pairs names with ages by position, up to the shorter of the two.
pub fn zip_people(names: &Vec<&str>, ages: &Vec<u8>) -> (r: Vec<Person>)
    ensures
        r@.len() == if names@.len() <= ages@.len() { names@.len() } else { ages@.len() },
        forall|i: int| 0 <= i < r@.len() ==> (#[trigger] r@[i]).name@ == names@[i]@ && r@[i].age == ages@[i],
{
    let n: usize = if names.len() <= ages.len() { names.len() } else { ages.len() };
    let mut r: Vec<Person> = Vec::new();
    let mut i: usize = 0;
    while i < n
        invariant
            n <= names@.len(),
            n <= ages@.len(),
            n == if names@.len() <= ages@.len() { names@.len() } else { ages@.len() },
            i <= n,
            r@.len() == i,
            forall|k: int| 0 <= k < i ==> (#[trigger] r@[k]).name@ == names@[k]@ && r@[k].age == ages@[k],
        decreases n - i,
    {
        r.push(Person::new(names[i], ages[i]));
        i = i + 1;
    }
    r
}

/// The debug forms of the people as one bracketed list: "[Person: A, 1, Person: B, 2]".
pub fn debug_list(persons: &Vec<Person>) -> (r: String)
    ensures
        r@ == debug_list_text(persons@),
{
    let ghost items = persons@.map_values(|p: Person| debug_text(p.name@, p.age));
    let mut body = String::new();
    let mut i: usize = 0;
    while i < persons.len()
        invariant
            i <= persons@.len(),
            items.len() == persons@.len(),
            forall|k: int| 0 <= k < persons@.len() ==> #[trigger] items[k] == debug_text(persons@[k].name@, persons@[k].age),
            body@ == joined(items.subrange(0, i as int), ", "@),
        decreases persons@.len() - i,
    {
        let d = persons[i].debug_form();
        if i > 0 {
            body.append(", ");
        }
        body.append(d.as_str());
        assert(items.subrange(0, i + 1).drop_last() =~= items.subrange(0, i as int));
        i = i + 1;
    }
    assert(items.subrange(0, i as int) =~= items);
    let mut r = String::from_str("[");
    r.append(body.as_str());
    r.append("]");
    r
}

/// "Youngest age: {first}, oldest age: {last}"
pub fn extremes_line(ages: (u8, u8, u8)) -> (r: String)
    ensures
        r@ == extremes_text(ages),
{
    let (youngest, _, oldest) = ages;
    let mut r = String::from_str("Youngest age: ");
    let a = decimal_text(youngest as u64);
    r.append(a.as_str());
    r.append(", oldest age: ");
    let b = decimal_text(oldest as u64);
    r.append(b.as_str());
    r
}

/// "Middle age: {second}"
pub fn middle_line(ages: (u8, u8, u8)) -> (r: String)
    ensures
        r@ == middle_text(ages),
{
    let mut r = String::from_str("Middle age: ");
    let a = decimal_text(ages.1 as u64);
    r.append(a.as_str());
    r
}

/// "{name} is the youngest person at {age} years old"
pub fn youngest_line(p: &Person) -> (r: String)
    ensures
        r@ == youngest_text(p.name@, p.age),
{
    let mut r = p.name.clone();
    r.append(" is the youngest person at ");
    let a = decimal_text(p.age as u64);
    r.append(a.as_str());
    r.append(" years old");
    r
}

/// For each person, the friendly form followed by whether the estimated year
/// of birth is a leap year under the every-fourth-year rule.
pub fn leap_year_lines(persons: &Vec<Person>, current_year: i32) -> (r: Vec<String>)
    ensures
        r@.len() == persons@.len(),
        forall|i: int| 0 <= i < r@.len() ==> #[trigger] r@[i]@ == leap_line(persons@[i].name@, persons@[i].age, current_year as int),
{
    let mut r: Vec<String> = Vec::new();
    let mut i: usize = 0;
    while i < persons.len()
        invariant
            i <= persons@.len(),
            r@.len() == i,
            forall|k: int| 0 <= k < i ==> #[trigger] r@[k]@ == leap_line(persons@[k].name@, persons@[k].age, current_year as int),
        decreases persons@.len() - i,
    {
        let year = year_of_birth_in(&persons[i], current_year);
        let leap = simple_leap_year(year);
        let mut line = persons[i].friendly();
        line.append(". Born in a leap year?: ");
        let b = bool_string(leap);
        line.append(b.as_str());
        r.push(line);
        i = i + 1;
    }
    r
}

/// The name and age of each person whose year of birth, estimated from
/// `current_year`, is after `year`, in the order given.
pub fn born_after_in(persons: &Vec<Person>, current_year: i32, year: u16) -> (r: Vec<(String, u8)>)
    ensures
        r@.map_values(|e: (String, u8)| (e.0@, e.1)) == born_after_pairs(persons@, current_year as int, year),
{
    let ghost pred = |p: Person| born_after_year(p, current_year as int, year);
    let ghost proj = |p: Person| (p.name@, p.age);
    let ghost pview = |e: (String, u8)| (e.0@, e.1);
    let mut r: Vec<(String, u8)> = Vec::new();
    let mut i: usize = 0;
    while i < persons.len()
        invariant
            i <= persons@.len(),
            pred == (|p: Person| born_after_year(p, current_year as int, year)),
            proj == (|p: Person| (p.name@, p.age)),
            pview == (|e: (String, u8)| (e.0@, e.1)),
            r@.map_values(pview) == persons@.subrange(0, i as int).filter(pred).map_values(proj),
        decreases persons@.len() - i,
    {
        let p = &persons[i];
        let b = year_of_birth_in(p, current_year);
        proof {
            assert(persons@.subrange(0, i + 1) =~= persons@.subrange(0, i as int).push(*p));
            persons@.subrange(0, i as int).lemma_filter_push(*p, pred);
        }
        if b > year {
            let ghost old_r = r@;
            r.push((p.name.clone(), p.age));
            assert(r@.map_values(pview) =~= old_r.map_values(pview).push(proj(*p)));
            assert(persons@.subrange(0, i as int).filter(pred).push(*p).map_values(proj)
                =~= persons@.subrange(0, i as int).filter(pred).map_values(proj).push(proj(*p)));
        }
        i = i + 1;
    }
    assert(persons@.subrange(0, i as int) =~= persons@);
    r
}

} // verus!
