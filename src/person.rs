//! A person's record, its two text forms, and the values derived from it.

use vstd::prelude::*;
use vstd::string::*;
use vstd::arithmetic::div_mod::lemma_mod_multiples_vanish;
use crate::text::{decimal, decimal_text, joined};

verus! {

/// A person: a name and an age in whole years.
pub struct Person {
    pub name: String,
    pub age: u8,
}

/// "{name} is {age} years old"
pub open spec fn friendly_text(name: Seq<char>, age: u8) -> Seq<char> {
    name + " is "@ + decimal(age as nat) + " years old"@
}

/// "Person: {name}, {age}"
pub open spec fn debug_text(name: Seq<char>, age: u8) -> Seq<char> {
    "Person: "@ + name + ", "@ + decimal(age as nat)
}

/// The debug forms of a sequence of people, as a bracketed, comma-separated list.
pub open spec fn debug_list_text(people: Seq<Person>) -> Seq<char> {
    "["@ + joined(people.map_values(|p: Person| debug_text(p.name@, p.age)), ", "@) + "]"@
}

/// The year of birth estimated from the current year alone: the current year
/// less the age, kept as a 16-bit unsigned value (wrapping, as an `as u16`
/// conversion does).
pub open spec fn birth_year(current_year: int, age: u8) -> int {
    (current_year - age) % 65536
}

/// Whether a year counts as a leap year under the plain rule that every
/// fourth year is one (no exceptions for centuries).
pub open spec fn is_simple_leap_year(year: int) -> bool {
    year % 4 == 0
}

/// The range of years that the system clock can report.
pub open spec fn clock_year_in_range(year: int) -> bool {
    1970 <= year <= 262142
}

/// Relies on chrono's `Utc::now` and `Datelike::year`: the calendar year of
/// the present moment in UTC. `Utc::now` takes the system time since the Unix
/// epoch, so the year is never before 1970, and chrono's dates end in 262142.
#[verifier::external_body]
pub(crate) fn current_year() -> (r: i32)
    ensures
        clock_year_in_range(r as int),
{
    chrono::Datelike::year(&chrono::Utc::now())
}

impl Person {
    pub fn new(name: &str, age: u8) -> (r: Person)
        ensures
            r.name@ == name@,
            r.age == age,
    {
        Person { name: String::from_str(name), age }
    }

    /// "{name} is {age} years old"
    pub fn friendly(&self) -> (r: String)
        ensures
            r@ == friendly_text(self.name@, self.age),
    {
        let mut r = self.name.clone();
        r.append(" is ");
        let n = decimal_text(self.age as u64);
        r.append(n.as_str());
        r.append(" years old");
        r
    }

    /// "Person: {name}, {age}"
    pub fn debug_form(&self) -> (r: String)
        ensures
            r@ == debug_text(self.name@, self.age),
    {
        let mut r = String::from_str("Person: ");
        r.append(self.name.as_str());
        r.append(", ");
        let n = decimal_text(self.age as u64);
        r.append(n.as_str());
        r
    }
}

/// The estimated year of birth, given the current year.
pub fn year_of_birth_in(person: &Person, current_year: i32) -> (r: u16)
    ensures
        r as int == birth_year(current_year as int, person.age),
{
    let a: u8 = person.age;
    // shifted by 2^32, a multiple of 2^16, so that the remainder is taken of a
    // non-negative value
    let e: u64 = (current_year as i64 - a as i64 + 4294967296i64) as u64;
    let r = (e % 65536) as u16;
    proof {
        lemma_mod_multiples_vanish(65536, current_year - a, 65536);
    }
    r
}

/// The estimated year of birth, from the current year on the system clock.
pub fn approx_year_of_birth(person: &Person) -> (r: u16)
    ensures
        exists|y: int| clock_year_in_range(y) && r as int == birth_year(y, person.age),
{
    let y = current_year();
    year_of_birth_in(person, y)
}

/// Whether `year` is a leap year under the every-fourth-year rule.
pub fn simple_leap_year(year: u16) -> (r: bool)
    ensures
        r == is_simple_leap_year(year as int),
{
    year % 4 == 0
}

} // verus!
