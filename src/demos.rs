//! Demonstrations on fixed people and processors. Each returns what it shows,
//! and its contract fixes that output completely, so that every run gives the
//! same result.

use vstd::prelude::*;
use vstd::string::*;
use crate::catalog::{
    is_first_folded, is_first_folded_pair, pair_option_view, string_option_view, Catalog,
    ModelSet,
};
use crate::person::{birth_year, clock_year_in_range, current_year, debug_text, friendly_text, Person};
use crate::roster::{
    born_after_in, born_after_pairs, born_after_year, leap_line, leap_year_lines, debug_list, extremes_line, extremes_text, indexed_line, indexed_lines, middle_line,
    middle_text, youngest_line, youngest_text, zip_people,
};
use crate::ordering::{is_first_youngest, youngest};
use crate::text::joined;

verus! {

/// The friendly form, then the debug form, of Megan, 28.
pub fn display_demo() -> (r: Vec<String>)
    ensures
        r@.len() == 2,
        r@[0]@ == friendly_text("Megan"@, 28),
        r@[1]@ == debug_text("Megan"@, 28),
{
    let p = Person::new("Megan", 28);
    let mut r: Vec<String> = Vec::new();
    r.push(p.friendly());
    r.push(p.debug_form());
    r
}

/// James, 33 and Salima, 31, each with their position.
pub fn enumerate_demo() -> (r: Vec<String>)
    ensures
        r@.len() == 2,
        r@[0]@ == indexed_line(0, "James"@, 33),
        r@[1]@ == indexed_line(1, "Salima"@, 31),
{
    let persons = vec![Person::new("James", 33), Person::new("Salima", 31)];
    indexed_lines(&persons)
}

/// Alice and Charlie paired with 24 and 45, shown as a debug list.
pub fn zip_demo() -> (r: String)
    ensures
        r@ == "["@ + debug_text("Alice"@, 24) + ", "@ + debug_text("Charlie"@, 45) + "]"@,
{
    let names: Vec<&str> = vec!["Alice", "Charlie"];
    let ages: Vec<u8> = vec![24, 45];
    let persons = zip_people(&names, &ages);
    let r = debug_list(&persons);
    proof {
        let items = persons@.map_values(|p: Person| debug_text(p.name@, p.age));
        assert(names@[0]@ == "Alice"@ && names@[1]@ == "Charlie"@);
        assert(items.len() == 2);
        assert(items[0] == debug_text("Alice"@, 24));
        assert(items[1] == debug_text("Charlie"@, 45));
        assert(items.drop_last() =~= seq![items[0]]);
        assert(joined(seq![items[0]], ", "@) == items[0]);
        assert(joined(items, ", "@) == items[0] + ", "@ + items[1]);
        assert(r@ =~= "["@ + debug_text("Alice"@, 24) + ", "@ + debug_text("Charlie"@, 45) + "]"@);
    }
    r
}

/// The first and last of the ages 18, 41, 65, then the middle one.
pub fn tuple_demo() -> (r: Vec<String>)
    ensures
        r@.len() == 2,
        r@[0]@ == extremes_text((18, 41, 65)),
        r@[1]@ == middle_text((18, 41, 65)),
{
    let sorted_ages: (u8, u8, u8) = (18, 41, 65);
    let mut r: Vec<String> = Vec::new();
    r.push(extremes_line(sorted_ages));
    r.push(middle_line(sorted_ages));
    r
}

/// The youngest of Aiko, 41 and Rohan, 18.
pub fn youngest_demo() -> (r: Option<String>)
    ensures
        r matches Some(s) && s@ == youngest_text("Rohan"@, 18),
{
    let persons = vec![Person::new("Aiko", 41), Person::new("Rohan", 18)];
    let ghost input = persons@;
    match youngest(persons) {
        Some(p) => {
            assert(is_first_youngest(input, p));
            assert(input[1].age == 18);
            Some(youngest_line(&p))
        },
        None => None,
    }
}

/// The year after which the filter demonstration keeps people born.
pub const BORN_AFTER: u16 = 1995;

/// Josephine, 20 and Wesley, 31, each with whether their estimated year of
/// birth (from `current_year`) is a leap year.
pub fn leap_year_demo(current_year: i32) -> (r: Vec<String>)
    ensures
        r@.len() == 2,
        r@[0]@ == leap_line("Josephine"@, 20, current_year as int),
        r@[1]@ == leap_line("Wesley"@, 31, current_year as int),
{
    let persons = vec![Person::new("Josephine", 20), Person::new("Wesley", 31)];
    leap_year_lines(&persons, current_year)
}

/// The leap-year demonstration, for the current year on the system clock.
pub fn leap_year_demo_now() -> (r: Vec<String>)
    ensures
        exists|y: int|
            clock_year_in_range(y) && r@.len() == 2
            && r@[0]@ == leap_line("Josephine"@, 20, y)
            && r@[1]@ == leap_line("Wesley"@, 31, y),
{
    let y = current_year();
    leap_year_demo(y)
}

/// Of Issa, 39 and Ibrahim, 26, the name and age of those whose estimated year
/// of birth (from `current_year`) is after 1995, in that order.
pub fn born_after_demo(current_year: i32) -> (r: Vec<(String, u8)>)
    ensures
        r@.map_values(|e: (String, u8)| (e.0@, e.1))
            == (if birth_year(current_year as int, 39) > BORN_AFTER {
                seq![("Issa"@, 39u8)]
            } else {
                Seq::empty()
            }) + (if birth_year(current_year as int, 26) > BORN_AFTER {
                seq![("Ibrahim"@, 26u8)]
            } else {
                Seq::empty()
            }),
{
    let persons = vec![Person::new("Issa", 39), Person::new("Ibrahim", 26)];
    let r = born_after_in(&persons, current_year, BORN_AFTER);
    proof {
        let s = persons@;
        let pred = |p: Person| born_after_year(p, current_year as int, BORN_AFTER);
        assert(s =~= Seq::<Person>::empty().push(s[0]).push(s[1]));
        assert(Seq::<Person>::empty().filter(pred) =~= Seq::<Person>::empty()) by {
            reveal(Seq::filter);
        }
        Seq::<Person>::empty().lemma_filter_push(s[0], pred);
        Seq::<Person>::empty().push(s[0]).lemma_filter_push(s[1], pred);
        assert(born_after_pairs(s, current_year as int, BORN_AFTER) =~= (if birth_year(current_year as int, 39) > BORN_AFTER {
            seq![("Issa"@, 39u8)]
        } else {
            Seq::empty()
        }) + (if birth_year(current_year as int, 26) > BORN_AFTER {
            seq![("Ibrahim"@, 26u8)]
        } else {
            Seq::empty()
        }));
    }
    r
}

/// The filter demonstration, for the current year on the system clock.
pub fn born_after_demo_now() -> (r: Vec<(String, u8)>)
    ensures
        exists|y: int|
            clock_year_in_range(y) && r@.map_values(|e: (String, u8)| (e.0@, e.1))
                == (if birth_year(y, 39) > BORN_AFTER {
                    seq![("Issa"@, 39u8)]
                } else {
                    Seq::empty()
                }) + (if birth_year(y, 26) > BORN_AFTER {
                    seq![("Ibrahim"@, 26u8)]
                } else {
                    Seq::empty()
                }),
{
    let y = current_year();
    born_after_demo(y)
}

/// The processor catalog, the description looked up by the key `13600K`,
/// and the first pair whose description in lowercase is `amd ryzen 3`.
pub fn processor_map_demo() -> (r: (Catalog, Option<String>, Option<(String, String)>))
    ensures
        r.0.wf(),
        r.0.listing() == seq![
            ("13900KS"@, "Intel Core i9"@),
            ("13700K"@, "Intel Core i7"@),
            ("13600K"@, "Intel Core i5"@),
            ("1800X"@, "AMD Ryzen 7"@),
            ("1600X"@, "AMD Ryzen 5"@),
            ("1300X"@, "AMD Ryzen 3"@),
        ],
        r.1 matches Some(v) && v@ == "Intel Core i5"@,
        is_first_folded_pair(r.0.listing(), "amd ryzen 3"@, pair_option_view(r.2)),
{
    proof {
        reveal_strlit("13900KS");
        reveal_strlit("13700K");
        reveal_strlit("13600K");
        reveal_strlit("1800X");
        reveal_strlit("1600X");
        reveal_strlit("1300X");
        assert("13700K"@.len() != "13900KS"@.len());
        assert("13600K"@.len() != "13900KS"@.len());
        assert("13600K"@[2] != "13700K"@[2]);
        assert("1800X"@.len() != "13900KS"@.len());
        assert("1800X"@.len() != "13700K"@.len());
        assert("1800X"@.len() != "13600K"@.len());
        assert("1600X"@.len() != "13900KS"@.len());
        assert("1600X"@.len() != "13700K"@.len());
        assert("1600X"@.len() != "13600K"@.len());
        assert("1600X"@[1] != "1800X"@[1]);
        assert("1300X"@.len() != "13900KS"@.len());
        assert("1300X"@.len() != "13700K"@.len());
        assert("1300X"@.len() != "13600K"@.len());
        assert("1300X"@[1] != "1800X"@[1]);
        assert("1300X"@[1] != "1600X"@[1]);
    }
    let mut processors = Catalog::new();
    processors.insert("13900KS", "Intel Core i9");
    assert(!processors.view().contains_key("13700K"@));
    processors.insert("13700K", "Intel Core i7");
    assert(!processors.view().contains_key("13600K"@));
    processors.insert("13600K", "Intel Core i5");
    assert(!processors.view().contains_key("1800X"@));
    processors.insert("1800X", "AMD Ryzen 7");
    assert(!processors.view().contains_key("1600X"@));
    processors.insert("1600X", "AMD Ryzen 5");
    assert(!processors.view().contains_key("1300X"@));
    processors.insert("1300X", "AMD Ryzen 3");
    let by_key = match processors.get("13600K") {
        Some(v) => Some(v.clone()),
        None => None,
    };
    let by_value = processors.find_by_folded_value("amd ryzen 3");
    (processors, by_key, by_value)
}

/// The set of processor descriptions, and the first of them whose lowercase
/// form is `amd ryzen 3`.
pub fn processor_set_demo() -> (r: (ModelSet, Option<String>))
    ensures
        r.0.wf(),
        r.0.listing() == seq![
            "Intel Core i9"@,
            "Intel Core i7"@,
            "Intel Core i5"@,
            "AMD Ryzen 7"@,
            "AMD Ryzen 5"@,
            "AMD Ryzen 3"@,
        ],
        is_first_folded(r.0.listing(), "amd ryzen 3"@, string_option_view(r.1)),
{
    proof {
        reveal_strlit("Intel Core i9");
        reveal_strlit("Intel Core i7");
        reveal_strlit("Intel Core i5");
        reveal_strlit("AMD Ryzen 7");
        reveal_strlit("AMD Ryzen 5");
        reveal_strlit("AMD Ryzen 3");
        assert("Intel Core i7"@[12] != "Intel Core i9"@[12]);
        assert("Intel Core i5"@[12] != "Intel Core i9"@[12]);
        assert("Intel Core i5"@[12] != "Intel Core i7"@[12]);
        assert("AMD Ryzen 7"@.len() != "Intel Core i9"@.len());
        assert("AMD Ryzen 5"@[10] != "AMD Ryzen 7"@[10]);
        assert("AMD Ryzen 3"@[10] != "AMD Ryzen 7"@[10]);
        assert("AMD Ryzen 3"@[10] != "AMD Ryzen 5"@[10]);
    }
    let mut processors = ModelSet::new();
    processors.insert("Intel Core i9");
    assert(!processors.view().contains("Intel Core i7"@));
    processors.insert("Intel Core i7");
    assert(!processors.view().contains("Intel Core i5"@));
    processors.insert("Intel Core i5");
    assert(!processors.view().contains("AMD Ryzen 7"@));
    processors.insert("AMD Ryzen 7");
    assert(!processors.view().contains("AMD Ryzen 5"@));
    processors.insert("AMD Ryzen 5");
    assert(!processors.view().contains("AMD Ryzen 3"@));
    processors.insert("AMD Ryzen 3");
    let found = processors.find_folded("amd ryzen 3");
    (processors, found)
}

} // verus!
