use intro::catalog::{first_equal, Catalog, ModelSet};
use intro::ordering::{sort_by_age, youngest};
use intro::person::{simple_leap_year, year_of_birth_in, Person};
use intro::roster::{born_after_in, debug_list, indexed_lines, leap_year_lines, zip_people};
use intro::text::{bool_string, decimal_text};

fn people(list: &[(&str, u8)]) -> Vec<Person> {
    list.iter().map(|(n, a)| Person::new(n, *a)).collect()
}

fn names_and_ages(v: &[Person]) -> Vec<(String, u8)> {
    v.iter().map(|p| (p.name.clone(), p.age)).collect()
}

#[test]
fn decimal_numerals() {
    assert_eq!(decimal_text(0), "0");
    assert_eq!(decimal_text(7), "7");
    assert_eq!(decimal_text(10), "10");
    assert_eq!(decimal_text(255), "255");
    assert_eq!(decimal_text(1234567890), "1234567890");
    assert_eq!(decimal_text(u64::MAX), u64::MAX.to_string());
}

#[test]
fn boolean_text() {
    assert_eq!(bool_string(true), "true");
    assert_eq!(bool_string(false), "false");
}

#[test]
fn person_forms() {
    let p = Person::new("Zoe", 0);
    assert_eq!(p.friendly(), "Zoe is 0 years old");
    assert_eq!(p.debug_form(), "Person: Zoe, 0");
    let q = Person::new("", 255);
    assert_eq!(q.friendly(), " is 255 years old");
    assert_eq!(q.debug_form(), "Person: , 255");
}

#[test]
fn year_of_birth_from_fixed_year() {
    assert_eq!(year_of_birth_in(&Person::new("A", 26), 2024), 1998);
    assert_eq!(year_of_birth_in(&Person::new("A", 0), 1970), 1970);
    // the result is kept to 16 bits, wrapping
    assert_eq!(year_of_birth_in(&Person::new("A", 0), 65536 + 5), 5);
    assert_eq!(year_of_birth_in(&Person::new("A", 10), 5), 65531);
}

#[test]
fn every_fourth_year_is_leap() {
    assert!(simple_leap_year(2004));
    assert!(simple_leap_year(2000));
    assert!(simple_leap_year(2100));
    assert!(!simple_leap_year(1993));
}

#[test]
fn stable_sort_by_age() {
    let sorted = sort_by_age(people(&[("A", 30), ("B", 20), ("C", 30), ("D", 10), ("E", 20)]));
    assert_eq!(
        names_and_ages(&sorted),
        vec![
            ("D".to_string(), 10),
            ("B".to_string(), 20),
            ("E".to_string(), 20),
            ("A".to_string(), 30),
            ("C".to_string(), 30)
        ]
    );
    assert!(sort_by_age(Vec::new()).is_empty());
}

#[test]
fn youngest_of_none_and_ties() {
    assert!(youngest(Vec::new()).is_none());
    let p = youngest(people(&[("A", 40), ("B", 18), ("C", 18)])).unwrap();
    assert_eq!((p.name.as_str(), p.age), ("B", 18));
}

#[test]
fn zip_stops_at_shorter() {
    let v = zip_people(&vec!["A", "B", "C"], &vec![1, 2]);
    assert_eq!(names_and_ages(&v), vec![("A".to_string(), 1), ("B".to_string(), 2)]);
    let w = zip_people(&vec!["A"], &vec![1, 2]);
    assert_eq!(names_and_ages(&w), vec![("A".to_string(), 1)]);
}

#[test]
fn debug_lists() {
    assert_eq!(debug_list(&Vec::new()), "[]");
    assert_eq!(debug_list(&people(&[("A", 1)])), "[Person: A, 1]");
    assert_eq!(
        debug_list(&people(&[("A", 1), ("B", 2), ("C", 3)])),
        "[Person: A, 1, Person: B, 2, Person: C, 3]"
    );
}

#[test]
fn indexed_and_leap_lines() {
    let v = people(&[("A", 1), ("B", 2)]);
    assert_eq!(indexed_lines(&v), vec!["Person 0: A is 1 years old", "Person 1: B is 2 years old"]);
    assert_eq!(
        leap_year_lines(&v, 2001),
        vec![
            "A is 1 years old. Born in a leap year?: true",
            "B is 2 years old. Born in a leap year?: false"
        ]
    );
}

#[test]
fn born_after_threshold_is_strict() {
    let v = people(&[("A", 29), ("B", 28), ("C", 30)]);
    assert_eq!(born_after_in(&v, 2024, 1995), vec![("B".to_string(), 28u8)]);
    assert_eq!(born_after_in(&v, 2024, 1994), vec![("A".to_string(), 29u8), ("B".to_string(), 28u8)]);
}

#[test]
fn catalog_insert_then_lookup_each() {
    let pairs = [("k1", "v1"), ("k2", "v2"), ("k3", "v3"), ("k4", "v4")];
    let mut c = Catalog::new();
    for (k, v) in pairs.iter() {
        c.insert(k, v);
    }
    for (k, v) in pairs.iter() {
        assert_eq!(c.get(k), Some(&v.to_string()));
    }
    assert_eq!(c.get("k5"), None);
}

#[test]
fn catalog_insert_replaces_value_in_place() {
    let mut c = Catalog::new();
    c.insert("a", "1");
    c.insert("b", "2");
    c.insert("a", "3");
    assert_eq!(c.get("a"), Some(&"3".to_string()));
    assert_eq!(
        c.entries().clone(),
        vec![("a".to_string(), "3".to_string()), ("b".to_string(), "2".to_string())]
    );
}

#[test]
fn catalog_search_folds_case() {
    let mut c = Catalog::new();
    c.insert("x", "AMD Ryzen 3");
    c.insert("y", "amd ryzen 3");
    assert_eq!(c.find_by_folded_value("amd ryzen 3"), Some(("x".to_string(), "AMD Ryzen 3".to_string())));
    assert_eq!(c.find_by_folded_value("AMD Ryzen 3"), None);
    assert_eq!(Catalog::new().find_by_folded_value("a"), None);
}

#[test]
fn set_insert_and_search() {
    let mut s = ModelSet::new();
    assert!(s.insert("Intel Core i9"));
    assert!(!s.insert("Intel Core i9"));
    assert!(s.insert("INTEL core I9"));
    assert_eq!(s.items().len(), 2);
    assert!(s.contains("INTEL core I9"));
    assert_eq!(s.find_folded("intel core i9"), Some("Intel Core i9".to_string()));
    assert_eq!(s.find_folded("Intel Core i9"), None);
}

#[test]
fn first_equal_positions() {
    let v = vec!["a".to_string(), "b".to_string(), "b".to_string()];
    assert_eq!(first_equal(&v, "b"), Some(1));
    assert_eq!(first_equal(&v, "c"), None);
    assert_eq!(first_equal(&Vec::new(), "a"), None);
}
