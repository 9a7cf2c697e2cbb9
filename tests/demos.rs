use intro::demos::{
    born_after_demo, display_demo, enumerate_demo, leap_year_demo, processor_map_demo,
    processor_set_demo, tuple_demo, youngest_demo, zip_demo,
};

#[test]
fn display_forms_of_megan() {
    let lines = display_demo();
    assert_eq!(lines, vec!["Megan is 28 years old".to_string(), "Person: Megan, 28".to_string()]);
}

#[test]
fn enumerated_people_in_order() {
    let lines = enumerate_demo();
    assert_eq!(
        lines,
        vec![
            "Person 0: James is 33 years old".to_string(),
            "Person 1: Salima is 31 years old".to_string()
        ]
    );
}

#[test]
fn zipped_people_debug_list() {
    assert_eq!(zip_demo(), "[Person: Alice, 24, Person: Charlie, 45]");
}

#[test]
fn tuple_positions() {
    let lines = tuple_demo();
    assert_eq!(
        lines,
        vec!["Youngest age: 18, oldest age: 65".to_string(), "Middle age: 41".to_string()]
    );
}

#[test]
fn youngest_after_sorting() {
    assert_eq!(youngest_demo(), Some("Rohan is the youngest person at 18 years old".to_string()));
}

#[test]
fn leap_years_for_fixed_year() {
    let lines = leap_year_demo(2024);
    assert_eq!(
        lines,
        vec![
            "Josephine is 20 years old. Born in a leap year?: true".to_string(),
            "Wesley is 31 years old. Born in a leap year?: false".to_string()
        ]
    );
}

#[test]
fn born_after_1995_for_fixed_year() {
    let result = born_after_demo(2024);
    assert_eq!(result, vec![("Ibrahim".to_string(), 26u8)]);
}

#[test]
fn born_after_keeps_both_or_none() {
    assert_eq!(
        born_after_demo(2040),
        vec![("Issa".to_string(), 39u8), ("Ibrahim".to_string(), 26u8)]
    );
    assert_eq!(born_after_demo(2000), Vec::<(String, u8)>::new());
}

#[test]
fn demos_repeat_identically() {
    assert_eq!(display_demo(), display_demo());
    assert_eq!(enumerate_demo(), enumerate_demo());
    assert_eq!(zip_demo(), zip_demo());
    assert_eq!(tuple_demo(), tuple_demo());
    assert_eq!(youngest_demo(), youngest_demo());
    assert_eq!(leap_year_demo(2024), leap_year_demo(2024));
    assert_eq!(born_after_demo(2024), born_after_demo(2024));
    let (c1, k1, v1) = processor_map_demo();
    let (c2, k2, v2) = processor_map_demo();
    let mut e1: Vec<(String, String)> = c1.entries().clone();
    let mut e2: Vec<(String, String)> = c2.entries().clone();
    e1.sort();
    e2.sort();
    assert_eq!(e1, e2);
    assert_eq!(k1, k2);
    assert_eq!(v1, v2);
    let (s1, f1) = processor_set_demo();
    let (s2, f2) = processor_set_demo();
    let mut i1: Vec<String> = s1.items().clone();
    let mut i2: Vec<String> = s2.items().clone();
    i1.sort();
    i2.sort();
    assert_eq!(i1, i2);
    assert_eq!(f1, f2);
}

#[test]
fn processor_map_lookups() {
    let (catalog, by_key, by_value) = processor_map_demo();
    assert_eq!(catalog.entries().len(), 6);
    assert_eq!(catalog.get("1800X"), Some(&"AMD Ryzen 7".to_string()));
    assert_eq!(catalog.get("9999"), None);
    assert_eq!(by_key, Some("Intel Core i5".to_string()));
    assert_eq!(by_value, Some(("1300X".to_string(), "AMD Ryzen 3".to_string())));
}

#[test]
fn processor_set_contents() {
    let (set, found) = processor_set_demo();
    let mut items: Vec<String> = set.items().clone();
    items.sort();
    assert_eq!(
        items,
        vec![
            "AMD Ryzen 3".to_string(),
            "AMD Ryzen 5".to_string(),
            "AMD Ryzen 7".to_string(),
            "Intel Core i5".to_string(),
            "Intel Core i7".to_string(),
            "Intel Core i9".to_string()
        ]
    );
    assert!(set.contains("AMD Ryzen 5"));
    assert!(!set.contains("amd ryzen 5"));
    assert_eq!(found, Some("AMD Ryzen 3".to_string()));
}
