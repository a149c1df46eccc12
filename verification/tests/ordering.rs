use fb2s::opds::compare_patterns;
use fb2s::utils::{fb2cmp, fb2sort, is_cyrillic, sorted};
use std::cmp::Ordering;

fn s(x: &str) -> String {
    String::from(x)
}

#[test]
fn cyrillic_letters_are_recognised() {
    assert!(is_cyrillic(&'А'));
    assert!(is_cyrillic(&'Я'));
    assert!(is_cyrillic(&'а'));
    assert!(is_cyrillic(&'я'));
    assert!(is_cyrillic(&'Ё'));
    assert!(is_cyrillic(&'ё'));
    assert!(!is_cyrillic(&'a'));
    assert!(!is_cyrillic(&'é'));
    assert!(!is_cyrillic(&'Ѐ'));
}

#[test]
fn characters_compare_by_group_then_code() {
    assert_eq!(fb2cmp(&'a', &'я'), Ordering::Greater);
    assert_eq!(fb2cmp(&'я', &'a'), Ordering::Less);
    assert_eq!(fb2cmp(&'я', &'é'), Ordering::Less);
    assert_eq!(fb2cmp(&'é', &'я'), Ordering::Greater);
    assert_eq!(fb2cmp(&'а', &'я'), Ordering::Less);
    assert_eq!(fb2cmp(&'Ы', &'а'), Ordering::Less);
    assert_eq!(fb2cmp(&'b', &'a'), Ordering::Greater);
    assert_eq!(fb2cmp(&'ё', &'ё'), Ordering::Equal);
}

#[test]
fn names_compare_lexicographically_prefix_first() {
    assert_eq!(fb2sort(&s("ab"), &s("a")), Ordering::Greater);
    assert_eq!(fb2sort(&s("a"), &s("ab")), Ordering::Less);
    assert_eq!(fb2sort(&s(""), &s("")), Ordering::Equal);
    assert_eq!(fb2sort(&s("Кая"), &s("Кая")), Ordering::Equal);
    assert_eq!(fb2sort(&s("Zorro"), &s("Яков")), Ordering::Greater);
    // comparing the other way round reverses the result
    for (a, b) in [("Два", "Дви"), ("x", "ж"), ("", "a"), ("é", "z")] {
        assert_eq!(fb2sort(&s(a), &s(b)), fb2sort(&s(b), &s(a)).reverse());
    }
}

#[test]
fn sorted_is_independent_of_input_order() {
    let a = sorted(vec![s("b"), s("я"), s("é"), s("Аб"), s("a"), s("")]);
    let b = sorted(vec![s("a"), s(""), s("Аб"), s("é"), s("я"), s("b")]);
    assert_eq!(a, b);
    assert_eq!(a, vec![s(""), s("Аб"), s("я"), s("é"), s("a"), s("b")]);
    assert_eq!(sorted(a.clone()), a);
}

#[test]
fn sorted_keeps_duplicates() {
    assert_eq!(
        sorted(vec![s("b"), s("a"), s("b")]),
        vec![s("a"), s("b"), s("b")]
    );
    assert_eq!(sorted(Vec::new()), Vec::<String>::new());
}

#[test]
fn patterns_compare_shortest_first() {
    assert_eq!(compare_patterns(&s("b"), &s("ab")), Ordering::Less);
    assert_eq!(compare_patterns(&s("я"), &s("b")), Ordering::Less);
    assert_eq!(compare_patterns(&s("ab"), &s("ab")), Ordering::Equal);
    assert_eq!(compare_patterns(&s("é"), &s("я")), Ordering::Less);
    assert_eq!(
        fb2s::opds::sorted(vec![s("ab"), s("b"), s("я"), s("")]),
        vec![s(""), s("я"), s("b"), s("ab")]
    );
}
