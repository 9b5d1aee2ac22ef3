use openvalidation::huml::field_set::{insert_sorted, sorted_distinct};
use openvalidation::huml::text_order::{compare_text, TextOrder};

fn owned(names: &[&str]) -> Vec<String> {
    names.iter().map(|name| name.to_string()).collect()
}

#[test]
fn compare_text_orders_by_bytes() {
    assert_eq!(compare_text("a", "b"), TextOrder::Before);
    assert_eq!(compare_text("b", "a"), TextOrder::After);
    assert_eq!(compare_text("a", "a"), TextOrder::Same);
    assert_eq!(compare_text("", ""), TextOrder::Same);
    assert_eq!(compare_text("", "a"), TextOrder::Before);
    assert_eq!(compare_text("a", ""), TextOrder::After);
    assert_eq!(compare_text("ab", "abc"), TextOrder::Before);
    assert_eq!(compare_text("abc", "ab"), TextOrder::After);
    assert_eq!(compare_text("abd", "abc"), TextOrder::After);
    assert_eq!(compare_text("B", "a"), TextOrder::Before);
    assert_eq!(compare_text("field10", "field2"), TextOrder::Before);
}

#[test]
fn compare_text_agrees_with_the_order_of_strings() {
    let samples = [
        "", "a", "A", "ab", "abc", "b", "z", "é", "zé", "日本", "~", "\u{10348}", "\u{7f}", " ",
        "field1", "field10", "field2",
    ];
    for left in samples.iter() {
        for right in samples.iter() {
            let expected = if left < right {
                TextOrder::Before
            } else if left > right {
                TextOrder::After
            } else {
                TextOrder::Same
            };
            assert_eq!(compare_text(left, right), expected);
        }
    }
}

#[test]
fn insert_sorted_keeps_order_and_skips_what_is_there() {
    let mut list: Vec<String> = Vec::new();
    insert_sorted(&mut list, String::from("m"));
    assert_eq!(list, vec!["m"]);
    insert_sorted(&mut list, String::from("a"));
    assert_eq!(list, vec!["a", "m"]);
    insert_sorted(&mut list, String::from("z"));
    assert_eq!(list, vec!["a", "m", "z"]);
    insert_sorted(&mut list, String::from("m"));
    assert_eq!(list, vec!["a", "m", "z"]);
    insert_sorted(&mut list, String::from("b"));
    assert_eq!(list, vec!["a", "b", "m", "z"]);
    insert_sorted(&mut list, String::from("a"));
    insert_sorted(&mut list, String::from("z"));
    assert_eq!(list, vec!["a", "b", "m", "z"]);
}

#[test]
fn sorted_distinct_sorts_and_drops_repetitions() {
    assert_eq!(sorted_distinct(&owned(&[])), Vec::<String>::new());
    assert_eq!(sorted_distinct(&owned(&["x"])), vec!["x"]);
    assert_eq!(sorted_distinct(&owned(&["b", "a", "b", "a"])), vec!["a", "b"]);
    assert_eq!(
        sorted_distinct(&owned(&["zip", "city", "zip", "city", "Street", "age"])),
        vec!["Street", "age", "city", "zip"]
    );
    assert_eq!(
        sorted_distinct(&owned(&["é", "z", "a", "", "é"])),
        vec!["", "a", "z", "é"]
    );
}

#[test]
fn sorted_distinct_is_sort_then_dedup() {
    let sources = [
        owned(&["c", "b", "a"]),
        owned(&["a", "a", "a"]),
        owned(&["field2", "field10", "field1", "field2"]),
        owned(&["ß", "ss", "S", "s", "ß"]),
    ];
    for source in sources.iter() {
        let mut expected = source.clone();
        expected.sort();
        expected.dedup();
        assert_eq!(sorted_distinct(source), expected);
    }
}
