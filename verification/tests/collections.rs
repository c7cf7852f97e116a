use depcheck_core::name_map::NameMap;
use depcheck_core::name_set::NameSet;
use depcheck_core::text::{name_order, same_name, NameOrder};
use depcheck_core::usage::UsageMap;

fn names(set: &NameSet) -> Vec<String> {
    set.to_vec()
}

#[test]
fn name_order_is_byte_wise() {
    assert_eq!(name_order("a", "b"), NameOrder::Before);
    assert_eq!(name_order("b", "a"), NameOrder::After);
    assert_eq!(name_order("a", "a"), NameOrder::Same);
    assert_eq!(name_order("", ""), NameOrder::Same);
    assert_eq!(name_order("", "a"), NameOrder::Before);
    assert_eq!(name_order("a", ""), NameOrder::After);
    assert_eq!(name_order("ab", "abc"), NameOrder::Before);
    assert_eq!(name_order("abc", "ab"), NameOrder::After);
    assert_eq!(name_order("@scope/x", "react"), NameOrder::Before);
    assert_eq!(name_order("Z", "a"), NameOrder::Before);
    assert_eq!(name_order("é", "z"), NameOrder::After);
}

#[test]
fn name_order_agrees_with_the_standard_order() {
    let samples = ["", "a", "ab", "b", "@a/b", "react", "réact", "日本", "Z", "z", "a/b", "a-b"];
    for x in samples {
        for y in samples {
            let expected = match x.cmp(y) {
                std::cmp::Ordering::Less => NameOrder::Before,
                std::cmp::Ordering::Equal => NameOrder::Same,
                std::cmp::Ordering::Greater => NameOrder::After,
            };
            assert_eq!(name_order(x, y), expected, "{x:?} against {y:?}");
        }
    }
}

#[test]
fn same_name_compares_contents() {
    assert!(same_name("react", "react"));
    assert!(!same_name("react", "react-dom"));
    assert!(!same_name("react", "React"));
    assert!(same_name("", ""));
}

#[test]
fn name_set_keeps_names_sorted_and_unique() {
    let mut set = NameSet::new();
    assert!(set.is_empty());
    assert!(set.insert(String::from("react")));
    assert!(set.insert(String::from("@types/react")));
    assert!(set.insert(String::from("lodash")));
    assert!(!set.insert(String::from("react")));
    assert_eq!(set.len(), 3);
    assert!(!set.is_empty());
    assert_eq!(names(&set), vec!["@types/react", "lodash", "react"]);
    assert!(set.contains("lodash"));
    assert!(!set.contains("lod"));
    assert!(!set.contains("zzz"));
    assert_eq!(set.get(0), "@types/react");
    assert_eq!(set.get(2), "react");
}

#[test]
fn name_set_has_one_representation() {
    let mut forward = NameSet::new();
    let mut backward = NameSet::new();
    let items = ["d", "a", "c", "b", "a", "e"];
    for item in items {
        forward.insert(String::from(item));
    }
    for item in items.iter().rev() {
        backward.insert(String::from(*item));
    }
    assert_eq!(names(&forward), names(&backward));
    assert_eq!(names(&forward), vec!["a", "b", "c", "d", "e"]);
}

#[test]
fn name_set_clone_holds_the_same_names() {
    let mut set = NameSet::new();
    set.insert(String::from("b"));
    set.insert(String::from("a"));
    let copy = set.clone();
    set.insert(String::from("c"));
    assert_eq!(names(&copy), vec!["a", "b"]);
    assert_eq!(names(&set), vec!["a", "b", "c"]);
}

#[test]
fn name_map_inserts_replaces_and_finds() {
    let mut map: NameMap<String> = NameMap::new();
    assert!(map.is_empty());
    map.insert(String::from("react"), String::from("^17"));
    map.insert(String::from("lodash"), String::from("*"));
    map.insert(String::from("react"), String::from("^18"));
    assert_eq!(map.len(), 2);
    assert_eq!(map.keys(), vec!["lodash", "react"]);
    assert_eq!(map.get("react"), Some(&String::from("^18")));
    assert_eq!(map.get("lodash"), Some(&String::from("*")));
    assert_eq!(map.get("vue"), None);
    assert!(map.contains_key("lodash"));
    assert!(!map.contains_key("lodas"));
    assert_eq!(map.position("react"), Some(1));
    assert_eq!(map.position("a"), None);
    assert_eq!(map.key_at(0), "lodash");
    assert_eq!(map.value_at(0), "*");
}

#[test]
fn name_map_value_can_be_replaced_in_place() {
    let mut map: NameMap<u32> = NameMap::new();
    map.insert(String::from("a"), 1);
    map.insert(String::from("b"), 2);
    assert_eq!(map.replace_at(0, 11), 1);
    assert_eq!(map.replace_at(1, 22), 2);
    assert_eq!(map.get("a"), Some(&11));
    assert_eq!(map.get("b"), Some(&22));
    assert_eq!(map.keys(), vec!["a", "b"]);
}

#[test]
fn usage_map_unions_files_per_name() {
    let mut usage = UsageMap::new();
    usage.record(String::from("react"), String::from("src/b.ts"));
    usage.record(String::from("react"), String::from("src/a.ts"));
    usage.record(String::from("react"), String::from("src/b.ts"));
    usage.record(String::from("lodash"), String::from("src/a.ts"));
    assert_eq!(usage.len(), 2);
    assert_eq!(usage.name_list(), vec!["lodash", "react"]);
    assert_eq!(names(usage.get("react").unwrap()), vec!["src/a.ts", "src/b.ts"]);
    assert_eq!(names(usage.get("lodash").unwrap()), vec!["src/a.ts"]);
    assert!(usage.get("vue").is_none());
    assert!(usage.contains_key("react"));
    assert!(!usage.contains_key("vue"));
    assert_eq!(usage.name_at(1), "react");
    assert_eq!(names(usage.files_at(1)), vec!["src/a.ts", "src/b.ts"]);
}

fn set_of(items: &[&str]) -> NameSet {
    let mut set = NameSet::new();
    for item in items {
        set.insert(String::from(*item));
    }
    set
}

fn snapshot(usage: &UsageMap) -> Vec<(String, Vec<String>)> {
    (0..usage.len())
        .map(|i| (usage.name_at(i).clone(), usage.files_at(i).to_vec()))
        .collect()
}

#[test]
fn recording_a_file_twice_changes_nothing() {
    let mut once = UsageMap::new();
    once.record_file("index.js", &set_of(&["react", "lodash"]));
    let mut twice = UsageMap::new();
    twice.record_file("index.js", &set_of(&["react", "lodash"]));
    twice.record_file("index.js", &set_of(&["react", "lodash"]));
    assert_eq!(snapshot(&once), snapshot(&twice));
    assert_eq!(
        snapshot(&once),
        vec![
            (String::from("lodash"), vec![String::from("index.js")]),
            (String::from("react"), vec![String::from("index.js")]),
        ]
    );
}

#[test]
fn recording_order_does_not_matter() {
    let mut first = UsageMap::new();
    first.record_file("a.js", &set_of(&["react", "lodash"]));
    first.record_file("b.js", &set_of(&["react"]));
    first.record_file("c.js", &set_of(&[]));
    let mut second = UsageMap::new();
    second.record_file("c.js", &set_of(&[]));
    second.record_file("b.js", &set_of(&["react"]));
    second.record_file("a.js", &set_of(&["lodash", "react"]));
    assert_eq!(snapshot(&first), snapshot(&second));
    assert_eq!(
        snapshot(&first),
        vec![
            (String::from("lodash"), vec![String::from("a.js")]),
            (String::from("react"), vec![String::from("a.js"), String::from("b.js")]),
        ]
    );
}

#[test]
fn usage_map_put_replaces_the_files() {
    let mut usage = UsageMap::new();
    usage.record(String::from("react"), String::from("a.js"));
    usage.put(String::from("react"), set_of(&["x.js", "y.js"]));
    usage.put(String::from("vue"), set_of(&[]));
    assert_eq!(
        snapshot(&usage),
        vec![
            (String::from("react"), vec![String::from("x.js"), String::from("y.js")]),
            (String::from("vue"), vec![]),
        ]
    );
}
