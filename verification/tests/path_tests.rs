use dabovanie_videi_v2::env_map::EnvMap;
use dabovanie_videi_v2::path::{component_count, components, is_absolute, join, same, starts_with, stem};

#[test]
fn joins_like_path_join() {
    assert_eq!(join("work", "tmp"), "work/tmp");
    assert_eq!(join("work/", "tmp"), "work/tmp");
    assert_eq!(join("work", "/abs"), "/abs");
    assert_eq!(join("", "tmp"), "tmp");
    assert!(is_absolute("/x"));
    assert!(!is_absolute("x/"));
}

#[test]
fn components_normalise_separators_and_dots() {
    assert_eq!(components("/a//b/./c/"), vec!["/", "a", "b", "c"]);
    assert_eq!(components("./a/../b"), vec![".", "a", "..", "b"]);
    assert_eq!(components("a/./b"), vec!["a", "b"]);
    assert_eq!(component_count("ffmpeg"), 1);
    assert_eq!(component_count("bin/ffmpeg"), 2);
    assert_eq!(component_count("./ffmpeg"), 2);
    assert_eq!(component_count(""), 0);
}

#[test]
fn compares_and_prefixes_by_components() {
    assert!(same("a/b/", "a//b"));
    assert!(!same("./a", "a"));
    assert!(starts_with("/tmp/root/job", "/tmp/root"));
    assert!(starts_with("/tmp/root", "/tmp/root/"));
    assert!(!starts_with("/tmp/rootx/job", "/tmp/root"));
}

#[test]
fn file_stems() {
    assert_eq!(stem("output/final.mp4"), Some("final".to_owned()));
    assert_eq!(stem("archive.tar.gz"), Some("archive.tar".to_owned()));
    assert_eq!(stem(".hidden"), Some(".hidden".to_owned()));
    assert_eq!(stem("dir/"), Some("dir".to_owned()));
    assert_eq!(stem("a/.."), None);
    assert_eq!(stem("/"), None);
}

#[test]
fn env_map_keeps_keys_sorted_and_unique() {
    let mut map = EnvMap::new();
    map.insert("b".to_owned(), "1".to_owned());
    map.insert("a".to_owned(), "2".to_owned());
    map.insert("c".to_owned(), "3".to_owned());
    map.insert("b".to_owned(), "4".to_owned());
    map.insert_if_absent("a".to_owned(), "5".to_owned());
    map.insert_if_absent("d".to_owned(), "6".to_owned());
    assert_eq!(map.len(), 4);
    let keys: Vec<&String> = (0..map.len()).map(|i| map.key_at(i)).collect();
    assert_eq!(keys, vec!["a", "b", "c", "d"]);
    assert_eq!(map.get("b"), Some(&"4".to_owned()));
    assert_eq!(map.get("a"), Some(&"2".to_owned()));
    assert!(map.contains_key("d"));
    assert!(!map.contains_key("e"));
    let copy = map.duplicate();
    assert_eq!(copy.value_at(3), "6");
    let mut other = EnvMap::new();
    other.insert("a".to_owned(), "7".to_owned());
    other.insert("z".to_owned(), "8".to_owned());
    map.extend_from(&other);
    assert_eq!(map.get("a"), Some(&"7".to_owned()));
    assert_eq!(map.get("z"), Some(&"8".to_owned()));
    assert_eq!(map.len(), 5);
}
