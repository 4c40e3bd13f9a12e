//! Identifier sharding and the derived file layout.

use clipcat::id::Id;
use clipcat::root::Root;

#[test]
fn shard_is_quotient_by_100() {
    assert_eq!(Id(0).shard(), 0);
    assert_eq!(Id(99).shard(), 0);
    assert_eq!(Id(100).shard(), 1);
    assert_eq!(Id(1234).shard(), 12);
    assert_eq!(Id(-250).shard(), -2);
    assert_eq!(Id(i64::MIN).shard(), i64::MIN / 100);
}

#[test]
fn derived_paths_resolve_under_shard() {
    let id = Id(1234);
    let base = "/media";
    assert_eq!(id.data_path(base), "/media/data/12/1234.mp4");
    assert_eq!(id.srt_out(base), "/media/subs/12/1234.srt");
    assert_eq!(id.meta_path(base), "/media/meta/12/1234.json");
    assert_eq!(id.temp_dir(base), "/media/temp/1234/");
    assert_eq!(id.temp_path(base), "/media/temp/1234/pass_1.mp4");
    assert_eq!(id.text_path(base), "/media/temp/1234/pass_1.txt");
    assert_eq!(id.srt_path(base), "/media/temp/1234/pass_1.srt");
    // The file name after the shard directory holds no separator.
    let path = id.data_path(base);
    let dir = "/media/data/12/";
    assert!(path.starts_with(dir));
    assert!(!path[dir.len()..].contains('/'));
}

#[test]
fn get_tags_orders_by_rising_count() {
    let root = Root {
        counter: 3,
        tags: vec![
            (5, String::from("strats")),
            (1, String::from("ace")),
            (3, String::from("clutch")),
        ],
    };
    assert_eq!(root.get_tags(), vec!["ace", "clutch", "strats"]);
    let empty = Root { counter: 0, tags: Vec::new() };
    assert_eq!(empty.get_tags(), Vec::<String>::new());
}
