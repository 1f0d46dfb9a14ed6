use minecraft_map_tool::ReadMap;
use minecraft_map_tool::locator::is_map_file_name;
use minecraft_map_tool::locator::sort_paths_by_name;
use minecraft_map_tool::locator::sort_paths_by_time;
use std::collections::VecDeque;

fn read_map_of(paths: Vec<&str>) -> ReadMap {
    let deque: VecDeque<String> = paths.into_iter().map(|p| p.to_string()).collect();
    ReadMap::from_paths(deque)
}

#[test]
fn test_is_map_file_name() {
    assert!(is_map_file_name("map_0.dat"));
    assert!(is_map_file_name("map_123.dat"));
    assert!(!is_map_file_name("maps_0.dat"));
    assert!(!is_map_file_name("map_0.png"));
    assert!(!is_map_file_name("idcounts.dat"));
    assert!(!is_map_file_name(""));
}

#[test]
fn test_common_base_path_two_paths() {
    let maps = read_map_of(vec!["/a/b/1.dat", "/a/c/2.dat"]);
    assert_eq!(maps.common_base_path(), Some("/a".to_string()));
}

#[test]
fn test_common_base_path_single_path_is_parent() {
    let maps = read_map_of(vec!["/a/b/1.dat"]);
    assert_eq!(maps.common_base_path(), Some("/a/b".to_string()));
}

#[test]
fn test_common_base_path_empty_is_none() {
    let maps = read_map_of(vec![]);
    assert_eq!(maps.common_base_path(), None);
}

#[test]
fn test_common_base_path_shared_directory() {
    let maps = read_map_of(vec!["/a/b/1.dat", "/a/b/2.dat", "/a/b/3.dat"]);
    assert_eq!(maps.common_base_path(), Some("/a/b".to_string()));
}

#[test]
fn test_common_base_path_relative() {
    let maps = read_map_of(vec!["data/map_1.dat", "data/map_2.dat"]);
    assert_eq!(maps.common_base_path(), Some("data".to_string()));
}

#[test]
fn test_common_base_path_no_shared_components() {
    let maps = read_map_of(vec!["a/1.dat", "b/2.dat"]);
    assert_eq!(maps.common_base_path(), Some("".to_string()));
}

#[test]
fn test_read_map_counting() {
    let mut maps = read_map_of(vec!["/x/map_1.dat", "/x/map_2.dat"]);
    assert!(!maps.is_empty());
    assert_eq!(maps.file_count(), 2);
    assert_eq!(maps.pop_front(), Some("/x/map_1.dat".to_string()));
    assert_eq!(maps.pop_front(), Some("/x/map_2.dat".to_string()));
    assert_eq!(maps.pop_front(), None);
    assert!(maps.is_empty());
}

#[test]
fn test_sort_paths_by_name_natural_order() {
    let mut paths: Vec<String> = vec![
        "map_10.dat".to_string(),
        "map_2.dat".to_string(),
        "map_1.dat".to_string(),
    ];
    sort_paths_by_name(&mut paths);
    // Natural ordering puts map_2 before map_10; plain lexicographic
    // ordering would not.
    assert_eq!(paths, vec!["map_1.dat", "map_2.dat", "map_10.dat"]);
}

#[test]
fn test_sort_paths_by_name_empty_and_single() {
    let mut paths: Vec<String> = vec![];
    sort_paths_by_name(&mut paths);
    assert!(paths.is_empty());
    let mut paths = vec!["map_3.dat".to_string()];
    sort_paths_by_name(&mut paths);
    assert_eq!(paths, vec!["map_3.dat"]);
}

#[test]
fn test_sort_paths_by_time() {
    let mut entries: Vec<(String, u64)> = vec![
        ("b.dat".to_string(), 50),
        ("a.dat".to_string(), 10),
        ("c.dat".to_string(), 30),
    ];
    sort_paths_by_time(&mut entries);
    assert_eq!(
        entries,
        vec![
            ("a.dat".to_string(), 10),
            ("c.dat".to_string(), 30),
            ("b.dat".to_string(), 50),
        ]
    );
}
