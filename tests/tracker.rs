use hot_reload::tracker::DevFS;

fn three_files() -> Vec<String> {
    vec!["/r/lib/a.dart".to_string(), "/r/lib/b.dart".to_string(), "/r/lib/c.dart".to_string()]
}

#[test]
fn init_rejects_non_directory() {
    assert!(DevFS::init(false, three_files(), 10).is_err());
}

#[test]
fn modified_file_is_reported_once() {
    let mut fs = DevFS::init(true, three_files(), 100).expect("a tracker");
    assert_eq!(fs.len(), 3);
    assert_eq!(fs.path_at(1), "/r/lib/b.dart");
    let unchanged = vec![Some(100), Some(100), Some(100)];
    assert!(fs.updated_entries(&unchanged).is_empty());
    let b_touched = vec![Some(100), Some(150), Some(100)];
    assert_eq!(fs.updated_entries(&b_touched), vec!["/r/lib/b.dart".to_string()]);
    assert!(fs.updated_entries(&b_touched).is_empty());
    let b_again = vec![Some(100), Some(151), Some(100)];
    assert_eq!(fs.updated_entries(&b_again), vec!["/r/lib/b.dart".to_string()]);
}

#[test]
fn older_or_unreadable_files_are_unchanged() {
    let mut fs = DevFS::init(true, three_files(), 100).expect("a tracker");
    let times = vec![Some(99), None, Some(101)];
    assert_eq!(fs.updated_entries(&times), vec!["/r/lib/c.dart".to_string()]);
}

#[test]
fn several_changes_keep_scan_order() {
    let mut fs = DevFS::init(true, three_files(), 5).expect("a tracker");
    let times = vec![Some(6), Some(5), Some(7)];
    assert_eq!(
        fs.updated_entries(&times),
        vec!["/r/lib/a.dart".to_string(), "/r/lib/c.dart".to_string()]
    );
}

#[test]
fn empty_tree_reports_nothing() {
    let mut fs = DevFS::init(true, Vec::new(), 5).expect("a tracker");
    assert_eq!(fs.len(), 0);
    assert!(fs.updated_entries(&Vec::new()).is_empty());
}
