use toucan_camera_server::jpeg::looks_like_jpeg;
use toucan_camera_server::order::{sorted_order, SortKey};
use toucan_camera_server::packed::unpacked;
use toucan_camera_server::sessions::SessionTable;

fn key(area: u64, is_mjpeg: bool, rate: u32) -> SortKey {
    SortKey { area, is_mjpeg, rate_num: rate, rate_den: 1 }
}

#[test]
fn the_largest_key_comes_first_and_equals_stay() {
    let keys = vec![
        key(10, false, 30),
        key(10, true, 15),
        key(20, false, 5),
        key(10, true, 30),
        key(10, true, 15),
        key(10, false, 30),
    ];
    assert_eq!(sorted_order(&keys), vec![2, 3, 1, 4, 0, 5]);
    assert_eq!(sorted_order(&vec![]), Vec::<usize>::new());
}

#[test]
fn rates_are_compared_as_fractions() {
    let rate = |rate_num, rate_den| SortKey { area: 1, is_mjpeg: true, rate_num, rate_den };
    let keys = vec![rate(29, 1), rate(59, 2), rate(30, 0), rate(60, 2), rate(30, 1), rate(0, 1)];
    assert_eq!(sorted_order(&keys), vec![3, 4, 1, 0, 2, 5]);
    let keys = vec![rate(u32::MAX - 1, u32::MAX), rate(u32::MAX, u32::MAX)];
    assert_eq!(sorted_order(&keys), vec![1, 0]);
}

#[test]
fn a_packed_pair_has_its_first_number_above() {
    assert_eq!(unpacked(0x0000_0280_0000_01E0), (640, 480));
    assert_eq!(unpacked(u64::MAX), (u32::MAX, u32::MAX));
    assert_eq!(unpacked(0), (0, 0));
}

#[test]
fn a_table_holds_one_session_for_a_device() {
    let mut table: SessionTable<u32> = SessionTable::new();
    assert!(!table.contains("a"));
    assert_eq!(table.get("a"), None);
    table.insert("a", 1);
    table.insert("b", 2);
    table.insert("a", 3);
    assert_eq!(table.get("a"), Some(&3));
    assert_eq!(table.get("b"), Some(&2));
    assert_eq!(table.remove("a"), Some(3));
    assert_eq!(table.remove("a"), None);
    table.insert("c", 4);
    let mut entries = table.into_entries();
    entries.sort();
    assert_eq!(entries, vec![("b".to_string(), 2), ("c".to_string(), 4)]);
}

#[test]
fn a_jpeg_file_is_known_by_its_start() {
    assert!(looks_like_jpeg(&[0xFF, 0xD8, 0xFF, 0xE0, 0]));
    assert!(!looks_like_jpeg(&[0xFF, 0xD8, 0xFF, 0xE0]));
    assert!(!looks_like_jpeg(&[0xD8, 0xFF, 0xFF, 0xE0, 0]));
    assert!(!looks_like_jpeg(&[]));
}
