use livefolders::fs::inode::{endpoint_ino, how_to_ino, tool_dir_ino};
use livefolders::fs::invocation::{EndpointSnapshot, InvocationSlot, InvocationState};
use livefolders::fs::path_table::PathTable;
use livefolders::fs::sid::caller_sid;
use livefolders::fs::slot_table::SlotTable;
use livefolders::manifest::FileKind;
use livefolders::paths::DiskPath;

fn snap() -> EndpointSnapshot {
    EndpointSnapshot {
        tool_name: "t".to_string(),
        file_name: "ep".to_string(),
        cwd: DiskPath::from_text("/tmp"),
        kind: FileKind::WriteInvoke,
        handler: Some("cat".to_string()),
        input_schema: None,
        state_file: None,
        pipe: None,
        timeout_secs: 10,
        manifest_version: 0,
    }
}

#[test]
fn get_or_create_returns_same_slot_for_same_key() {
    let mut t = SlotTable::new();
    let a = t.get_or_create((1, 100), snap(), 0);
    let b = t.get_or_create((1, 100), snap(), 0);
    assert!(a == b);
    assert_eq!(t.len(), 1);
}

#[test]
fn get_or_create_distinguishes_by_sid() {
    let mut t = SlotTable::new();
    let a = t.get_or_create((1, 100), snap(), 0);
    let b = t.get_or_create((1, 200), snap(), 0);
    assert!(a != b);
    assert_eq!(t.len(), 2);
}

#[test]
fn get_or_create_distinguishes_by_ino() {
    let mut t = SlotTable::new();
    let a = t.get_or_create((1, 100), snap(), 0);
    let b = t.get_or_create((2, 100), snap(), 0);
    assert!(a != b);
    assert_eq!(t.len(), 2);
}

#[test]
fn remove_drops_slot() {
    let mut t = SlotTable::new();
    t.get_or_create((1, 100), snap(), 0);
    assert!(t.remove((1, 100)).is_some());
    assert_eq!(t.len(), 0);
    assert!(t.remove((1, 100)).is_none());
}

#[test]
fn remove_all_for_ino_drops_every_sid() {
    let mut t = SlotTable::new();
    t.get_or_create((1, 100), snap(), 0);
    t.get_or_create((1, 200), snap(), 0);
    t.get_or_create((2, 100), snap(), 0);
    let n = t.remove_all_for_ino(1);
    assert_eq!(n, 2);
    assert_eq!(t.len(), 1);
    assert!(t.get((2, 100)).is_some());
}

#[test]
fn reap_idle_drops_stale_slots() {
    let mut t = SlotTable::new();
    t.get_or_create((1, 100), snap(), 0);
    let n = t.reap_idle(20, 10);
    assert_eq!(n, 1);
    assert_eq!(t.len(), 0);
}

#[test]
fn reap_idle_keeps_fresh_slots() {
    let mut t = SlotTable::new();
    let h = t.get_or_create((1, 100), snap(), 0);
    t.touch(h, 5);
    let n = t.reap_idle(60_000, 60_000);
    assert_eq!(n, 0);
    assert_eq!(t.len(), 1);
}

#[test]
fn reap_idle_keeps_slots_of_exactly_the_limit() {
    let mut t = SlotTable::default();
    t.get_or_create((1, 100), snap(), 0);
    t.get_or_create((1, 200), snap(), 30);
    assert_eq!(t.reap_idle(10, 10), 0);
    assert_eq!(t.reap_idle(11, 10), 1);
    assert!(t.get((1, 100)).is_none());
    assert!(t.get((1, 200)).is_some());
}

#[test]
fn latest_trace_is_that_of_the_last_used_slot() {
    let mut t = SlotTable::new();
    assert!(t.latest_trace_for_ino(1).is_none());
    let a = t.get_or_create((1, 100), snap(), 0);
    let b = t.get_or_create((1, 200), snap(), 0);
    let c = t.get_or_create((2, 100), snap(), 0);
    t.commit(a, b"ra".to_vec(), b"ta".to_vec(), 5);
    t.commit(b, b"rb".to_vec(), b"tb".to_vec(), 4);
    t.commit(c, b"rc".to_vec(), b"tc".to_vec(), 9);
    assert_eq!(t.latest_trace_for_ino(1), Some(b"ta".to_vec()));
    t.touch(b, 6);
    assert_eq!(t.latest_trace_for_ino(1), Some(b"tb".to_vec()));
    t.mark_pending(b, 1, 7);
    assert_eq!(t.latest_trace_for_ino(1), Some(b"ta".to_vec()));
    assert!(t.latest_trace_for_ino(3).is_none());
}

#[test]
fn pinned_slots_stay_readable() {
    let mut t = SlotTable::new();
    let h = t.get_or_create((1, 100), snap(), 0);
    t.pin(h);
    assert!(t.is_pinned(h));
    t.remove((1, 100));
    assert_eq!(t.len(), 0);
    assert!(t.get((1, 100)).is_none());
    t.commit(h, b"late".to_vec(), b"t".to_vec(), 1);
    assert_eq!(t.slot(h).slice(0, 10), b"late");
    let again = t.get_or_create((1, 100), snap(), 2);
    assert!(again != h);
    t.unpin(h);
    assert!(!t.is_pinned(h));
    assert_eq!(t.len(), 1);
}

#[test]
fn commit_says_who_waits() {
    let mut t = SlotTable::new();
    let h = t.get_or_create((1, 100), snap(), 0);
    t.mark_pending(h, 42, 1);
    assert_eq!(t.slot(h).state, InvocationState::Pending(42));
    assert_eq!(t.commit(h, vec![], vec![], 2), Some(42));
    assert!(t.slot(h).state.is_ready());
    assert_eq!(t.commit(h, vec![], vec![], 3), None);
}

#[test]
fn slices_are_clamped() {
    let mut s = InvocationSlot::new((1, 1), snap(), 0);
    assert_eq!(s.slice(0, 4), b"");
    assert!(s.past_end(0));
    s.commit(b"hello".to_vec(), vec![], 1);
    assert_eq!(s.slice(0, 2), b"he");
    assert_eq!(s.slice(2, 100), b"llo");
    assert_eq!(s.slice(5, 1), b"");
    assert_eq!(s.slice(-1, 1), b"");
    assert!(s.past_end(5));
    assert!(!s.past_end(4));
}

#[test]
fn slices_put_together_are_the_result() {
    let mut s = InvocationSlot::new((1, 1), snap(), 0);
    let data: Vec<u8> = (0..=255).collect();
    s.commit(data.clone(), vec![], 1);
    let mut got: Vec<u8> = Vec::new();
    loop {
        let part = s.slice(got.len() as i64, 17).to_vec();
        if part.is_empty() {
            break;
        }
        got.extend(part);
    }
    assert_eq!(got, data);
}

#[test]
fn writes_fill_gaps_with_zeros() {
    let mut s = InvocationSlot::new((1, 1), snap(), 0);
    s.write_at(0, b"abc", 1);
    s.write_at(3, b"def", 1);
    assert_eq!(s.write_buf, b"abcdef");
    s.write_at(1, b"X", 1);
    assert_eq!(s.write_buf, b"aXcdef");
    s.write_at(8, b"!", 2);
    assert_eq!(s.write_buf, b"aXcdef\0\0!");
    assert_eq!(s.last_touched, 2);
}

#[test]
fn reset_forgets_results() {
    let mut s = InvocationSlot::new((1, 1), snap(), 0);
    s.write_at(0, b"abc", 1);
    s.commit(b"r".to_vec(), b"t".to_vec(), 2);
    s.reset(1, 3);
    assert_eq!(s.write_buf, b"a");
    assert!(s.result.is_empty());
    assert!(s.trace.is_empty());
    assert_eq!(s.state, InvocationState::Idle);
    assert_eq!(s.take_input(), b"a".to_vec());
    assert!(s.write_buf.is_empty());
}

#[test]
fn inodes_follow_the_tool() {
    assert_eq!(tool_dir_ino(0), 1000);
    assert_eq!(tool_dir_ino(3), 1300);
    assert_eq!(how_to_ino(3), 1301);
    assert_eq!(endpoint_ino(3, 2), 1312);
}

#[test]
fn paths_keep_their_numbers() {
    let mut t = PathTable::new();
    let a = DiskPath::from_text("/tools/a");
    let b = DiskPath::from_text("/tools/b");
    assert_eq!(t.ino_for_path(&a), 100_001);
    assert_eq!(t.ino_for_path(&b), 100_002);
    assert_eq!(t.ino_for_path(&DiskPath::from_text("/tools//a/")), 100_001);
    assert_eq!(t.find(&b), Some(100_002));
    assert_eq!(t.path_for_ino(100_001).unwrap().text(), "/tools/a");
    assert!(t.path_for_ino(100_000).is_none());
    assert!(t.path_for_ino(100_003).is_none());
    assert_eq!(t.len(), 2);
}

#[test]
fn callers_without_a_process_have_no_session() {
    assert_eq!(caller_sid(0, 77), None);
    assert_eq!(caller_sid(12, -1), None);
    assert_eq!(caller_sid(12, 77), Some(77));
}
