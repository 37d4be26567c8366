use chipkit::arrayvec::ArrayVec;
use chipkit::flatmap::FlatMap;
use chipkit::fswalk::{DirHandle, FileHandle, Handle};
use chipkit::mpsc::{Inner, InnerState, ReceiveError, SendError};
use chipkit::graph::mark_reachable;
use chipkit::pstack::PStack;
use chipkit::search::{eq_bytes, find_subslice, line_contains};

#[test]
fn arrayvec_respects_its_capacity() {
    let mut v: ArrayVec<u32, 3> = ArrayVec::new();
    assert_eq!(v.capacity(), 3);
    assert!(v.is_empty());
    assert_eq!(v.push(10), Ok(()));
    assert_eq!(v.push(20), Ok(()));
    assert_eq!(v.push(30), Ok(()));
    assert_eq!(v.push(40), Err(40));
    assert_eq!(v.len(), 3);
    assert_eq!(*v.get(1), 20);
    assert_eq!(v.pop(), Some(30));
    assert_eq!(v.pop(), Some(20));
    assert_eq!(v.pop(), Some(10));
    assert_eq!(v.pop(), None);
}

#[test]
fn pstack_is_persistent() {
    let empty: PStack<i32> = PStack::new();
    assert!(empty.is_empty());
    assert!(empty.pop().is_none());
    let one = empty.push(1);
    let two = one.push(2);
    // The older stacks are untouched by later pushes.
    assert_eq!(empty.len(), 0);
    assert_eq!(one.len(), 1);
    assert_eq!(two.len(), 2);
    let (top, rest) = two.pop().unwrap();
    assert_eq!(*top, 2);
    assert_eq!(rest.len(), 1);
    let (top, rest) = rest.pop().unwrap();
    assert_eq!(*top, 1);
    assert!(rest.is_empty());
}

#[test]
fn pstack_iterates_top_first() {
    let s = PStack::new().push(1).push(2).push(3);
    let mut it = s.iter();
    let mut seen = Vec::new();
    while let Some(v) = it.next() {
        seen.push(*v);
    }
    assert_eq!(seen, vec![3, 2, 1]);
    let copy = s.clone();
    assert_eq!(copy.len(), 3);
    assert_eq!(*copy.pop().unwrap().0, 3);
}

#[test]
fn flatmap_keeps_keys_sorted_and_unique() {
    let mut m: FlatMap<u64, &str> = FlatMap::new();
    assert!(m.is_empty());
    assert_eq!(m.insert(30, "thirty"), None);
    assert_eq!(m.insert(10, "ten"), None);
    assert_eq!(m.insert(20, "twenty"), None);
    assert_eq!(m.len(), 3);
    let keys: Vec<u64> = m.as_slice().iter().map(|p| p.0).collect();
    assert_eq!(keys, vec![10, 20, 30]);
    assert_eq!(m.insert(20, "TWENTY"), Some("twenty"));
    assert_eq!(m.len(), 3);
    assert_eq!(m.get(&20), Some(&"TWENTY"));
    assert_eq!(m.get(&25), None);
    assert_eq!(m.remove(&10), Some("ten"));
    assert_eq!(m.remove(&10), None);
    assert_eq!(m.remove_entry(&30), Some((30, "thirty")));
    assert_eq!(m.len(), 1);
}

#[test]
fn channel_buffer_orders_and_closes() {
    let mut inner: Inner<u32> = Inner::new();
    assert!(inner.is_empty());
    assert!(matches!(inner.recv_step(), Err(ReceiveError::Empty)));
    inner.push_back(1);
    inner.push_back(2);
    assert_eq!(inner.recv_step(), Ok(1));
    inner.change_state(InnerState::Closed);
    assert_eq!(inner.recv_step(), Ok(2));
    assert!(matches!(inner.recv_step(), Err(ReceiveError::Closed)));
    assert_eq!(inner.pop_front(), None);
}

#[test]
fn channel_errors_describe_themselves() {
    assert_eq!(ReceiveError::Empty.describe(), "channel is empty");
    assert_eq!(ReceiveError::Closed.describe(), "channel is closed");
    let e = SendError { value: 7u8 };
    assert_eq!(e.describe(), "channel is closed");
    assert_eq!(e.value, 7);
}

#[test]
fn walker_handles_carry_their_flags_once() {
    let mut h = Handle::Dir(DirHandle::new("a/b".to_string()));
    assert!(!h.take_checked());
    if let Handle::Dir(d) = &mut h {
        assert_eq!(d.path(), "a/b");
        d.descend();
    }
    assert!(h.take_checked());
    assert!(!h.take_checked());

    let mut f = FileHandle::new("a/c.txt".to_string());
    f.read();
    let mut h = Handle::File(f);
    assert!(h.take_checked());
    assert!(!h.take_checked());

    let mut h = Handle::Content { file_path: "a/c.txt".to_string(), content: vec![1, 2, 3] };
    assert!(!h.take_checked());
}

#[test]
fn byte_search_finds_first_occurrence() {
    assert!(eq_bytes(b"abc", b"abc"));
    assert!(!eq_bytes(b"abc", b"abd"));
    assert_eq!(find_subslice(b"hello world", b"o w"), Some(4));
    assert_eq!(find_subslice(b"hello world", b"xyz"), None);
    assert_eq!(find_subslice(b"aaa", b""), Some(0));
    assert_eq!(find_subslice(b"abcabc", b"abc"), Some(0));
    assert!(line_contains("a needle in a haystack", "needle"));
    assert!(!line_contains("a haystack", "needle"));
}

#[test]
fn graph_marking_follows_edges_from_roots() {
    // 0 -> 1 -> 2, 3 -> 3 (a cycle no root reaches), 4 isolated.
    let graph: Vec<Vec<usize>> = vec![vec![1], vec![2], vec![], vec![3], vec![]];
    let roots = vec![true, false, false, false, false];
    assert_eq!(mark_reachable(&graph, &roots), vec![true, true, true, false, false]);
    // An unreachable cycle stays unmarked even though it points at itself.
    let roots = vec![false, false, false, false, true];
    assert_eq!(mark_reachable(&graph, &roots), vec![false, false, false, false, true]);
}
