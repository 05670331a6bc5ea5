use dnd_gm_helper::id::Uid;
use dnd_gm_helper::list::IdList;

#[test]
fn push_issues_fresh_ids_in_order() {
    let mut l: IdList<&str> = IdList::new();
    let a = l.push("a");
    let b = l.push("b");
    let c = l.push("c");
    assert_eq!(a, Uid(0));
    assert_eq!(b, Uid(1));
    assert_eq!(c, Uid(2));
    assert_eq!(l.ids(), vec![a, b, c]);
    assert_eq!(l.remove(b), Some("b"));
    let d = l.push("d");
    assert_eq!(d, Uid(3));
    assert_eq!(l.ids(), vec![a, c, d]);
    assert_eq!(l.len(), 3);
}

#[test]
fn removal_never_frees_an_id_for_reuse() {
    let mut l: IdList<u32> = IdList::new();
    let a = l.push(1);
    assert_eq!(l.remove(a), Some(1));
    l.clear();
    let b = l.push(2);
    assert_ne!(a, b);
    assert_eq!(b, Uid(1));
}

#[test]
fn push_then_remove_restores_contents() {
    let mut l: IdList<u32> = IdList::new();
    l.push(10);
    l.push(20);
    let before_ids = l.ids();
    let id = l.push(30);
    assert_eq!(l.remove(id), Some(30));
    assert_eq!(l.ids(), before_ids);
    assert_eq!(l.get_by_index(0).map(|(_, v)| *v), Some(10));
    assert_eq!(l.get_by_index(1).map(|(_, v)| *v), Some(20));
    assert!(l.get_by_index(2).is_none());
}

#[test]
fn absent_ids_are_reported() {
    let mut l: IdList<u32> = IdList::new();
    let a = l.push(1);
    assert_eq!(l.get(Uid(7)), None);
    assert_eq!(l.remove(Uid(7)), None);
    assert_eq!(l.get_index_of(Uid(7)), None);
    assert!(!l.contains(Uid(7)));
    assert_eq!(l.get(a), Some(&1));
    assert_eq!(l.get_index_of(a), Some(0));
    assert_eq!(l.len(), 1);
}

#[test]
fn insert_overwrites_in_place_or_appends() {
    let mut l: IdList<u32> = IdList::new();
    let a = l.push(1);
    let b = l.push(2);
    assert_eq!(l.insert(a, 5), Some(1));
    assert_eq!(l.ids(), vec![a, b]);
    assert_eq!(l.get(a), Some(&5));
    assert_eq!(l.insert(Uid(9), 7), None);
    assert_eq!(l.ids(), vec![a, b, Uid(9)]);
    // identifiers below an inserted one are never issued afterwards
    assert_eq!(l.push(8), Uid(10));
}

#[test]
fn positions_shift_after_removal() {
    let mut l: IdList<char> = IdList::new();
    let a = l.push('a');
    l.push('b');
    l.push('c');
    l.remove(a);
    let (id, v) = l.get_by_index(0).unwrap();
    assert_eq!(*v, 'b');
    assert_eq!(id, Uid(1));
    assert!(l.get_by_index(2).is_none());
}

#[test]
fn swap_indices_keeps_pairs() {
    let mut l: IdList<char> = IdList::new();
    let a = l.push('a');
    let b = l.push('b');
    let c = l.push('c');
    l.swap_indices(0, 2);
    assert_eq!(l.ids(), vec![c, b, a]);
    assert_eq!(l.get(a), Some(&'a'));
    assert_eq!(l.get_by_index(0).map(|(_, v)| *v), Some('c'));
    l.swap_indices(1, 1);
    assert_eq!(l.ids(), vec![c, b, a]);
}

#[test]
fn get_by_index_mut_changes_one_value() {
    let mut l: IdList<u32> = IdList::new();
    let a = l.push(1);
    let b = l.push(2);
    *l.get_by_index_mut(1) = 9;
    assert_eq!(l.get(a), Some(&1));
    assert_eq!(l.get(b), Some(&9));
    assert!(!l.is_empty());
}

#[test]
fn get_mut_by_id() {
    let mut l: IdList<u32> = IdList::new();
    let a = l.push(1);
    let b = l.push(2);
    if let Some(v) = l.get_mut(b) {
        *v = 20;
    }
    assert!(l.get_mut(Uid(5)).is_none());
    assert_eq!(l.get(a), Some(&1));
    assert_eq!(l.get(b), Some(&20));
    assert_eq!(l.ids(), vec![a, b]);
    assert_eq!(l.next_id(), Uid(2));
}
