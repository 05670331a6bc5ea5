use dnd_gm_helper::id::Uid;
use dnd_gm_helper::setlist::SetList;

fn s(x: &str) -> String {
    x.to_string()
}

#[test]
fn insert_existing_name_keeps_id_and_position() {
    let mut l = SetList::new();
    let a = l.insert(s("Strength"));
    let b = l.insert(s("Dexterity"));
    let again = l.insert(s("Strength"));
    assert_eq!(again, a);
    assert_eq!(l.len(), 2);
    assert_eq!(l.get_index(&s("Strength")), Some(0));
    assert_eq!(l.get_id(0), Some(a));
    assert_eq!(l.get_id(1), Some(b));
    assert_eq!(l.get_names(), vec![s("Strength"), s("Dexterity")]);
}

#[test]
fn setlist_lookup_by_name_and_position() {
    let mut l = SetList::new();
    l.insert(s("Poison"));
    l.insert(s("Burn"));
    assert_eq!(l.get(1), Some(&s("Burn")));
    assert_eq!(l.get(2), None);
    assert_eq!(l.get_index(&s("Burn")), Some(1));
    assert_eq!(l.get_index(&s("burn")), None);
    assert_eq!(l.get_id(5), None);
}

#[test]
fn setlist_remove_by_name() {
    let mut l = SetList::new();
    l.insert(s("Poison"));
    let b = l.insert(s("Burn"));
    l.insert(s("Stun"));
    assert_eq!(l.remove(&s("Poison")), Some((0, s("Poison"))));
    assert_eq!(l.remove(&s("Poison")), None);
    assert_eq!(l.get_names(), vec![s("Burn"), s("Stun")]);
    assert_eq!(l.get_id(0), Some(b));
    // a name added after removals gets a fresh identifier
    assert_eq!(l.insert(s("Poison")), Uid(3));
    assert!(!l.is_empty());
}

#[test]
fn rename_is_remove_then_insert() {
    let mut l = SetList::new();
    l.insert(s("Str"));
    l.insert(s("Dex"));
    let (pos, old) = l.remove(&s("Str")).unwrap();
    assert_eq!(pos, 0);
    assert_eq!(old, s("Str"));
    l.insert(s("Strength"));
    assert_eq!(l.get_names(), vec![s("Dex"), s("Strength")]);
}
