use butter::genmap::GenMap;

#[test]
fn test_insert() {
    let mut m: GenMap<String> = GenMap::default();
    let v1 = "thing1".to_owned();
    let v2 = "thing2".to_owned();
    let h1 = m.insert(v1.clone());
    let h2 = m.insert(v2.clone());
    assert_eq!(m.count(), 2);

    assert_eq!(&v1, m.get(h1).unwrap());
    assert_eq!(&v2, m.get(h2).unwrap());

    assert_ne!(&v1, m.get(h2).unwrap());
    assert_ne!(&v2, m.get(h1).unwrap());
}

#[test]
fn test_remove() {
    let mut m: GenMap<String> = GenMap::default();
    let v1 = "thing1".to_owned();
    let v2 = "thing2".to_owned();
    let h1 = m.insert(v1.clone());
    let h2 = m.insert(v2.clone());
    assert_eq!(m.count(), 2);

    assert_eq!(&v1, m.get(h1).unwrap());
    assert_eq!(&v2, m.get(h2).unwrap());

    m.remove(h1);
    assert!(m.get(h1).is_none());
    assert!(m.get(h2).is_some());
    assert_eq!(m.count(), 1);

    m.remove(h2);
    assert!(m.get(h1).is_none());
    assert!(m.get(h2).is_none());
    assert_eq!(m.count(), 0);
}

#[test]
fn test_remove_then_add() {
    let mut m: GenMap<String> = GenMap::default();
    let v1 = "thing1".to_owned();
    let v2 = "thing2".to_owned();
    let h1 = m.insert(v1.clone());
    let h2 = m.insert(v2.clone());

    assert_eq!(&v1, m.get(h1).unwrap());
    assert_eq!(&v2, m.get(h2).unwrap());

    m.remove(h1);
    assert_eq!(m.count(), 1);
    assert!(m.get(h1).is_none());
    assert!(m.get(h2).is_some());

    let v3 = "thing3".to_owned();
    let h3 = m.insert(v3.clone());
    assert!(m.get(h1).is_none());
    assert!(m.get(h3).is_some());
    assert_eq!(m.count(), 2);
}

#[test]
fn test_freelist() {
    let mut m: GenMap<String> = GenMap::default();
    let v1 = "thing1".to_owned();
    let v2 = "thing2".to_owned();
    let v3 = "thing3".to_owned();
    let h1 = m.insert(v1.clone());
    let h2 = m.insert(v2.clone());
    let _h3 = m.insert(v3.clone());

    assert_eq!(&v1, m.get(h1).unwrap());
    assert_eq!(&v2, m.get(h2).unwrap());

    assert_eq!(m.freelist_len(), 0);
    assert_eq!(m.count(), 3);

    m.remove(h1);
    assert_eq!(m.freelist_len(), 1);
    assert_eq!(m.count(), 2);

    // Removing the same element again changes nothing.
    m.remove(h1);
    assert_eq!(m.freelist_len(), 1);
    assert_eq!(m.count(), 2);

    m.remove(h2);
    assert_eq!(m.freelist_len(), 2);
    assert_eq!(m.count(), 1);
}

#[test]
fn reused_slot_keeps_old_handle_stale() {
    let mut m: GenMap<u32> = GenMap::with_capacity(4);
    let h1 = m.insert(10);
    assert_eq!(m.remove(h1), Some(10));
    let h2 = m.insert(20);
    assert_eq!(h2.idx, h1.idx);
    assert_ne!(h2.gen, h1.gen);
    assert!(m.get(h1).is_none());
    assert_eq!(m.get(h2), Some(&20));
    assert_eq!(m.remove(h1), None);
    assert_eq!(m.count(), 1);
}

#[test]
fn get_mut_changes_the_item() {
    let mut m: GenMap<u32> = GenMap::default();
    let h = m.insert(1);
    *m.get_mut(h).unwrap() = 5;
    assert_eq!(m.get(h), Some(&5));
    m.remove(h);
    assert!(m.get_mut(h).is_none());
}

#[test]
fn iter_lists_live_handles() {
    let mut m: GenMap<u32> = GenMap::default();
    let a = m.insert(1);
    let b = m.insert(2);
    let c = m.insert(3);
    m.remove(b);
    let hs = m.iter();
    assert_eq!(hs, vec![a, c]);
    assert_eq!(m.inner_unck().len(), 3);
}

#[test]
fn room_for_insertions() {
    let m: GenMap<u32> = GenMap::default();
    assert!(m.has_room_for(1000));
}
