use mc_networking::data_types::bitset::BitSet;

#[test]
fn bitset_test() {
    let mut bs = BitSet::new();

    assert_eq!(bs.get_bit(0), false);
    assert_eq!(bs.get_bit(1), false);
    assert_eq!(bs.longs.len(), 0);

    bs.set_bit(0, true);

    assert_eq!(bs.get_bit(0), true);
    assert_eq!(bs.get_bit(1), false);
    assert_eq!(bs.longs.as_slice(), &[1]);

    bs.set_bit(0, false);

    assert_eq!(bs.get_bit(0), false);
    assert_eq!(bs.get_bit(1), false);
    assert_eq!(bs.longs.as_slice(), &[0]);

    bs.compactify();

    assert_eq!(bs.get_bit(0), false);
    assert_eq!(bs.get_bit(1), false);
    assert_eq!(bs.longs.len(), 0);

    bs.set_bit(1, true);
    bs.set_bit(2, true);

    assert_eq!(bs.get_bit(0), false);
    assert_eq!(bs.get_bit(1), true);
    assert_eq!(bs.get_bit(2), true);
    assert_eq!(bs.get_bit(3), false);
    assert_eq!(bs.longs.as_slice(), &[0b110]);

    bs.set_bit(2, false);
    bs.set_bit(3, true);

    assert_eq!(bs.get_bit(0), false);
    assert_eq!(bs.get_bit(1), true);
    assert_eq!(bs.get_bit(2), false);
    assert_eq!(bs.get_bit(3), true);
    assert_eq!(bs.longs.as_slice(), &[0b1010]);

    (0..100).for_each(|i| bs.set_bit(i, i % 4 == 0));

    assert_eq!(bs.longs.len(), 2);

    (0..300).for_each(|i| bs.set_bit(i, i % 4 == 0));

    assert_eq!(bs.longs.len(), 5);
    assert!((0..300).all(|i| bs.get_bit(i) == (i % 4 == 0)));

    (0..300).for_each(|i| bs.set_bit(i, false));

    assert_eq!(bs.longs.len(), 5);
    assert!((0..300).all(|i| !bs.get_bit(i)));

    bs.compactify();

    assert_eq!(bs.longs.len(), 0);
}

#[test]
fn bitset_far_bit_grows_and_compacts() {
    let mut bs = BitSet::new();
    bs.set_bit(200, true);
    assert_eq!(bs.longs.len(), 4);
    assert!(bs.get_bit(200));
    assert!(!bs.get_bit(199));
    bs.compactify();
    assert_eq!(bs.longs.len(), 4);
    bs.set_bit(200, false);
    bs.compactify();
    assert_eq!(bs.longs.len(), 0);
}

#[test]
fn compactify_twice_changes_nothing() {
    let mut bs = BitSet::new();
    bs.set_bit(130, true);
    bs.set_bit(130, false);
    bs.set_bit(3, true);
    bs.compactify();
    let once = bs.clone();
    bs.compactify();
    assert_eq!(bs.longs, once.longs);
    assert!(bs.get_bit(3));
    assert!(!bs.get_bit(130));
}

#[test]
fn set_entry_leaves_the_other_entries() {
    let mut b = mc_networking::data_types::bitbuffer::BitBuffer::create(5, 24);
    for i in 0..24 {
        b.set_entry(i, (i % 32) as u32);
    }
    b.set_entry(13, 31);
    for i in 0..24 {
        let want = if i == 13 { 31 } else { (i % 32) as u32 };
        assert_eq!(b.get_entry(i), want);
    }
}
