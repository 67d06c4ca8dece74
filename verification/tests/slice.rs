use paradis::BoundedParAccess;
use paradis::IntoParAccess;
use paradis::LinearParAccess;
use paradis::SliceParAccessMut;
use paradis::SplittableParAccess;

#[test]
fn test_basic_access() {
    let data: Vec<u32> = vec![0, 1, 2, 3];
    let mut access = data.into_par_access();

    assert_eq!(access.collection_len(), 4);
    assert_eq!(access.get_unsync(0), &0);
    assert_eq!(access.get_unsync(1), &1);
    assert_eq!(access.get_unsync(2), &2);
    assert_eq!(access.get_unsync(3), &3);

    // Replace every entry, then read the new values back.
    access.set_unsync(0, 4);
    access.set_unsync(1, 5);
    access.set_unsync(2, 6);
    access.set_unsync(3, 7);

    assert_eq!(access.get_unsync(0), &4);
    assert_eq!(access.get_unsync(1), &5);
    assert_eq!(access.get_unsync(2), &6);
    assert_eq!(access.get_unsync(3), &7);
}

#[test]
fn split_transfers_disjoint_ownership() {
    let access = SliceParAccessMut::from_slice_mut(vec![10, 20, 30, 40, 50]);
    let (mut left, mut right) = access.split_access_at(2);

    assert_eq!(left.collection_len(), 2);
    assert_eq!(right.collection_len(), 3);
    assert_eq!(left.bounds().offset, 0);
    assert_eq!(right.bounds().offset, 2);

    // Each half addresses the collection by the original, absolute indices.
    assert_eq!(left.get_unsync(0), &10);
    assert_eq!(left.get_unsync(1), &20);
    assert_eq!(right.get_unsync(2), &30);
    assert_eq!(right.get_unsync(4), &50);

    left.set_unsync(0, 11);
    right.set_unsync(4, 51);
    assert_eq!(left.into_records(), vec![11, 20]);
    assert_eq!(right.into_records(), vec![30, 40, 51]);
}
