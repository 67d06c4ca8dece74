use paradis::BoundedParAccess;
use paradis::LinearParAccess;
use paradis::SliceParAccessMut;
use paradis::create_iter;

#[test]
fn basic_iteration() {
    let mut access = SliceParAccessMut::from_slice_mut(vec![0, 1, 2, 3, 4, 5]);
    let n = access.collection_len();
    for i in 0..n {
        let elem = *access.get_unsync(i);
        access.set_unsync(i, elem * 2);
    }
    let data = access.into_records();
    assert_eq!(data, vec![0, 2, 4, 6, 8, 10]);

    let mut iter = create_iter(data);
    let mut seen = Vec::new();
    while let Some(value) = iter.next() {
        seen.push(value);
    }
    assert_eq!(seen, vec![0, 2, 4, 6, 8, 10]);
}

#[test]
fn bidirectional_iteration() {
    let mut iter = create_iter(vec![1, 2, 3, 4]);
    assert_eq!(iter.len(), 4);
    assert_eq!(iter.next(), Some(1));
    assert_eq!(iter.next_back(), Some(4));
    assert_eq!(iter.next(), Some(2));
    assert_eq!(iter.next_back(), Some(3));
    assert_eq!(iter.len(), 0);
    assert_eq!(iter.next(), None);
    assert_eq!(iter.next_back(), None);
}
