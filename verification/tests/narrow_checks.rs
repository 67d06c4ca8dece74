use paradis::AssumedUnique;
use paradis::BoundedParAccess;
use paradis::CheckedUnique;
use paradis::IndexList;
use paradis::LinearParAccess;
use paradis::NonUniqueIndex;
use paradis::OutOfBounds;
use paradis::SliceParAccessMut;
use paradis::narrow_access_to_indices;

#[test]
fn check_unique_rejects_any_repeat() {
    let result = CheckedUnique::from_hashable_indices(vec![3usize, 1, 4, 1, 5]);
    assert_eq!(result.unwrap_err(), NonUniqueIndex);

    let result = CheckedUnique::from_hashable_indices(vec![(0usize, 0usize), (0, 0)]);
    assert_eq!(result.unwrap_err(), NonUniqueIndex);
}

#[test]
fn check_unique_accepts_distinct_and_reports_tight_bounds() {
    let checked = CheckedUnique::from_hashable_indices(vec![9usize, 2, 5]).unwrap();
    assert_eq!(checked.num_indices(), 3);
    assert_eq!(checked.get_index(0), 9);
    let bounds = checked.bounds().expect("checked lists are always bounded");
    assert_eq!(bounds.offset, 2);
    assert_eq!(bounds.extent, 8);

    let pairs = CheckedUnique::from_hashable_indices(vec![(3usize, 7usize), (1, 9), (2, 8)])
        .unwrap();
    let bounds = pairs.bounds().expect("checked lists are always bounded");
    assert_eq!(bounds.offset, (1, 7));
    assert_eq!(bounds.extent, (3, 3));

    // An empty list is trivially unique.
    let empty = CheckedUnique::from_hashable_indices(Vec::<usize>::new()).unwrap();
    assert_eq!(empty.num_indices(), 0);
}

#[test]
fn narrow_rejects_exactly_out_of_bounds_indices() {
    // A bounded list outside the collection: rejected.
    let data = vec![0.0f64; 4];
    let indices = 2..6;
    let result = narrow_access_to_indices(data, &indices);
    assert_eq!(result.map(|_| ()).unwrap_err(), OutOfBounds);

    // The same list against a large enough collection: accepted, with one
    // location per index.
    let data = vec![0.0f64; 6];
    let indices = 2..6;
    let access = narrow_access_to_indices(data, &indices).unwrap();
    assert_eq!(access.collection_len(), 4);

    // A list that reports no bounds is checked index by index.
    let data = vec![0.0f64; 4];
    let indices = AssumedUnique::assume_unique(vec![0usize, 3, 4]);
    let result = narrow_access_to_indices(data, &indices);
    assert_eq!(result.map(|_| ()).unwrap_err(), OutOfBounds);

    let data = vec![0.0f64; 4];
    let indices = AssumedUnique::assume_unique(vec![0usize, 3, 2]);
    let access = narrow_access_to_indices(data, &indices).unwrap();
    assert_eq!(access.collection_len(), 3);
}

#[test]
fn narrowed_access_translates_locations() {
    let data = vec![10, 11, 12, 13, 14];
    let indices = CheckedUnique::from_hashable_indices(vec![4usize, 0, 2]).unwrap();
    let mut access = narrow_access_to_indices(data, &indices).unwrap();

    assert_eq!(access.get_unsync(0), &14);
    assert_eq!(access.get_unsync(1), &10);
    assert_eq!(access.get_unsync(2), &12);

    access.set_unsync(1, 99);
    let base: SliceParAccessMut<i32> = access.into_base();
    assert_eq!(base.into_records(), vec![99, 11, 12, 13, 14]);
}
