use paradis::BoundedParAccess;
use paradis::CheckedUnique;
use paradis::DMatrixParAccessMut;
use paradis::IndexAZip;
use paradis::IndexProduct;
use paradis::LinearParAccess;
use paradis::Repeat;
use paradis::SliceParAccessMut;
use paradis::SplittableParAccess;
use paradis::create_iter;
use paradis::create_par_iter;
use paradis::narrow_access_to_indices;

/// Doubles every record of a linear access over `range`.
fn double_range(access: &mut SliceParAccessMut<f64>, start: usize, end: usize) {
    for i in start..end {
        let x = *access.get_unsync(i);
        access.set_unsync(i, 2.0 * x);
    }
}

#[test]
fn scattered_indices_double_exactly_selected_positions() {
    let data = vec![1.0f64; 10000];
    let indices = vec![900usize, 5, 10, 400, 1000, 100, 200];
    let checked = CheckedUnique::from_hashable_indices(indices.clone())
        .expect("All indices unique");
    let mut access = narrow_access_to_indices(data, &checked)
        .expect("Indices are in bounds of the data structure");

    let n = access.collection_len();
    assert_eq!(n, 7);
    for loc in 0..n {
        let x = *access.get_unsync(loc);
        access.set_unsync(loc, 2.0 * x);
    }

    let data = access.into_base().into_records();
    for (idx, elem) in data.into_iter().enumerate() {
        if indices.contains(&idx) {
            assert_eq!(elem, 2.0);
        } else {
            assert_eq!(elem, 1.0);
        }
    }
}

#[test]
fn product_selects_sub_block_of_grid() {
    // A 4x5 grid with entry 5 * row + column, stored column-major.
    let rows = 4usize;
    let cols = 5usize;
    let mut data = vec![0i32; rows * cols];
    for i in 0..rows {
        for j in 0..cols {
            data[j * rows + i] = (5 * i + j) as i32;
        }
    }

    let access = DMatrixParAccessMut::from_matrix_parts(data, rows, cols);
    let indices = IndexProduct(1..=2, 2..=3);
    let mut narrowed = narrow_access_to_indices(access, &indices)
        .expect("Indices must be in bounds");

    assert_eq!(narrowed.collection_len(), 4);
    for loc in 0..4 {
        let x = *narrowed.get_unsync(loc);
        narrowed.set_unsync(loc, 2 * x);
    }

    let data = narrowed.into_base().into_records();
    for i in 0..rows {
        for j in 0..cols {
            let original = (5 * i + j) as i32;
            let expected = if (1..=2).contains(&i) && (2..=3).contains(&j) {
                2 * original
            } else {
                original
            };
            assert_eq!(data[j * rows + i], expected);
        }
    }
}

#[test]
fn repeat_azip_selects_single_row() {
    // A 3x5 grid with entry 5 * row + column, stored column-major.
    let rows = 3usize;
    let cols = 5usize;
    let mut data = vec![0i32; rows * cols];
    for i in 0..rows {
        for j in 0..cols {
            data[j * rows + i] = (5 * i + j) as i32;
        }
    }

    let access = DMatrixParAccessMut::from_matrix_parts(data, rows, cols);
    let indices = IndexAZip::new(Repeat::value(1usize).times(5), 0..5);
    let mut narrowed = narrow_access_to_indices(access, &indices)
        .expect("Indices must be in bounds");

    assert_eq!(narrowed.collection_len(), 5);
    for loc in 0..5 {
        let x = *narrowed.get_unsync(loc);
        narrowed.set_unsync(loc, 2 * x);
    }

    let data = narrowed.into_base().into_records();
    for i in 0..rows {
        for j in 0..cols {
            let original = (5 * i + j) as i32;
            let expected = if i == 1 {
                2 * original
            } else {
                original
            };
            assert_eq!(data[j * rows + i], expected);
        }
    }
}

#[test]
fn identity_range_narrowing_round_trips() {
    let data = vec![7, 8, 9, 10];
    let n = data.len();
    let range = 0..n;
    let narrowed = narrow_access_to_indices(data.clone(), &range)
        .expect("identity range is in bounds");
    assert_eq!(narrowed.collection_len(), n);

    // Sequential iteration over the narrowed access yields every element
    // exactly once, in order.
    let mut iter = create_iter(narrowed);
    let mut seen = Vec::new();
    while let Some(value) = iter.next() {
        seen.push(value);
    }
    assert_eq!(seen, data);
}

#[test]
fn split_halves_cover_range_exactly_once() {
    let access = SliceParAccessMut::from_slice_mut(vec![10, 20, 30, 40, 50]);
    let producer = create_par_iter(access).into_producer();
    assert_eq!(producer.len(), 5);

    let (left, right) = producer.split_at(2);
    assert_eq!(left.len(), 2);
    assert_eq!(right.len(), 3);

    let mut seen = Vec::new();
    let mut left_iter = left.into_iter();
    while let Some(value) = left_iter.next() {
        seen.push(value);
    }
    let mut right_iter = right.into_iter();
    while let Some(value) = right_iter.next() {
        seen.push(value);
    }
    assert_eq!(seen, vec![10, 20, 30, 40, 50]);

    // Splitting down to singletons also reproduces sequential order.
    let access = SliceParAccessMut::from_slice_mut(vec![1, 2, 3]);
    let producer = create_par_iter(access).into_producer();
    let (left, right) = producer.split_at(1);
    let (middle, last) = right.split_at(1);
    let mut seen = Vec::new();
    for piece in [left, middle, last] {
        let mut iter = piece.into_iter();
        while let Some(value) = iter.next() {
            seen.push(value);
        }
    }
    assert_eq!(seen, vec![1, 2, 3]);
}

#[test]
fn parallel_split_doubling_touches_disjoint_halves() {
    let data = vec![1.0f64; 10000];
    let access = SliceParAccessMut::from_slice_mut(data);
    let (left, right) = access.split_access_at(5000);

    let (left, right) = rayon::join(
        move || {
            let mut left = left;
            double_range(&mut left, 0, 2500);
            left
        },
        move || {
            let mut right = right;
            double_range(&mut right, 5000, 10000);
            right
        },
    );

    let mut data = left.into_records();
    data.append(&mut right.into_records());
    assert_eq!(data.len(), 10000);
    for (idx, elem) in data.into_iter().enumerate() {
        if idx < 2500 || idx >= 5000 {
            assert_eq!(elem, 2.0);
        } else {
            assert_eq!(elem, 1.0);
        }
    }
}
