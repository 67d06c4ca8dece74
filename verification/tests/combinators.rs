use paradis::IndexFlatten;
use paradis::IndexList;
use paradis::IndexProduct;
use paradis::IndexZip;
use paradis::IndexAZip;
use paradis::IndexCast;
use paradis::IndexTranspose;
use paradis::Transpose;
use paradis::Repeat;
use paradis::collect_indices;

#[test]
fn index_product_basic_tests() {
    let product = IndexProduct(0..3, 1..4);
    assert_eq!(product.num_indices(), 9);

    assert_eq!(product.get_index(0), (0, 1));
    assert_eq!(product.get_index(1), (0, 2));
    assert_eq!(product.get_index(2), (0, 3));
    assert_eq!(product.get_index(3), (1, 1));
    assert_eq!(product.get_index(4), (1, 2));
    assert_eq!(product.get_index(5), (1, 3));
    assert_eq!(product.get_index(6), (2, 1));
    assert_eq!(product.get_index(7), (2, 2));
    assert_eq!(product.get_index(8), (2, 3));
}

#[test]
fn index_product_bounds_are_tight() {
    let product = IndexProduct(2..5, 1..4);
    let bounds = product.bounds().expect("ranges always report bounds");
    assert_eq!(bounds.offset, (2, 1));
    assert_eq!(bounds.extent, (3, 3));
}

#[test]
fn index_zip_pairs_positionally() {
    let zipped = IndexZip::new(0..3, 4..7);
    assert_eq!(zipped.num_indices(), 3);
    assert_eq!(zipped.get_index(0), (0, 4));
    assert_eq!(zipped.get_index(1), (1, 5));
    assert_eq!(zipped.get_index(2), (2, 6));

    let azipped = IndexAZip::new(0..2, 7..9);
    assert_eq!(azipped.num_indices(), 2);
    assert_eq!(azipped.get_index(0), (0, 7));
    assert_eq!(azipped.get_index(1), (1, 8));
}

#[test]
fn index_cast_converts_losslessly() {
    let narrow_typed: Vec<u32> = vec![9, 4, 7];
    let cast: IndexCast<Vec<u32>, usize> = IndexCast::new(narrow_typed);
    assert_eq!(cast.num_indices(), 3);
    assert_eq!(cast.get_index(0), 9usize);
    assert_eq!(cast.get_index(1), 4usize);
    assert_eq!(cast.get_index(2), 7usize);
}

#[test]
fn index_transpose_reverses_pairs() {
    assert_eq!((3usize, 8usize).transpose(), (8usize, 3usize));

    let transposed = IndexTranspose(IndexZip::new(0..2, 5..7));
    assert_eq!(transposed.num_indices(), 2);
    assert_eq!(transposed.get_index(0), (5, 0));
    assert_eq!(transposed.get_index(1), (6, 1));
}

#[test]
fn repeat_yields_fixed_index() {
    let repeated = Repeat::value((2usize, 3usize)).times(4);
    assert_eq!(repeated.num_indices(), 4);
    assert_eq!(repeated.get_index(0), (2, 3));
    assert_eq!(repeated.get_index(3), (2, 3));
    let bounds = repeated.bounds().expect("repetition is always bounded");
    assert_eq!(bounds.offset, (2, 3));
    assert_eq!(bounds.extent, (1, 1));
}

#[test]
fn collect_indices_lists_locations_in_order() {
    let indices: Vec<usize> = collect_indices(1..5);
    assert_eq!(indices, vec![1, 2, 3, 4]);

    let pairs = collect_indices(IndexProduct(0..2, 0..2));
    assert_eq!(pairs, vec![(0, 0), (0, 1), (1, 0), (1, 1)]);
}

#[test]
fn flatten_list_of_nested_pairs() {
    let nested = IndexProduct(IndexProduct(0..2, 0..2), IndexZip::new(0..2, 0..2));
    let flat = IndexFlatten(nested);
    assert_eq!(flat.num_indices(), 8);
    assert_eq!(flat.get_index(0), (0, 0, 0, 0));
    assert_eq!(flat.get_index(1), (0, 0, 1, 1));
    assert_eq!(flat.get_index(2), (0, 1, 0, 0));
    assert_eq!(flat.get_index(7), (1, 1, 1, 1));
}
