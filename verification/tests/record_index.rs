use paradis::Bounds;
use paradis::RecordIndex;

#[test]
fn usize_in_bounds() {
    // Positive tests
    assert!(0usize.in_bounds(&Bounds { offset: 0, extent: 1 }));
    assert!(1usize.in_bounds(&Bounds { offset: 1, extent: 1 }));
    assert!(1usize.in_bounds(&Bounds { offset: 1, extent: 1 }));
    assert!(1usize.in_bounds(&Bounds { offset: 0, extent: 2 }));

    // Negative tests
    assert!(!0usize.in_bounds(&Bounds { offset: 0, extent: 0 }));
    assert!(!1usize.in_bounds(&Bounds { offset: 0, extent: 0 }));
    assert!(!1usize.in_bounds(&Bounds { offset: 0, extent: 1 }));
}

#[test]
fn usize_2dim_in_bounds() {
    // Zero extent
    let bounds_zero_extent = Bounds { offset: (0, 0), extent: (0, 0) };
    assert!(!(0usize, 0usize).in_bounds(&bounds_zero_extent)); // Point at the origin
    assert!(!(1usize, 1usize).in_bounds(&bounds_zero_extent)); // Any other point

    // Non-zero extent
    let bounds_normal = Bounds { offset: (0, 0), extent: (2, 2) };
    assert!((0usize, 0usize).in_bounds(&bounds_normal)); // Inside bounds
    assert!((1usize, 1usize).in_bounds(&bounds_normal)); // Inside bounds
    assert!(!(2usize, 2usize).in_bounds(&bounds_normal)); // Outside bounds

    // Bigger bounds with offset
    let bounds_offset = Bounds { offset: (1, 1), extent: (2, 2) };
    assert!(!(0usize, 0usize).in_bounds(&bounds_offset)); // Outside bounds
    assert!((1usize, 1usize).in_bounds(&bounds_offset)); // Edge of bounds
    assert!((2usize, 2usize).in_bounds(&bounds_offset)); // Inside bounds
    assert!(!(3usize, 3usize).in_bounds(&bounds_offset)); // Outside bounds

    // Bounds covering a larger area
    let bounds_large = Bounds { offset: (0, 0), extent: (5, 5) };
    assert!((0usize, 0usize).in_bounds(&bounds_large)); // Inside bounds
    assert!((4usize, 4usize).in_bounds(&bounds_large)); // Edge of bounds
    assert!(!(5usize, 5usize).in_bounds(&bounds_large)); // Outside bounds
}

#[test]
fn usize_3dim_in_bounds() {
    // Bounds with zero extent
    let bounds_zero_extent = Bounds { offset: (0, 0, 0), extent: (0, 0, 0) };
    assert!(!(0usize, 0usize, 0usize).in_bounds(&bounds_zero_extent)); // Origin
    assert!(!(1usize, 1usize, 1usize).in_bounds(&bounds_zero_extent)); // Any other point

    // Normal bounds
    let bounds_normal = Bounds { offset: (0, 0, 0), extent: (3, 3, 3) };
    assert!((0usize, 0usize, 0usize).in_bounds(&bounds_normal)); // Inside at origin
    assert!((1usize, 1usize, 1usize).in_bounds(&bounds_normal)); // Center point
    assert!((2usize, 2usize, 2usize).in_bounds(&bounds_normal)); // Edge of bounds
    assert!(!(3usize, 3usize, 3usize).in_bounds(&bounds_normal)); // Outside bounds

    // Bounds with offset
    let bounds_offset = Bounds { offset: (1, 1, 1), extent: (2, 2, 2) };
    assert!(!(0usize, 0usize, 0usize).in_bounds(&bounds_offset)); // Outside bounds
    assert!((1usize, 1usize, 1usize).in_bounds(&bounds_offset)); // Edge of bounds
    assert!((2usize, 2usize, 2usize).in_bounds(&bounds_offset)); // Inside bounds
    assert!(!(3usize, 3usize, 3usize).in_bounds(&bounds_offset)); // Outside bounds

    // Large bounds
    let bounds_large = Bounds { offset: (0, 0, 0), extent: (5, 5, 5) };
    assert!((0usize, 0usize, 0usize).in_bounds(&bounds_large)); // Inside at origin
    assert!((4usize, 4usize, 4usize).in_bounds(&bounds_large)); // Edge of bounds
    assert!(!(5usize, 5usize, 5usize).in_bounds(&bounds_large)); // Outside bounds
}

#[test]
fn usize_contains_bounds() {
    // Identical bounds - should contain
    assert!(usize::contains_bounds(&Bounds { offset: 0, extent: 1 },
                                   &Bounds { offset: 0, extent: 1 }));

    // Outer bounds larger than inner bounds - should contain
    assert!(usize::contains_bounds(&Bounds { offset: 0, extent: 5 },
                                   &Bounds { offset: 1, extent: 3 }));

    // Inner bounds larger than outer bounds - should not contain
    assert!(!usize::contains_bounds(&Bounds { offset: 1, extent: 3 },
                                    &Bounds { offset: 0, extent: 5 }));

    // Partial overlap - should not contain
    assert!(!usize::contains_bounds(&Bounds { offset: 0, extent: 3 },
                                    &Bounds { offset: 2, extent: 2 }));

    // No overlap - should not contain
    assert!(!usize::contains_bounds(&Bounds { offset: 0, extent: 2 },
                                    &Bounds { offset: 3, extent: 2 }));

    // Inner bounds start at the edge of outer bounds - should not contain
    assert!(!usize::contains_bounds(&Bounds { offset: 0, extent: 2 },
                                    &Bounds { offset: 2, extent: 1 }));

    // Inner bounds is exactly inside but offset is different - should contain
    assert!(usize::contains_bounds(&Bounds { offset: 0, extent: 5 },
                                   &Bounds { offset: 1, extent: 1 }));

    // Inner bounds touches the boundary edge of outer bounds - should contain
    assert!(usize::contains_bounds(&Bounds { offset: 0, extent: 4 },
                                   &Bounds { offset: 0, extent: 4 }));
}

#[test]
fn usize_2dim_contains_bounds() {
    // Identical bounds - should contain
    assert!(<(usize, usize)>::contains_bounds(&Bounds { offset: (0, 0), extent: (0, 0) },
                                              &Bounds { offset: (0, 0), extent: (0, 0) }));
    assert!(<(usize, usize)>::contains_bounds(&Bounds { offset: (0, 0), extent: (1, 1) },
                                              &Bounds { offset: (0, 0), extent: (1, 1) }));

    // Outer bounds larger than inner bounds - should contain
    assert!(<(usize, usize)>::contains_bounds(&Bounds { offset: (0, 0), extent: (3, 3) },
                                              &Bounds { offset: (1, 1), extent: (1, 1) }));
    assert!(<(usize, usize)>::contains_bounds(&Bounds { offset: (0, 0), extent: (5, 5) },
                                              &Bounds { offset: (1, 1), extent: (3, 3) }));

    // Inner bounds larger than outer bounds - should not contain
    assert!(!<(usize, usize)>::contains_bounds(&Bounds { offset: (1, 1), extent: (3, 3) },
                                               &Bounds { offset: (0, 0), extent: (2, 2) }));

    // Partial overlap - should not contain
    assert!(!<(usize, usize)>::contains_bounds(&Bounds { offset: (0, 0), extent: (2, 2) },
                                               &Bounds { offset: (1, 1), extent: (2, 2) }));

    // No overlap - should not contain
    assert!(!<(usize, usize)>::contains_bounds(&Bounds { offset: (0, 0), extent: (1, 1) },
                                               &Bounds { offset: (2, 2), extent: (1, 1) }));

    // Inner bounds start at the edge of outer bounds - should not contain
    assert!(!<(usize, usize)>::contains_bounds(&Bounds { offset: (0, 0), extent: (2, 2) },
                                               &Bounds { offset: (2, 2), extent: (1, 1) }));
}

#[test]
fn usize_3dim_contains_bounds() {
    // Identical bounds - should contain
    assert!(<(usize, usize, usize)>::contains_bounds(&Bounds { offset: (0, 0, 0), extent: (0, 0, 0) },
                                                     &Bounds { offset: (0, 0, 0), extent: (0, 0, 0) }));
    assert!(<(usize, usize, usize)>::contains_bounds(&Bounds { offset: (0, 0, 0), extent: (1, 1, 1) },
                                                     &Bounds { offset: (0, 0, 0), extent: (1, 1, 1) }));

    // Outer bounds larger than inner bounds - should contain
    assert!(<(usize, usize, usize)>::contains_bounds(&Bounds { offset: (0, 0, 0), extent: (3, 3, 3) },
                                                     &Bounds { offset: (1, 1, 1), extent: (1, 1, 1) }));
    assert!(<(usize, usize, usize)>::contains_bounds(&Bounds { offset: (0, 0, 0), extent: (5, 5, 5) },
                                                     &Bounds { offset: (1, 1, 1), extent: (3, 3, 3) }));

    // Inner bounds larger than outer bounds - should not contain
    assert!(!<(usize, usize, usize)>::contains_bounds(&Bounds { offset: (1, 1, 1), extent: (4, 4, 4) },
                                                      &Bounds { offset: (0, 0, 0), extent: (3, 3, 3) }));

    // Partial overlap - should not contain
    assert!(!<(usize, usize, usize)>::contains_bounds(&Bounds { offset: (0, 0, 0), extent: (2, 2, 2) },
                                                      &Bounds { offset: (1, 1, 1), extent: (2, 2, 2) }));

    // No overlap - should not contain
    assert!(!<(usize, usize, usize)>::contains_bounds(&Bounds { offset: (0, 0, 0), extent: (1, 1, 1) },
                                                      &Bounds { offset: (2, 2, 2), extent: (1, 1, 1) }));

    // Inner bounds start at the edge of outer bounds - should not contain
    assert!(!<(usize, usize, usize)>::contains_bounds(&Bounds { offset: (0, 0, 0), extent: (2, 2, 2) },
                                                      &Bounds { offset: (2, 2, 2), extent: (1, 1, 1) }));
}

#[test]
fn enclose_index_grows_minimally() {
    // Growing upwards extends the extent.
    let mut bounds = Bounds { offset: 3usize, extent: 2 };
    bounds.enclose_index(9);
    assert_eq!(bounds, Bounds { offset: 3, extent: 7 });

    // Growing downwards moves the offset without losing the upper end.
    let mut bounds = Bounds { offset: 7usize, extent: 1 };
    bounds.enclose_index(2);
    assert_eq!(bounds, Bounds { offset: 2, extent: 6 });
    assert!(bounds.contains_index(7));
    assert!(bounds.contains_index(2));

    // An already-covered index changes nothing.
    let mut bounds = Bounds { offset: 1usize, extent: 4 };
    bounds.enclose_index(3);
    assert_eq!(bounds, Bounds { offset: 1, extent: 4 });

    // Tuple bounds grow per axis.
    let mut bounds = Bounds { offset: (4usize, 1usize), extent: (1, 3) };
    bounds.enclose_index((2, 5));
    assert_eq!(bounds, Bounds { offset: (2, 1), extent: (3, 5) });
}

#[test]
fn empty_and_singleton_bounds() {
    let empty: Bounds<usize> = Bounds::new_empty();
    assert_eq!(empty, Bounds { offset: 0, extent: 0 });
    assert!(!empty.contains_index(0));

    let single = Bounds::bounds_for_index((3usize, 4usize));
    assert_eq!(single, Bounds { offset: (3, 4), extent: (1, 1) });
    assert!(single.contains_index((3, 4)));
    assert!(!single.contains_index((3, 5)));
    assert!(!single.contains_index((4, 4)));
}
