//! Verified primitives for structured, disjoint access to array-like
//! collections.
//!
//! The crate is organised around three ideas:
//!
//! * an *index algebra* ([`Bounds`], [`RecordIndex`]) describing rectangular
//!   regions of scalar or tuple indices,
//! * *index lists* ([`index_list::IndexList`]) and combinators that build
//!   structured lists whose uniqueness is proven rather than checked,
//! * *accesses* ([`par_access::ParAccess`]) over collections, which can be
//!   narrowed to a unique index list and then iterated or split into
//!   disjoint halves.

pub mod assumed_unique;
pub mod checked_unique;
pub mod combinators;
pub mod dense;
pub mod error;
pub mod index_from;
pub mod index_list;
pub mod iter;
pub mod narrow;
pub mod par_access;
pub mod par_iter;
pub mod record_index;
pub mod repeat;
pub mod slice;

pub use assumed_unique::AssumedUnique;
pub use checked_unique::CheckedUnique;
pub use combinators::Concatenate;
pub use combinators::Flatten;
pub use combinators::IndexAZip;
pub use combinators::IndexCast;
pub use combinators::IndexFlatten;
pub use combinators::IndexProduct;
pub use combinators::IndexTranspose;
pub use combinators::IndexZip;
pub use combinators::Transpose;
pub use dense::DMatrixParAccessMut;
pub use error::NonUniqueIndex;
pub use error::OutOfBounds;
pub use index_from::IndexFrom;
pub use index_list::IndexList;
pub use index_list::UniqueIndexList;
pub use iter::AccessIterator;
pub use iter::create_iter;
pub use narrow::NarrowedAccess;
pub use narrow::collect_indices;
pub use narrow::narrow_access_to_indices;
pub use par_access::BoundedParAccess;
pub use par_access::IntoParAccess;
pub use par_access::LinearParAccess;
pub use par_access::ParAccess;
pub use par_access::SplittableParAccess;
pub use par_iter::AccessProducer;
pub use par_iter::LinearParAccessIter;
pub use par_iter::create_par_iter;
pub use record_index::Bounds;
pub use record_index::RecordIndex;
pub use record_index::Sealed;
pub use repeat::Repeat;
pub use slice::SliceParAccessMut;
