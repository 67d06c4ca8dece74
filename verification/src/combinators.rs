//! Combinators used in the construction of unique index lists.

pub mod index_cast;
pub mod index_flatten;
pub mod index_product;
pub mod index_transpose;
pub mod index_zip;

pub use index_cast::IndexCast;
pub use index_flatten::Concatenate;
pub use index_flatten::Flatten;
pub use index_flatten::IndexFlatten;
pub use index_product::IndexProduct;
pub use index_transpose::IndexTranspose;
pub use index_transpose::Transpose;
pub use index_zip::IndexAZip;
pub use index_zip::IndexZip;
