//! Dense-matrix Householder kernels over an abstract scalar field.
//!
//! The crate provides the building blocks used by QR-type factorizations:
//! construction of a single elementary Householder reflector, application of
//! one reflector to a matrix from the left, and application of a block of
//! reflectors in compact-WY form through a structure-aware matrix multiply.
//! Every kernel is generic over the [`field::Field`] scalar contract, so one
//! verified implementation serves both real and complex instantiations.

pub mod field;
pub mod gf7;
pub mod householder;
pub mod mat;
pub mod mul;
pub mod workspace;
