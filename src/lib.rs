//! Batch Groth16 proving over BLS12-381: circuits given as rank-1
//! constraint systems are synthesized with density tracking, their quotient
//! polynomials are computed on an evaluation domain, the queries are
//! multiexponentiated and the proofs assembled; a compound layer proves and
//! checks statements split into partitions.

pub mod assignment;
pub mod circuit;
pub mod compound;
pub mod curve;
pub mod density;
pub mod domain;
pub mod error;
pub mod field;
pub mod flarp;
pub mod lc;
pub mod prover;
pub mod seal;
