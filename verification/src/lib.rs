//! Inspection and in-place editing of 32-bit Portable-Executable images.
//!
//! Every operation works on the bytes of an image held in memory. Headers are
//! decoded field by field from little-endian bytes, edited as ordinary
//! values, and encoded back to the positions they were read from.

#![allow(non_snake_case)]
#![allow(non_camel_case_types)]
#![allow(non_upper_case_globals)]

pub mod bytes;
pub mod pe;
pub mod layout;
pub mod error;
pub mod reader;
pub mod writer;
pub mod translate;
pub mod patch;
pub mod section;
pub mod setdd;
pub mod setvs;
pub mod pe2obj;
pub mod text;
pub mod dump;
pub mod genlds;
pub mod common;
pub mod petool;
