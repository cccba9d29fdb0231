//! Reader for CRI Middleware CPK archive containers.
//!
//! A CPK file bundles a self-describing binary table (the `@UTF` schema
//! shared with ACB/ACF/AWB audio containers) that names the files in the
//! archive, followed by a content region holding the file payloads.
//! Payloads may be XOR-scrambled in place and/or compressed with the
//! CRILAYLA LZSS variant.  This crate parses the tables, reverses both
//! scrambling schemes, decodes CRILAYLA streams, and exposes per-file
//! extraction from an in-memory archive image.  All parsing and decoding is
//! verified; the embedding application supplies the bytes and performs any
//! file or terminal I/O.

pub mod bytes;
pub mod columns;
pub mod container;
pub mod data;
pub mod errors;
pub mod file;
pub mod header;
pub mod high_table;
pub mod free_list;
pub mod layla;
pub mod p5r;
pub mod reader;
pub mod rows;
pub mod strings;
pub mod table_crypt;
