//! Pieces of the WZ data-file format: the string masks, the compressed
//! integers and string headers, checksums, canvas geometry and pixel
//! formats, string tables, archive image lists and path traversal.
pub mod canvas;
pub mod checksum;
pub mod crypto;
pub mod dir;
pub mod header;
pub mod list;
pub mod path;
pub mod prop;
pub mod str_table;
pub mod ty;
