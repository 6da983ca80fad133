//! A low-level writer for the indirect objects, dictionaries, arrays, text
//! content streams, composite fonts and character maps of a PDF document.

pub mod prim;
pub mod obj;
pub mod text;
pub mod cmap;
pub mod sci;
