//! Org-mode files: the headline grammar, the reader, the writer and the
//! conversions between headings and the data model.

pub mod convert;
pub mod extract;
pub mod headline;
pub mod laws;
pub mod lines;
pub mod parser;
pub mod plan_laws;
pub mod writer;
