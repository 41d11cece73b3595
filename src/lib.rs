//! English-Danish IT terminology: extraction of dictionary entries from three
//! HTML sources, and the decisions of the search endpoint.
pub mod entry;
pub mod ingest;
pub mod klid;
pub mod laws;
pub mod markup;
pub mod query;
pub mod schema;
pub mod sdu;
pub mod text;
pub mod topdatamat;
