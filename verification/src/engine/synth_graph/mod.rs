pub mod doc;
pub mod rt;
