pub mod text;
pub mod tree;
pub mod html;
pub mod detail_page;
pub mod index_set;
pub mod query;
pub mod doc_type;
pub mod operation;
pub mod openapi;
pub mod xml;
pub mod xsd;
pub mod numeral;
pub mod schema_map;
pub mod schema_tweaks;
pub mod select;
pub mod landing;
pub mod about;
pub mod order;
pub mod archive;
pub mod paths;
pub mod queries;
pub mod types;
pub mod schemas;
pub mod info;
