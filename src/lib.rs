//! Page composition for a classic video-site front end: HTML-safe text
//! handling, fragment builders for each page, the decisions each page makes
//! on its inputs and fetched records, and API-key rotation.
pub mod channel;
pub mod config;
pub mod html;
pub mod pages;
pub mod records;
pub mod render;
pub mod text;
pub mod top;
