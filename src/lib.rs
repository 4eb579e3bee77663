//! A static-blog post manager: the post lifecycle (draft, ready, published),
//! page composition from a template, and in-place patching of the index page.
pub mod blog;
pub mod config;
pub mod date;
pub mod index;
pub mod lifecycle;
pub mod lines;
pub mod markdown;
pub mod models;
pub mod post;
pub mod template;
pub mod text;
