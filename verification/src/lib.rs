pub mod catalog;
pub mod download;
pub mod feed;
pub mod html;
pub mod magnet;
pub mod moment;
pub mod patterns;
pub mod post;
pub mod provider;
pub mod scrape;
pub mod sync;
pub mod text;
pub mod torznab;
