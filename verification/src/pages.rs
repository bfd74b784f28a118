pub mod article;
pub mod editor;
pub mod feed;
pub mod profile;
pub mod user;
