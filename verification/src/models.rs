pub mod article;
pub mod comment;
pub mod user;
