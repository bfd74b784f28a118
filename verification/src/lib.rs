pub mod app;
pub mod auth;
pub mod db;
pub mod models;
pub mod number;
pub mod pages;
pub mod text;
