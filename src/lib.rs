pub mod errors;
pub mod text;
pub mod sessions;
pub mod users;
pub mod auth;
pub mod page_data;
pub mod i18n;
pub mod config;
pub mod pages;
