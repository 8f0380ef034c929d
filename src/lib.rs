//! Storage core of a blogging platform: articles and users held in memory,
//! with deterministic pagination and a uniqueness rule on user names.

pub mod user_name;
pub mod ids;
pub mod error;
pub mod clock;
pub mod article;
pub mod ordering;
pub mod article_store;
pub mod user;
pub mod user_store;
pub mod repository;
pub mod usecase;
pub mod laws;
pub mod params;
