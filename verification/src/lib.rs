//! Verified core of the LeadGen freelance lead-generation service.

pub mod api;
pub mod auth;
pub mod clock;
pub mod hunt;
pub mod json;
pub mod models;
pub mod scraper;
pub mod store;
pub mod text;
pub mod views;
