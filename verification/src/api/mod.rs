//! The decisions behind the `/api/v1` endpoints.

pub mod health;
pub mod pdf;
