//! The management web interface: request data, validation, error answers
//! and the figures shown on its pages.
pub mod controller;
pub mod extract;
pub mod model;
pub mod index;
pub mod router;
