//! Error values that carry either a user-facing message or a diagnostic
//! record, with a field-selective text rendering and a JSON response body.
pub mod err;
pub mod laws;
pub mod response;
pub mod text;
