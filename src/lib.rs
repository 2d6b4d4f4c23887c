//! Field validation with structured, renderable failure feedback.
//!
//! A [`Message`] is a template with positional arguments; a [`Feedback`]
//! gathers the messages of one field; an [`Error`] gathers the negative
//! feedback of a whole record. The functions of [`aggregate`] run validators
//! and assemble the outcome.
pub mod same;

pub mod message;
pub use message::Message;

pub mod feedback;
pub use feedback::Feedback;

pub mod error;
pub use error::Error;

pub mod validation;

pub mod aggregate;
pub use aggregate::{validate, validate_outcomes};
