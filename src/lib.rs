//! A question/answer catalogue: the records it keeps, an in-memory store
//! with transactional operations, the parser for pagination parameters and
//! the request handlers that map each operation onto a status and a body.

pub mod answer;
pub mod api;
pub mod error;
pub mod pagination;
pub mod question;
pub mod store;
pub mod tags;
