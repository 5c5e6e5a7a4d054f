//! Collects the answers to a daily Basecamp check-in question.
//!
//! The library holds the logic of the collection: how the answers are
//! found by walking the Basecamp API (authorization, projects,
//! questionnaire, questions, answers), how paginated answers are followed
//! through the `Link` response header and gathered in order, how the OAuth
//! redirect is read, and how the bearer authorization header is formed.
//! The network and terminal work is left to the caller.

pub mod search;
pub mod link;
pub mod json;
pub mod types;
pub mod collect;
pub mod redirect;
pub mod scopes;
pub mod response;
pub mod client;
