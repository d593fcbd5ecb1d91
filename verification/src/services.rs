//! What the service asks of its collaborators.

pub mod email;
