//! Value types that describe a subscriber.

pub mod confirmation_token;
pub mod error;
pub mod new_subscriber;
pub mod subscriber_email;
pub mod subscriber_id;
pub mod subscriber_name;
pub mod text;

pub use confirmation_token::ConfirmationToken;
pub use error::ValidationError;
pub use new_subscriber::NewSubscriber;
pub use subscriber_email::SubscriberEmail;
pub use subscriber_id::SubscriberId;
pub use subscriber_name::SubscriberName;
