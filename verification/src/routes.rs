//! What each request decides.

pub mod newsletters;
pub mod subscription_confirm;
pub mod subscriptions;

pub use subscription_confirm::{
    confirm, confirm_subscriber, get_subscriber_id_from_token, ConfirmError, Params,
};
pub use subscriptions::{confirmation_link, subscribe, subscribe_with, FormData, SubscribeError};
