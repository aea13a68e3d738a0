//! Local state: contacts, messages, chats, settings and the application
//! state that holds them.

pub mod contact;
pub mod message;
pub mod chat;
pub mod settings;
pub mod app_state;
pub mod request_log;

pub use contact::{Contact, generate_contact_token, parse_contact_token};
pub use message::{DeliveryStatus, Message};
pub use chat::Chat;
pub use settings::Settings;
pub use app_state::AppState;
pub use request_log::RequestLog;
