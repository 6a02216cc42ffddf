pub mod api;
pub mod auth;
pub mod event;
pub mod json;
pub mod presence;
pub mod protocol;
pub mod random;
pub mod settings;
pub mod state;
pub mod strmap;
pub mod text;
pub mod time;
pub mod voice;
