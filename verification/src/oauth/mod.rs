pub mod callback;
pub mod config;
pub mod login;
pub mod login_laws;
pub mod pkce;
pub mod provider;
pub mod urlcode;
