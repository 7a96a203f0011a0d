pub mod anthropic;
pub mod anthropic_laws;
pub mod blocks;
pub mod events;
pub mod openai;
pub mod openai_laws;
pub mod scripted;
