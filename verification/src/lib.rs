//! Verified core of the office collaboration runtime.
#![allow(unused_imports)]
pub mod text;
pub mod text_set;
pub mod table;
pub mod ids;
pub mod tools;
pub mod protocol;
pub mod json;
pub mod markup;
pub mod time;
pub mod chat_history;
pub mod chat_stream;
pub mod office;
pub mod paths;
pub mod prompt_paths;
pub mod provider_adapter;
pub mod swarm;
