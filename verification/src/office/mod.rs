//! The office: six people, the agents that work for them, and what they share.
pub mod activity;
pub mod message;
pub mod persistence;
pub mod pilot;
pub mod runtime;
pub mod timeline;
pub mod scheduler;
pub mod tools;
pub mod wait_policy;
pub mod workspace;
pub mod blackboard;
pub mod memory;
pub mod prompts;
pub mod snapshot;
pub mod requests;
pub mod web;
pub mod handlers;
pub mod profile_prompt;
pub mod assets;
pub mod pages;
