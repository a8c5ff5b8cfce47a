//! Core logic of a desktop manager for local llama.cpp models: model
//! reference resolution, download and chat stream bookkeeping, request
//! validation and the decisions of the background workers.

pub mod text;
pub mod order;
pub mod models;
pub mod records;
pub mod failure;
pub mod health;
pub mod chat;
pub mod downloader;
pub mod resolver;
pub mod cache;
pub mod resolution;
pub mod process;
pub mod remote;
