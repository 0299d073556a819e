pub mod cli;
pub mod commands;
pub mod error;
pub mod git;
pub mod git_client;
pub mod git_operation;
pub mod git_validation;
pub mod prompter;
pub mod text;
