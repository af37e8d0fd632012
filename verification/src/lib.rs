//! Azoth: the command logic of a Discord bot that tracks GitHub activity,
//! counts command usage and runs trivia quizzes.

pub mod azoth;
pub mod commands;
pub mod counter;
pub mod data;
pub mod example;
pub mod github;
pub mod http;
pub mod quiz;
pub mod text;
