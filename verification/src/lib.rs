//! Generating code with a language model: reading what the model answers,
//! laying the project out, running its build and its tests, and asking again
//! with what went wrong.

pub mod build_tool;
pub mod cache;
pub mod diagram;
pub mod file_explorer;
pub mod interpreter;
pub mod java;
pub mod kotlin;
pub mod lang;
pub mod laws;
pub mod layout;

pub mod lines;
pub mod llm_api;
pub mod llm_parser;
pub mod llm_prompt;
pub mod llm_response;
pub mod number;
pub mod offsets;
pub mod pattern;
pub mod php;
pub mod places;
pub mod python;
pub mod question;
pub mod sections;
pub mod state_machine;
pub mod text;
pub mod text_map;
pub mod typescript;
pub mod utils;
