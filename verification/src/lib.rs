//! Descriptor-driven native dialogs: layout parsing, form and search
//! generation, and the search algorithms behind the search box.
pub mod text;
pub mod layout;
pub mod form_types;
pub mod form_config;
pub mod generator;
pub mod search_types;
pub mod search_config;
pub mod search_generator;
pub mod search_algorithm;
