//! Keyboard-layout switching between English, Russian and Ukrainian.

pub mod unicode;
pub mod order;
pub mod words;
pub mod layout;
pub mod bigrams;
pub mod score_laws;
pub mod lexicon;
pub mod typing;
pub mod scoring;
pub mod keys;
pub mod settings;
pub mod detection;
pub mod buffer;
pub mod laws;
pub mod rule_laws;
pub mod hook;
pub mod hook_laws;
pub mod key_laws;
pub mod switcher;
pub mod stroke_laws;
pub mod text;
pub mod commands;
pub mod exceptions;
pub mod tray;
pub mod icon;
pub mod icon_laws;
pub mod window;
pub mod logger;
pub mod benchmark;
pub mod benchmark_laws;
pub mod text_laws;
pub mod program_laws;
pub mod bilingual;
