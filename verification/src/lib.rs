//! Verified core of a visual-novel script toolkit.
pub mod actions;
pub mod ast;
pub mod block_laws;
pub mod blueprint;
pub mod blueprint_laws;
pub mod blueprint_script;
pub mod build_laws;
pub mod canvas;
pub mod canvas_laws;
pub mod checked_laws;
pub mod checker;
pub mod checking_laws;
pub mod cli;
pub mod cli_laws;
pub mod code;
pub mod colour_laws;
pub mod commands;
pub mod compile;
pub mod diagnostic;
pub mod editor;
pub mod editor_laws;
pub mod engine_laws;
pub mod eval;
pub mod flow;
pub mod fs_util;
pub mod grammar;
pub mod grammar_laws;
pub mod graph;
pub mod highlight;
pub mod history;
pub mod icon;
pub mod import_laws;
pub mod layout;
pub mod lexer;
pub mod lexer_laws;
pub mod migrate;
pub mod migrate_laws;
pub mod modes;
pub mod number;
pub mod number_laws;
pub mod order;
pub mod outline;
pub mod packaging;
pub mod palette;
pub mod panel_laws;
pub mod panels;
pub mod parse;
pub mod parser;
pub mod picker;
pub mod pointer;
pub mod previews;
pub mod project;
pub mod reading_laws;
pub mod reporter;
pub mod resource_laws;
pub mod rpy;
pub mod run_laws;
pub mod scene;
pub mod session_laws;
pub mod slices;
pub mod spelling_laws;
pub mod stage_laws;
pub mod statement_laws;
pub mod table;
pub mod templates;
pub mod text;
pub mod text_laws;
pub mod token;
pub mod translation;
pub mod translation_laws;
pub mod type_laws;
pub mod value;
pub mod view_laws;
pub mod vm;
pub mod workspace;
