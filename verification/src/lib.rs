//! The core of a task store: its filter language, its documents, its undo
//! log and the texts it shows, each stated and proved.

pub mod brief;
pub mod budget;
pub mod card;
pub mod card_laws;
pub mod catalog;
pub mod catalog_laws;
pub mod cells;
pub mod children;
pub mod detail;
pub mod document_laws;
pub mod duration;
pub mod edit;
pub mod engine;
pub mod error;
pub mod export;
pub mod export_laws;
pub mod expr;
pub mod filter;
pub mod filter_laws;
pub mod front_laws;
pub mod frontmatter;
pub mod graph;
pub mod humanize;
pub mod import;
pub mod import_again;
pub mod import_children;
pub mod import_ids;
pub mod import_laws;
pub mod import_numbers;
pub mod import_order;
pub mod import_read;
pub mod import_repeat;
pub mod import_rules;
pub mod import_swap;
pub mod import_tokens;
pub mod import_twice;
pub mod index_laws;
pub mod journal;
pub mod json;
pub mod json_text;
pub mod line_laws;
pub mod merge_children;
pub mod merge_edges;
pub mod merge_laws;
pub mod merge_refusals;
pub mod merge_sections;
pub mod params;
pub mod prepare;
pub mod prepare_laws;
pub mod present;
pub mod replies;
pub mod restore;
pub mod restore_children;
pub mod restore_rows;
pub mod restore_steps;
pub mod restore_tables;
pub mod rows;
pub mod scope;
pub mod search_laws;
pub mod selection_laws;
pub mod session;
pub mod session_laws;
pub mod sound;
pub mod tables;
pub mod text;
pub mod time_laws;
pub mod types;
pub mod undo;
pub mod undo_effects;
pub mod undo_laws;
pub mod value;
pub mod vector_index;
pub mod vectors;
pub mod view_laws;
pub mod when;
pub mod words;
pub mod wrap;
