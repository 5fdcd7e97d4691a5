pub mod text;
pub mod search;
pub mod prompt;
pub mod upload;
pub mod preview;
pub mod paths;
pub mod components;
pub mod sessions;
pub mod content;
pub mod catalog;
pub mod provider;
pub mod extension;
pub mod tasks;
pub mod transcripts;
pub mod summaries;
pub mod api_errors;
pub mod codec;
pub mod workspace;
pub mod csv_preview;
pub mod files;
pub mod officecli;
pub mod ratings;
pub mod config_options;
pub mod migration_repair;
pub mod acp_compat;
pub mod json_fields;
pub mod records;
