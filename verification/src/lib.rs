//! qlipq: the verified domain logic of a recording queue and clip editor.

pub mod args;
pub mod capture;
pub mod behaviour_laws;
pub mod config;
pub mod config_json;
pub mod datetimes;
pub mod desktop_config;
pub mod detect;
pub mod editor;
pub mod edit_spec;
pub mod export_plan;
pub mod exporting;
pub mod filters;
pub mod frames;
pub mod hw;
pub mod ids;
pub mod json_text;
pub mod keys;
pub mod laws;
pub mod media;
pub mod numbers;
pub mod obs;
pub mod paths;
pub mod probe;
pub mod process_text;
pub mod progress;
pub mod queue;
pub mod rename;
pub mod storage;
pub mod tag_filter;
pub mod text;
pub mod timeline;
pub mod timestamp_law;
