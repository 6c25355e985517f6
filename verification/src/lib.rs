use vstd::prelude::*;

pub mod text;
pub mod dictionary;
pub mod transcript;
pub mod incident;
pub mod logs;
pub mod folder;
pub mod model;
pub mod model_catalog;
pub mod rebuild;
pub mod build_task;
pub mod config;
pub mod download;
pub mod metrics;
pub mod batch;
pub mod audio;
pub mod engine;
pub mod server;
pub mod zipformer;
pub mod whisper;
pub mod tui;
pub mod layout;
pub mod navigation;
pub mod session;
pub mod screens;
pub mod reports;
pub mod run_record;
pub mod panels;
pub mod run_names;
pub mod history;
pub mod series;
pub mod build_env;

verus! {
} // verus!
