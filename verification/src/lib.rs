//! Frame-exact operation replication: the verified decision logic.
pub mod stepping;
pub mod timing;
pub mod geom;
pub mod text;
pub mod names;
pub mod sorting;
pub mod json;
pub mod copilot;
pub mod machine;
pub mod continuation;
pub mod speed;
pub mod snapshot;
pub mod source;
pub mod gesture;
pub mod tile;
pub mod level;
pub mod level_grid;
pub mod capture;
pub mod window;
pub mod runner;
pub mod command;
pub mod config;
pub mod labels;
pub mod formation;
pub mod step_test;
pub mod job_items;
pub mod job_document;
pub mod job_diagnostics;
pub mod editor;
pub mod editor_view;
pub mod progress_view;
