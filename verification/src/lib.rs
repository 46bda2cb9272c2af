pub mod pad;
pub mod capture;
pub mod audio;
pub mod ui;
pub mod text;
pub mod ids;
pub mod distance;
pub mod event;
pub mod game;
pub mod events;
pub mod overlay;
pub mod movie;
pub mod script;
pub mod scope;
pub mod error;
pub mod run;
pub mod plan;
pub mod jira;
pub mod shipper;
pub mod monitor;
pub mod readback;
