pub mod text;
pub mod store;
pub mod models;
pub mod timefmt;
pub mod digest;
pub mod sync;
pub mod merge;
pub mod snapshot;
pub mod syncflow;
pub mod legacy;
pub mod aisettings;
pub mod update;
pub mod dependency;
pub mod notify;
pub mod tray;
pub mod screen;
pub mod agent;
pub mod todos;
pub mod syncrun;
pub mod cmdpath;
