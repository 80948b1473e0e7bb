pub mod history;
pub mod paths;
pub mod text;
pub mod clock;
pub mod sort;
pub mod favorites;
pub mod settings;
pub mod update;
pub mod query;
pub mod ui;
pub mod app;
pub mod actions;
pub mod status;
