//! Verified core of a FrameView capture-log analyzer: chart identities,
//! capture-log column resolution, command-line and menu decisions, and the
//! integer layout and histogram arithmetic behind the charts.
pub mod cli;
pub mod columns;
pub mod histogram;
pub mod layout;
pub mod log;
pub mod menu;
pub mod text;
pub mod view;
