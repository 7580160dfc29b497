//! Ranking aggregation and page download planning for a daily illustration
//! ranking feed.

pub mod text;
pub mod feed;
pub mod download;
pub mod calendar;
