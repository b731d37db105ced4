//! Match-record handling, season scheduling and integer scoring for an
//! AFL tipping model.

pub mod presentation;
pub mod scoring;
pub mod season;
pub mod tipping;
