//! What holds of descriptions, tools and requests as a whole.

pub mod building;
pub mod context;
pub mod describing;
pub mod documents;
pub mod extracting;
pub mod making;
pub mod operations;
pub mod planning;
pub mod references;
pub mod requests;
pub mod resolving;
pub mod schemas;
pub mod telling;
pub mod texts;
pub mod views;
