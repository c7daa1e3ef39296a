pub mod calculation_helpers;
pub mod client;
pub mod demand;
pub mod ids;
pub mod lineup;
pub mod models;
pub mod monotone;
pub mod text;
