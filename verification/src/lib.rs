//! Package inventory, filtering and batch selection for a device's software
//! packages, with every rule stated as a contract and proved.

pub mod batch;
pub mod catalog;
pub mod filter;
pub mod laws;
pub mod list;
pub mod order;
pub mod row;
pub mod selection;
pub mod text;
