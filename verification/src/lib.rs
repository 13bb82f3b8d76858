pub mod data_access;
pub mod registry;
pub mod regtap;
pub mod vo_resource;
pub mod xml;
