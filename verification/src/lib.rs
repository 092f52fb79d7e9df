pub mod text;
pub mod slug;
pub mod cleanup;
pub mod manifest;
pub mod registry;
pub mod paths;
pub mod move_branch;
pub mod route;
pub mod envelope;
pub mod routing;
pub mod store;
pub mod listing;
pub mod journal;
pub mod attendant;
pub mod cli;
pub mod hub;
pub mod route_table;
pub mod jd_index;
pub mod orchard;
pub mod machines;
pub mod inference;
pub mod decimal;
pub mod web;
