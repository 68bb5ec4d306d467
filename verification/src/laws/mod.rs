//! What holds of the parts as a whole.
pub mod backtrace;
pub mod citations;
pub mod correlation;
pub mod frame_edges;
pub mod frames;
pub mod health;
pub mod imports;
pub mod languages;
pub mod log_graph;
pub mod log_lines;
pub mod log_link;
pub mod log_resolve;
pub mod mcp;
pub mod mcp_answers;
pub mod mcp_rows;
pub mod names;
pub mod rust_call_sites;
pub mod rust_calls;
pub mod rust_facts;
pub mod rust_items;
pub mod rust_origin;
pub mod rust_sites;
pub mod rust_source;
pub mod rust_surface;
pub mod rust_walk;
pub mod scan;
pub mod source_files;
pub mod tasks;
pub mod texts;
pub mod typescript_items;
pub mod typescript_source;
pub mod views;
