//! Verified core of `build-eips`.
pub mod assets;
pub mod authors;
pub mod citation;
pub mod cli;
pub mod config;
pub mod csl;
pub mod dates;
pub mod editorial;
pub mod events;
pub mod execution;
pub mod find_root;
pub mod front_matter;
pub mod git;
pub mod iri;
pub mod layout;
pub mod links;
pub mod only;
pub mod page;
pub mod path;
pub mod path_set;
pub mod pattern;
pub mod pipeline;
pub mod preamble;
pub mod preview;
pub mod proposal;
pub mod run;
pub mod serve;
pub mod serve_loop;
pub mod source;
pub mod status;
pub mod sync;
pub mod table;
pub mod text;
pub mod transform;
pub mod tree;
pub mod urls;
pub mod walk;
pub mod workspace;
pub mod zola;
