//! Verified core of a 2D game engine driven through an HTTP API: grid path
//! finding, request guarding, the decisions taken when API commands run, AI
//! decisions, animation stepping, audio bookkeeping, runtime flow state,
//! entity queries, export planning, the API's routes and documentation,
//! screenshot statistics, and the text and name handling they share.
use vstd::prelude::*;

pub mod ai;
pub mod anim;
pub mod commands;
pub mod audio;
pub mod api_types;
pub mod docs;
pub mod docs_page;
pub mod entity_query;
pub mod examples;
pub mod exports;
pub mod flow;
pub mod nav;
pub mod order;
pub mod routes;
pub mod sanitize;
pub mod screenshot;
pub mod security;
pub mod text;
pub mod tiles;
pub mod web_scripts;

verus! {
} // verus!
