//! The request pipeline of a rewriting reverse proxy: resolve the upstream
//! address, classify what came back, rewrite the body by an ordered list of
//! pattern rules, and project the upstream headers through a whitelist.

pub mod header;
pub mod pattern;
pub mod pipeline;
pub mod registry;
pub mod rewrite;
pub mod route;
pub mod template;
pub mod text;
