//! A minimal content engine: markdown files with front matter rendered
//! into HTML pages through a page template, either on request or ahead of
//! time by a batch build, with both paths running the same pipeline.
use vstd::prelude::*;

pub mod text;
pub mod front_matter;
pub mod template;
pub mod page;
pub mod resolver;
pub mod builder;
pub mod route;
pub mod site_index;

pub use front_matter::FrontMatter;

verus! {

} // verus!
