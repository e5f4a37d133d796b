//! Turns rendered API-reference HTML into a queryable model of documented
//! items: a crate's documentation tree is walked page by page, each page is
//! read as at most one item, and a query filters and pages the items.
pub mod chars;
pub mod text;
pub mod item_kind;
pub mod error;
pub mod item;
pub mod documentation;
pub mod page;
pub mod router;
pub mod query;
pub mod catalog;
pub mod walk;
pub mod tree;
pub mod generate;
pub mod subcommand;

pub use catalog::{list_crates, DirEntry};
pub use documentation::Documentation;
pub use error::{Error, ErrorKind};
pub use generate::{doc_command_args, generate_docs, GeneratorOutput};
pub use item::{Item, Method};
pub use item_kind::{extract_item_name, ItemKind};
pub use page::{extract_method_name, parse_html_file};
pub use query::{filter_by_item_type, filter_by_query, lookup_crate};
pub use router::{join_lines, GenerateDocsRequest, ListCratesRequest, LookupCrateRequest, Router};
pub use subcommand::{Lookup, Subcommand};
pub use text::html_to_text;
pub use walk::{WalkStep, Walker};
