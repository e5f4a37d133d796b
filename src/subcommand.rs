//! The command line's subcommands.
use vstd::prelude::*;
use crate::router::LookupCrateRequest;

verus! {

/// What the command line was asked to do.
#[derive(Debug)]
pub enum Subcommand {
    /// Print the documented crates, one per line.
    List,
    /// Print the items of one crate.
    Lookup(Lookup),
    /// Serve the tool endpoint over standard input and output.
    Server,
}

/// The arguments of a lookup on the command line.
#[derive(Debug)]
pub struct Lookup {
    pub name: String,
    pub limit: Option<usize>,
    pub offset: Option<usize>,
    pub item_type: Option<String>,
    pub query: Option<String>,
}

impl From<Lookup> for LookupCrateRequest {
    fn from(value: Lookup) -> (r: LookupCrateRequest)
        ensures
            r == (LookupCrateRequest {
                name: value.name,
                limit: value.limit,
                offset: value.offset,
                item_type: value.item_type,
                query: value.query,
            }),
    {
        LookupCrateRequest {
            name: value.name,
            limit: value.limit,
            offset: value.offset,
            item_type: value.item_type,
            query: value.query,
        }
    }
}

impl vstd::std_specs::convert::FromSpecImpl<Lookup> for LookupCrateRequest {
    open spec fn obeys_from_spec() -> bool {
        true
    }

    open spec fn from_spec(v: Lookup) -> LookupCrateRequest {
        LookupCrateRequest {
            name: v.name,
            limit: v.limit,
            offset: v.offset,
            item_type: v.item_type,
            query: v.query,
        }
    }
}

} // verus!
