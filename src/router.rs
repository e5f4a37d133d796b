//! The requests that the tool endpoint and the command line accept.
use vstd::prelude::*;
use vstd::string::StringExecFns;
use crate::error::{Error, ErrorKind};
use crate::generate::GeneratorOutput;
use crate::item::strings_view;

verus! {

/// A request to run the documentation generator.
#[derive(Debug)]
pub struct GenerateDocsRequest {
    /// Extra arguments for the generator.
    pub flags: Option<Vec<String>>,
}

/// A request to list the documented crates.
#[derive(Debug)]
pub struct ListCratesRequest {}

/// A request to look up the items of one crate.
#[derive(Debug)]
pub struct LookupCrateRequest {
    /// The crate's name: its directory under the documentation root.
    pub name: String,
    /// The most items to return.
    pub limit: Option<usize>,
    /// How many matching items to skip.
    pub offset: Option<usize>,
    /// Keep only items of this kind, named as `function`, `struct`, ...
    pub item_type: Option<String>,
    /// Keep only items whose name or description contains this text.
    pub query: Option<String>,
}

/// The tool endpoint's rendering of results as text.
#[derive(Debug, Clone, Copy)]
pub struct Router {}

/// `lines` joined with a newline between each two.
pub open spec fn joined_lines(lines: Seq<Seq<char>>) -> Seq<char>
    decreases lines.len(),
{
    if lines.len() == 0 {
        Seq::empty()
    } else if lines.len() == 1 {
        lines[0]
    } else {
        joined_lines(lines.drop_last()) + seq!['\n'] + lines.last()
    }
}

/// `lines` joined with a newline between each two, as the crate listing is shown.
pub fn join_lines(lines: &Vec<String>) -> (r: String)
    ensures
        r@ == joined_lines(strings_view(lines@)),
{
    let mut out = String::new();
    let mut i: usize = 0;
    while i < lines.len()
        invariant
            i <= lines@.len(),
            out@ == joined_lines(strings_view(lines@.subrange(0, i as int))),
        decreases lines.len() - i,
    {
        proof {
            reveal_strlit("\n");
        }
        let ghost done = strings_view(lines@.subrange(0, i as int));
        assert(strings_view(lines@.subrange(0, i + 1)).drop_last() =~= done);
        if i > 0 {
            out.append("\n");
        }
        out.append(lines[i].as_str());
        assert(out@ =~= joined_lines(strings_view(lines@.subrange(0, i + 1))));
        i = i + 1;
    }
    assert(lines@.subrange(0, lines@.len() as int) =~= lines@);
    out
}

impl Router {
    /// The tool endpoint's renderer.
    pub fn new() -> (r: Router) {
        Router {}
    }

    /// The tool's answer to a generator run: on failure an `ExternalProcess`
    /// error carrying its standard error, else both streams concatenated.
    pub fn generate_docs_impl(&self, output: &GeneratorOutput) -> (r: Result<String, Error>)
        ensures
            output.success ==> (r matches Ok(s) && s@ == output.stdout@ + output.stderr@),
            !output.success ==> (r matches Err(e) && e.kind == ErrorKind::ExternalProcess
                && e.message@ == "cargo doc failed: "@ + output.stderr@),
    {
        if !output.success {
            let mut message = "cargo doc failed: ".to_owned();
            message.append(output.stderr.as_str());
            return Err(Error::new(ErrorKind::ExternalProcess, message));
        }
        let mut text = output.stdout.clone();
        text.append(output.stderr.as_str());
        Ok(text)
    }
}

} // verus!
