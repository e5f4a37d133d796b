//! The documentation generator's invocation and the report made of its output.
use vstd::prelude::*;
use vstd::string::StringExecFns;
use crate::error::{Error, ErrorKind};
use crate::item::strings_view;
use crate::router::GenerateDocsRequest;

verus! {

/// What the documentation generator left when it exited.
#[derive(Debug)]
pub struct GeneratorOutput {
    /// Whether it exited with success.
    pub success: bool,
    /// Its standard output, as text.
    pub stdout: String,
    /// Its standard error, as text.
    pub stderr: String,
}

/// The report on a successful run: each non-empty stream under its own
/// heading, a blank line between the two, or a fixed sentence when both are
/// empty.
pub open spec fn report(stdout: Seq<char>, stderr: Seq<char>) -> Seq<char> {
    let out_part = if stdout.len() > 0 {
        "STDOUT:\n"@ + stdout
    } else {
        Seq::empty()
    };
    let both = if stderr.len() > 0 {
        (if out_part.len() > 0 {
            out_part + "\n\n"@
        } else {
            out_part
        }) + "STDERR:\n"@ + stderr
    } else {
        out_part
    };
    if both.len() == 0 {
        "Documentation generated successfully."@
    } else {
        both
    }
}

/// The arguments for the generator: `doc`, then the request's flags.
pub open spec fn doc_arguments(flags: Option<Seq<Seq<char>>>) -> Seq<Seq<char>> {
    match flags {
        Some(f) => seq!["doc"@] + f,
        None => seq!["doc"@],
    }
}

/// The arguments to run the generator with for `request`.
pub fn doc_command_args(request: &GenerateDocsRequest) -> (r: Vec<String>)
    ensures
        strings_view(r@) == doc_arguments(
            match request.flags {
                Some(f) => Some(strings_view(f@)),
                None => None,
            },
        ),
{
    let mut args: Vec<String> = Vec::new();
    args.push("doc".to_owned());
    match &request.flags {
        Some(flags) => {
            let mut i: usize = 0;
            while i < flags.len()
                invariant
                    i <= flags@.len(),
                    strings_view(args@) == seq!["doc"@] + strings_view(flags@.subrange(0, i as int)),
                decreases flags.len() - i,
            {
                let ghost prev = args@;
                args.push(flags[i].clone());
                assert(strings_view(args@) =~= strings_view(prev).push(flags@[i as int]@));
                assert(strings_view(flags@.subrange(0, i + 1)) =~= strings_view(
                    flags@.subrange(0, i as int),
                ).push(flags@[i as int]@));
                i = i + 1;
            }
            assert(flags@.subrange(0, flags@.len() as int) =~= flags@);
        },
        None => {
            assert(strings_view(args@) =~= seq!["doc"@]);
        },
    }
    args
}

/// The outcome of a generator run: on failure an `ExternalProcess` error
/// carrying its standard error, else the report on its two streams.
pub fn generate_docs(output: &GeneratorOutput) -> (r: Result<String, Error>)
    ensures
        output.success ==> (r matches Ok(s) && s@ == report(output.stdout@, output.stderr@)),
        !output.success ==> (r matches Err(e) && e.kind == ErrorKind::ExternalProcess
            && e.message@ == "cargo doc failed: "@ + output.stderr@),
{
    if !output.success {
        let mut message = "cargo doc failed: ".to_owned();
        message.append(output.stderr.as_str());
        return Err(Error::new(ErrorKind::ExternalProcess, message));
    }
    proof {
        reveal_strlit("STDOUT:\n");
        reveal_strlit("STDERR:\n");
    }
    let mut result = String::new();
    if !output.stdout.as_str().is_empty() {
        result.append("STDOUT:\n");
        result.append(output.stdout.as_str());
    }
    if !output.stderr.as_str().is_empty() {
        if !result.as_str().is_empty() {
            result.append("\n\n");
        }
        result.append("STDERR:\n");
        result.append(output.stderr.as_str());
    }
    if result.as_str().is_empty() {
        result = "Documentation generated successfully.".to_owned();
    }
    assert(result@ =~= report(output.stdout@, output.stderr@));
    Ok(result)
}

} // verus!
