//! Point-in-time log queries.
//!
//! Each container has one append-only log file; a fetch reads it whole and
//! optionally keeps only the last N lines. A container that never logged
//! anything has no file, which is a valid empty result, not a failure.

use vstd::prelude::*;
use vstd::string::StrSliceExecFns;
use vstd::string::StringExecFns;

use crate::text::join_lines_from;
use crate::text::spec_join_lines;
use crate::text::spec_lines;
use crate::text::split_lines;

verus! {

/// The log file of a container: under the state root, namespaced by the
/// container identifier.
pub fn log_file_path(state_root: &str, container_id: &str) -> (r: String)
    ensures
        r@ == state_root@ + "/"@ + container_id@ + "/container.log"@,
{
    let r = state_root.to_owned().concat("/").concat(container_id).concat("/container.log");
    assert(r@ =~= state_root@ + "/"@ + container_id@ + "/container.log"@);
    r
}

/// What a tail query returns: the whole text when no tail is asked for, else
/// the last `n` lines (all of them when there are fewer) joined with line
/// feeds, in their original order.
pub open spec fn spec_tail(content: Seq<char>, tail: Option<usize>) -> Seq<char> {
    match tail {
        None => content,
        Some(n) => {
            let ls = spec_lines(content);
            let start: int = if ls.len() > n {
                ls.len() - n
            } else {
                0
            };
            spec_join_lines(ls.skip(start))
        },
    }
}

/// Renders a point-in-time log query over the file's text.
pub fn render_log_tail(content: &str, tail: Option<usize>) -> (r: String)
    ensures
        r@ == spec_tail(content@, tail),
{
    match tail {
        None => content.to_owned(),
        Some(n) => {
            let lines = split_lines(content);
            let start: usize = if lines.len() > n {
                lines.len() - n
            } else {
                0
            };
            join_lines_from(&lines, start)
        },
    }
}

/// A log fetch over the file's content, if any: a missing file yields an
/// empty result rather than an error.
pub fn fetch_logs(content: Option<&String>, tail: Option<usize>) -> (r: String)
    ensures
        content is None ==> r@.len() == 0,
        content matches Some(c) ==> r@ == spec_tail(c@, tail),
{
    match content {
        None => String::new(),
        Some(c) => render_log_tail(c.as_str(), tail),
    }
}

} // verus!
