//! Paths of files and routes of web requests.
use crate::text;
use crate::text::Edge;
use vstd::prelude::*;

verus! {

/// The path of `file` under `root`.
pub open spec fn joined(root: Seq<char>, file: Seq<char>) -> Seq<char> {
    if "/"@.is_suffix_of(root) {
        root + file
    } else {
        root + "/"@ + file
    }
}

/// Joins a directory and a file below it with one slash.
pub fn join_path(root: &str, file: &str) -> (path: String)
    ensures
        path@ == joined(root@, file@),
{
    if text::ends_with(root, "/") {
        root.to_string().concat(file)
    } else {
        root.to_string().concat("/").concat(file)
    }
}

/// The route that a controller's base route and a method's own part make. A
/// part that begins with a slash is a route by itself, whatever the base.
/// Tokens such as `[controller]` stay as they are.
pub open spec fn route_of(base: Seq<char>, fragment: Seq<char>) -> Seq<char> {
    let start = text::trimmed(Edge::Slash, base);
    let end = text::trimmed(Edge::Slash, fragment);
    if fragment.len() > 0 && fragment[0] == '/' {
        "/"@ + end
    } else if end.len() == 0 {
        "/"@ + start
    } else {
        "/"@ + start + "/"@ + end
    }
}

/// Combines a controller's base route with a method's own part. A part that
/// begins with a slash overrides the base; other slashes at the ends of either
/// do not count. The route begins with a slash.
pub fn build_route(base: &str, fragment: &str) -> (route: String)
    ensures
        route@ == route_of(base@, fragment@),
{
    let start = text::trim(Edge::Slash, base);
    let end = text::trim(Edge::Slash, fragment);
    let absolute = text::starts_with(fragment, "/");
    proof {
        reveal_strlit("/");
        if fragment@.len() > 0 {
            assert(fragment@.subrange(0, 1)[0] == fragment@[0]);
            assert(fragment@[0] == '/' ==> fragment@.subrange(0, 1) =~= "/"@);
        }
    }
    if absolute {
        // Absolute override: the method's part wins entirely.
        "/".to_string().concat(end.as_str())
    } else if end.as_str().is_empty() {
        "/".to_string().concat(start.as_str())
    } else {
        "/".to_string().concat(start.as_str()).concat("/").concat(end.as_str())
    }
}

} // verus!
