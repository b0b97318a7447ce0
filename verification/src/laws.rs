//! What holds of routes, scans and identifications at large.
use crate::identify;
use crate::identify::{PendingView, ProgressView, StageView};
use crate::outcome;
use crate::pattern;
use crate::plan;
use crate::profile::{EntryPointView, ProjectProfileView};
use crate::project_file;
use crate::route;
use crate::scan;
use crate::scan::Scanner;
use crate::text;
use crate::text::Edge;
use vstd::prelude::*;

verus! {

// ---------------------------------------------------------------------------
// Paths and routes
// ---------------------------------------------------------------------------

/// A slash at the end of the root makes no difference to a path.
pub proof fn law_join_ignores_final_slash(root: Seq<char>, file: Seq<char>)
    requires
        !"/"@.is_suffix_of(root),
    ensures
        route::joined(root + "/"@, file) == route::joined(root, file),
{
    reveal_strlit("/");
    let longer = root + "/"@;
    assert(longer.subrange(longer.len() - 1, longer.len() as int) =~= "/"@);
}

/// The path of a file begins with the root and ends in the file's name.
pub proof fn law_join_keeps_both(root: Seq<char>, file: Seq<char>)
    ensures
        root.is_prefix_of(route::joined(root, file)),
        file.is_suffix_of(route::joined(root, file)),
{
    let path = route::joined(root, file);
    assert(path.subrange(0, root.len() as int) =~= root);
    assert(path.subrange(path.len() - file.len(), path.len() as int) =~= file);
}

/// Trimming does not see a trimmed character at the end.
proof fn lemma_trimmed_push(edge: Edge, s: Seq<char>, c: char)
    requires
        edge.strips(c),
    ensures
        text::trimmed(edge, s.push(c)) == text::trimmed(edge, s),
    decreases s.len(),
{
    let longer = s.push(c);
    if s.len() == 0 {
        assert(longer.skip(1) =~= s);
    } else if edge.strips(s[0]) {
        assert(longer.skip(1) =~= s.skip(1).push(c));
        lemma_trimmed_push(edge, s.skip(1), c);
    } else {
        assert(longer.drop_last() =~= s);
    }
}

/// Trimming does not see a trimmed character at the beginning.
proof fn lemma_trimmed_front(edge: Edge, s: Seq<char>, c: char)
    requires
        edge.strips(c),
    ensures
        text::trimmed(edge, seq![c] + s) == text::trimmed(edge, s),
{
    assert((seq![c] + s).skip(1) =~= s);
}

/// What is left when a text is trimmed at its end does not end in a trimmed
/// character.
proof fn lemma_trimmed_end(edge: Edge, s: Seq<char>)
    ensures
        text::trimmed_end(edge, s).len() > 0 ==> !edge.strips(text::trimmed_end(edge, s).last()),
    decreases s.len(),
{
    if s.len() > 0 && edge.strips(s.last()) {
        lemma_trimmed_end(edge, s.drop_last());
    }
}

/// A route does not depend on slashes around the base, nor on one after the
/// method's own part where there is such a part.
pub proof fn law_route_ignores_outer_slashes(base: Seq<char>, fragment: Seq<char>)
    ensures
        route::route_of("/"@ + base, fragment) == route::route_of(base, fragment),
        route::route_of(base + "/"@, fragment) == route::route_of(base, fragment),
        fragment.len() > 0 ==> route::route_of(base, fragment + "/"@) == route::route_of(
            base,
            fragment,
        ),
{
    reveal_strlit("/");
    assert("/"@ =~= seq!['/']);
    assert(base + "/"@ =~= base.push('/'));
    assert(fragment + "/"@ =~= fragment.push('/'));
    lemma_trimmed_front(Edge::Slash, base, '/');
    lemma_trimmed_push(Edge::Slash, base, '/');
    lemma_trimmed_push(Edge::Slash, fragment, '/');
}

/// A method's part that begins with a slash makes the same route with every
/// base.
pub proof fn law_absolute_fragment_overrides_base(
    base: Seq<char>,
    other: Seq<char>,
    fragment: Seq<char>,
)
    requires
        fragment.len() > 0,
        fragment[0] == '/',
    ensures
        route::route_of(base, fragment) == "/"@ + text::trimmed(Edge::Slash, fragment),
        route::route_of(base, fragment) == route::route_of(other, fragment),
{
}

/// A route begins with a slash, and does not end in one unless it is nothing
/// else.
pub proof fn law_route_has_leading_slash_only(base: Seq<char>, fragment: Seq<char>)
    ensures
        ({
            let full = route::route_of(base, fragment);
            &&& full.len() > 0
            &&& full[0] == '/'
            &&& full.len() > 1 ==> full.last() != '/'
        }),
{
    reveal_strlit("/");
    lemma_trimmed_end(Edge::Slash, text::trimmed_start(Edge::Slash, base));
    lemma_trimmed_end(Edge::Slash, text::trimmed_start(Edge::Slash, fragment));
}

// ---------------------------------------------------------------------------
// Lines and scans
// ---------------------------------------------------------------------------

/// No line holds a line feed.
pub proof fn law_lines_hold_no_line_feed(s: Seq<char>)
    ensures
        forall|k: int|
            0 <= k < text::lines_of(s).len() ==> !(#[trigger] text::lines_of(s)[k]).contains('\n'),
    decreases s.len(),
{
    if s.len() > 0 {
        s.index_of_first_ensures('\n');
        if let Some(i) = s.index_of_first('\n') {
            law_lines_hold_no_line_feed(s.skip(i + 1));
            let first = text::without_return(s.take(i));
            assert(!first.contains('\n')) by {
                if first.contains('\n') {
                    let at = choose|j: int| 0 <= j < first.len() && first[j] == '\n';
                    assert(s[at] == '\n');
                }
            }
            assert forall|k: int| 0 <= k < text::lines_of(s).len() implies !(
            #[trigger] text::lines_of(s)[k]).contains('\n') by {
                if k > 0 {
                    assert(text::lines_of(s)[k] == text::lines_of(s.skip(i + 1))[k - 1]);
                }
            }
        }
    }
}

/// The entry points of the first lines stand on these lines, in their order.
#[verifier::spinoff_prover]
#[verifier::rlimit(60)]
proof fn lemma_hits_in_order(scanner: Scanner, path: Seq<char>, src: Seq<char>, n: int)
    requires
        0 <= n <= text::lines_of(src).len(),
    ensures
        ({
            let all = scan::hits(scanner, path, src, n);
            &&& forall|k: int|
                0 <= k < all.len() ==> exists|i: int|
                    0 <= i < n && Some(#[trigger] all[k]) == #[trigger] scan::hit(
                        scanner,
                        path,
                        src,
                        i,
                    )
            &&& text::lines_of(src).len() < 0x1_0000_0000 ==> {
                &&& forall|k: int|
                    0 <= k < all.len() ==> (#[trigger] all[k]).line is Some && 1 <= all[k].line->0
                        <= n
                &&& forall|j: int, k: int|
                    0 <= j < k < all.len() ==> (#[trigger] all[j]).line->0 < (
                    #[trigger] all[k]).line->0
            }
        }),
    decreases n,
{
    if n > 0 {
        lemma_hits_in_order(scanner, path, src, n - 1);
        let fewer = scan::hits(scanner, path, src, n - 1);
        let all = scan::hits(scanner, path, src, n);
        assert forall|k: int| 0 <= k < all.len() implies exists|i: int|
            0 <= i < n && Some(#[trigger] all[k]) == #[trigger] scan::hit(
                scanner,
                path,
                src,
                i,
            ) by {
            if k < fewer.len() {
                assert(all[k] == fewer[k]);
                let i = choose|i: int|
                    0 <= i < n - 1 && Some(fewer[k]) == #[trigger] scan::hit(
                        scanner,
                        path,
                        src,
                        i,
                    );
                assert(Some(all[k]) == scan::hit(scanner, path, src, i));
            } else {
                assert(Some(all[k]) == scan::hit(scanner, path, src, n - 1));
            }
        }
    }
}

/// Every entry point of a source file names that file, has a method, and is
/// what some line of the file shows.
pub proof fn law_entries_stand_in_their_file(scanner: Scanner, path: Seq<char>, src: Seq<char>)
    ensures
        forall|k: int|
            0 <= k < scan::scan_of(scanner, path, src).len() ==> {
                let entry = #[trigger] scan::scan_of(scanner, path, src)[k];
                &&& entry.path == path
                &&& entry.method is Some
                &&& exists|i: int|
                    0 <= i < text::lines_of(src).len() && entry.line == Some(scan::line_number(i))
                        && Some(entry) == #[trigger] scan::hit(scanner, path, src, i)
            },
{
    let n = text::lines_of(src).len() as int;
    lemma_hits_in_order(scanner, path, src, n);
    let all = scan::hits(scanner, path, src, n);
    assert forall|k: int| 0 <= k < scan::scan_of(scanner, path, src).len() implies {
        let entry = #[trigger] scan::scan_of(scanner, path, src)[k];
        &&& entry.path == path
        &&& entry.method is Some
        &&& exists|i: int|
            0 <= i < text::lines_of(src).len() && entry.line == Some(scan::line_number(i)) && Some(
                entry,
            ) == #[trigger] scan::hit(scanner, path, src, i)
    } by {
        let entry = scan::scan_of(scanner, path, src)[k];
        assert(entry == all[k]);
        let i = choose|i: int|
            0 <= i < n && Some(all[k]) == #[trigger] scan::hit(scanner, path, src, i);
        assert(entry.line == Some(scan::line_number(i)));
    }
}

/// The entry points of a source file stand on different lines, in the order
/// of the lines, which are counted from 1. Files of so many lines that their
/// numbers wrap around are left out.
pub proof fn law_entries_in_line_order(scanner: Scanner, path: Seq<char>, src: Seq<char>)
    requires
        text::lines_of(src).len() < 0x1_0000_0000,
    ensures
        ({
            let all = scan::scan_of(scanner, path, src);
            &&& forall|k: int|
                0 <= k < all.len() ==> (#[trigger] all[k]).line is Some && 1 <= all[k].line->0
                    <= text::lines_of(src).len()
            &&& forall|j: int, k: int|
                0 <= j < k < all.len() ==> (#[trigger] all[j]).line->0 < (
                #[trigger] all[k]).line->0
        }),
{
    lemma_hits_in_order(scanner, path, src, text::lines_of(src).len() as int);
}

/// The entry points as they would be in the file at `path`.
pub open spec fn with_path(entries: Seq<EntryPointView>, path: Seq<char>) -> Seq<EntryPointView> {
    entries.map_values(|entry: EntryPointView| EntryPointView { path, ..entry })
}

/// What the first lines show changes in its paths only when the file has
/// another path.
proof fn lemma_hits_with_path(
    scanner: Scanner,
    path: Seq<char>,
    other: Seq<char>,
    src: Seq<char>,
    n: int,
)
    requires
        scanner != Scanner::RazorPage,
    ensures
        scan::hits(scanner, other, src, n) == with_path(scan::hits(scanner, path, src, n), other),
    decreases n,
{
    if n > 0 {
        lemma_hits_with_path(scanner, path, other, src, n - 1);
    }
    assert(scan::hits(scanner, other, src, n) =~= with_path(
        scan::hits(scanner, path, src, n),
        other,
    ));
}

/// The path of a source file changes nothing in its entry points but their
/// paths. Pages are left out: their routes come from their paths.
pub proof fn law_path_changes_paths_only(
    scanner: Scanner,
    path: Seq<char>,
    other: Seq<char>,
    src: Seq<char>,
)
    requires
        scanner != Scanner::RazorPage,
    ensures
        scan::scan_of(scanner, other, src) == with_path(scan::scan_of(scanner, path, src), other),
{
    lemma_hits_with_path(scanner, path, other, src, text::lines_of(src).len() as int);
    assert(scan::scan_of(scanner, other, src) =~= with_path(
        scan::scan_of(scanner, path, src),
        other,
    ));
}

/// The entry points one line further down.
pub open spec fn moved_down(entries: Seq<EntryPointView>) -> Seq<EntryPointView> {
    entries.map_values(
        |entry: EntryPointView|
            EntryPointView {
                line: match entry.line {
                    Some(line) => Some((line + 1) as u32),
                    None => None,
                },
                ..entry
            },
    )
}

/// A line feed ends the first line, and the other lines follow.
pub(crate) proof fn lemma_line_in_front(front: Seq<char>, src: Seq<char>)
    requires
        !front.contains('\n'),
    ensures
        text::lines_of(front + seq!['\n'] + src) == seq![text::without_return(front)]
            + text::lines_of(src),
{
    let longer = front + seq!['\n'] + src;
    longer.index_of_first_ensures('\n');
    assert(longer[front.len() as int] == '\n');
    assert(longer.contains('\n'));
    let first = longer.index_of_first('\n')->0;
    assert(first == front.len()) by {
        if first < front.len() {
            assert(front[first] == longer[first]);
        }
    }
    assert(longer.take(first) =~= front);
    assert(longer.skip(first + 1) =~= src);
}

/// A line in front of others moves the text that follows a line.
proof fn lemma_next_text_in_front(front: Seq<char>, lines: Seq<Seq<char>>, from: int)
    requires
        0 <= from,
    ensures
        scan::next_text(seq![front] + lines, from + 1) == scan::next_text(lines, from),
    decreases lines.len() - from,
{
    if from < lines.len() {
        assert((seq![front] + lines)[from + 1] == lines[from]);
        lemma_next_text_in_front(front, lines, from + 1);
    }
}

/// The two contents agree in what is searched for in a file as a whole: the
/// base route of a controller, the presence of a background service.
pub open spec fn same_surroundings(scanner: Scanner, src: Seq<char>, other: Seq<char>) -> bool {
    match scanner {
        Scanner::Controller => scan::base_route_of(src) == scan::base_route_of(other),
        Scanner::Worker => scan::shows(scan::BACKGROUND_SERVICE@, src) == scan::shows(
            scan::BACKGROUND_SERVICE@,
            other,
        ),
        _ => true,
    }
}

/// What the first lines show moves down by one behind a line that shows
/// nothing.
proof fn lemma_hits_in_front(
    scanner: Scanner,
    path: Seq<char>,
    front: Seq<char>,
    src: Seq<char>,
    n: int,
)
    requires
        !front.contains('\n'),
        0 <= n <= text::lines_of(src).len() < u32::MAX,
        same_surroundings(scanner, front + seq!['\n'] + src, src),
        scan::hit(scanner, path, front + seq!['\n'] + src, 0) is None,
    ensures
        scan::hits(scanner, path, front + seq!['\n'] + src, n + 1) == moved_down(
            scan::hits(scanner, path, src, n),
        ),
    decreases n,
{
    let longer = front + seq!['\n'] + src;
    let lines = text::lines_of(src);
    lemma_line_in_front(front, src);
    if n > 0 {
        lemma_hits_in_front(scanner, path, front, src, n - 1);
        assert(text::lines_of(longer)[n] == lines[n - 1]);
        lemma_next_text_in_front(text::without_return(front), lines, n);
        assert(scan::signature_of(text::lines_of(longer), n) == scan::signature_of(lines, n - 1));
        assert(scan::line_number(n) == scan::line_number(n - 1) + 1);
    } else {
        assert(scan::hits(scanner, path, longer, 0) =~= Seq::empty());
    }
    assert(scan::hits(scanner, path, longer, n + 1) =~= moved_down(
        scan::hits(scanner, path, src, n),
    ));
}

/// A line in front of a source file raises the line number of every entry
/// point by one and changes nothing else, if that line shows no entry point
/// and changes nothing in what is searched for in the file as a whole.
pub proof fn law_line_in_front_moves_entries(
    scanner: Scanner,
    path: Seq<char>,
    front: Seq<char>,
    src: Seq<char>,
)
    requires
        !front.contains('\n'),
        text::lines_of(src).len() < u32::MAX,
    ensures
        ({
            let longer = front + seq!['\n'] + src;
            &&& same_surroundings(scanner, longer, src)
            &&& scan::hit(scanner, path, longer, 0) is None
        }) ==> scan::scan_of(scanner, path, front + seq!['\n'] + src) == moved_down(
            scan::scan_of(scanner, path, src),
        ),
{
    let longer = front + seq!['\n'] + src;
    let n = text::lines_of(src).len() as int;
    lemma_line_in_front(front, src);
    if same_surroundings(scanner, longer, src) && scan::hit(scanner, path, longer, 0) is None {
        lemma_hits_in_front(scanner, path, front, src, n);
        assert(scan::scan_of(scanner, path, longer) =~= moved_down(
            scan::scan_of(scanner, path, src),
        ));
    }
}

/// An empty line in front of a controller file raises the line number of
/// every entry point by one and changes nothing else, if the search for the
/// base route finds the same behind a line feed and no attribute is found in
/// the empty line. Both hold of the patterns as they are compiled:
/// [`scan::scan_controller_routes`] states the law without a condition.
pub proof fn law_empty_line_in_front_of_controller(path: Seq<char>, src: Seq<char>)
    requires
        text::lines_of(src).len() < u32::MAX,
    ensures
        ({
            &&& pattern::search(scan::ROUTE_ATTRIBUTE@, seq!['\n'] + src) == pattern::search(
                scan::ROUTE_ATTRIBUTE@,
                src,
            )
            &&& pattern::search(scan::HTTP_ATTRIBUTE@, Seq::empty()) is None
        }) ==> scan::scan_of(Scanner::Controller, path, seq!['\n'] + src) == moved_down(
            scan::scan_of(Scanner::Controller, path, src),
        ),
{
    let front = Seq::<char>::empty();
    let longer = front + seq!['\n'] + src;
    assert(longer =~= seq!['\n'] + src);
    lemma_line_in_front(front, src);
    assert(text::lines_of(longer)[0] == front);
    law_line_in_front_moves_entries(Scanner::Controller, path, front, src);
}

// ---------------------------------------------------------------------------
// Categories and tags
// ---------------------------------------------------------------------------

/// The category is one of those that are told apart.
pub open spec fn is_category(category: Seq<char>) -> bool {
    ||| category == "WebApp (MVC/Pages)"@
    ||| category == "WebAPI"@
    ||| category == "WebApp"@
    ||| category == "Worker"@
    ||| category == "NativeApp"@
    ||| category == "ConsoleApp"@
    ||| category == "Library"@
}

/// Every project file has one of the categories.
pub proof fn law_category_is_known(csproj: Seq<char>)
    ensures
        is_category(project_file::category_of(csproj)),
{
}

/// The names of the categories differ.
pub(crate) proof fn lemma_categories_differ()
    ensures
        "WebAPI"@ != "WebApp (MVC/Pages)"@,
        "WebAPI"@ != "WebApp"@,
        "Worker"@ != "WebAPI"@,
        "Worker"@ != "WebApp (MVC/Pages)"@,
        "Worker"@ != "WebApp"@,
        "Worker"@ != "ConsoleApp"@,
        "NativeApp"@ != "WebAPI"@,
        "NativeApp"@ != "WebApp (MVC/Pages)"@,
        "NativeApp"@ != "WebApp"@,
        "NativeApp"@ != "ConsoleApp"@,
        "NativeApp"@ != "Worker"@,
        "ConsoleApp"@ != "WebAPI"@,
        "ConsoleApp"@ != "WebApp (MVC/Pages)"@,
        "ConsoleApp"@ != "WebApp"@,
        "Library"@ != "WebAPI"@,
        "Library"@ != "WebApp (MVC/Pages)"@,
        "Library"@ != "WebApp"@,
        "Library"@ != "ConsoleApp"@,
        "Library"@ != "Worker"@,
        "Library"@ != "NativeApp"@,
{
    reveal_strlit("WebApp (MVC/Pages)");
    reveal_strlit("WebAPI");
    reveal_strlit("WebApp");
    reveal_strlit("Worker");
    reveal_strlit("NativeApp");
    reveal_strlit("ConsoleApp");
    reveal_strlit("Library");
    assert("Library"@[0] == 'L');
    assert("WebAPI"@[0] == 'W');
    assert("WebApp"@[0] == 'W');
    assert("WebApp (MVC/Pages)"@[0] == 'W');
    assert("Worker"@[0] == 'W');
    assert("NativeApp"@[0] == 'N');
    assert("ConsoleApp"@[0] == 'C');
    assert("WebAPI"@[4] == 'P');
    assert("WebApp"@[4] == 'p');
    assert("WebApp (MVC/Pages)"@[4] == 'p');
    assert("Worker"@[1] == 'o');
    assert("WebAPI"@[1] == 'e');
    assert("WebApp"@[1] == 'e');
    assert("WebApp (MVC/Pages)"@[1] == 'e');
}

/// Of a library only the project file is looked at.
pub proof fn law_library_has_no_entry_points(
    root: Seq<char>,
    files: Seq<Seq<char>>,
    host: spec_fn(Seq<char>) -> Option<Seq<char>>,
)
    ensures
        plan::plan_of("Library"@, files).len() == 0,
        outcome::entry_points_of(root, files, "Library"@, host).len() == 0,
{
    lemma_categories_differ();
}

/// Tags are the platform, the language and, if it is known, the framework.
pub open spec fn are_tags(tags: Seq<Seq<char>>) -> bool {
    &&& tags.len() == 2 || tags.len() == 3
    &&& tags[0] == ".NET"@
    &&& tags[1] == "C#"@ || tags[1] == "F#"@
}

// ---------------------------------------------------------------------------
// Identification, whatever the host answers
// ---------------------------------------------------------------------------

/// The entry points stand in the given files.
pub open spec fn are_listed(entries: Seq<EntryPointView>, files: Seq<Seq<char>>) -> bool {
    forall|k: int|
        0 <= k < entries.len() ==> {
            &&& files.contains((#[trigger] entries[k]).path)
            &&& entries[k].line is Some
            &&& entries[k].method is Some
        }
}

/// What an identification of a project with the given files has found so far,
/// or has ended with, is in order.
pub open spec fn is_sound(progress: ProgressView, files: Seq<Seq<char>>) -> bool {
    match progress {
        ProgressView::Read(pending) => {
            &&& pending.valid()
            &&& pending.files == files
            &&& match pending.stage {
                StageView::Project { .. } => true,
                StageView::Sources { category, tags, found, .. } => {
                    &&& is_category(category)
                    &&& are_tags(tags)
                    &&& are_listed(found, files)
                    &&& category == "ConsoleApp"@ ==> found.len() == 0
                },
            }
        },
        ProgressView::Done(Some(profile)) => {
            &&& is_category(profile.category)
            &&& are_tags(profile.tags)
            &&& are_listed(profile.entry_points, files)
            &&& profile.category == "ConsoleApp"@ ==> profile.entry_points.len() <= 1
            &&& profile.category == "Library"@ ==> profile.entry_points.len() == 0
        },
        ProgressView::Done(None) => true,
    }
}

/// An identification begins in order.
pub proof fn law_start_is_sound(root: Seq<char>, files: Seq<Seq<char>>)
    ensures
        is_sound(identify::start(root, files), files),
{
    outcome::law_first_project_file_is_first(files);
}

/// An identification stays in order, whatever the content of the file that it
/// is handed.
pub proof fn law_step_keeps_sound(
    pending: PendingView,
    content: Option<Seq<char>>,
    files: Seq<Seq<char>>,
)
    requires
        is_sound(ProgressView::Read(pending), files),
    ensures
        is_sound(identify::step(pending, content), files),
{
    lemma_categories_differ();
    if let StageView::Sources { category, tags, jobs, next, found } = pending.stage {
        let new = identify::job_entries(jobs[next], content);
        outcome::law_plan_within_files(category, files);
        assert(files.contains(jobs[next].file));
        if let Some(src) = content {
            law_entries_stand_in_their_file(jobs[next].scanner, jobs[next].file, src);
            let entries = scan::scan_of(jobs[next].scanner, jobs[next].file, src);
            assert forall|k: int| 0 <= k < entries.len() implies {
                &&& files.contains((#[trigger] entries[k]).path)
                &&& entries[k].line is Some
                &&& entries[k].method is Some
            } by {}
        }
        assert(are_listed(new, files));
        assert(are_listed(found + new, files)) by {
            assert forall|k: int| 0 <= k < (found + new).len() implies {
                &&& files.contains((#[trigger] (found + new)[k]).path)
                &&& (found + new)[k].line is Some
                &&& (found + new)[k].method is Some
            } by {
                if k < found.len() {
                    assert((found + new)[k] == found[k]);
                } else {
                    assert((found + new)[k] == new[k - found.len()]);
                }
            }
        }
        if category == "ConsoleApp"@ {
            assert(jobs[next].scanner == Scanner::Console);
        }
    }
}

/// How far an identification has come after the given replies.
pub open spec fn after(
    progress: ProgressView,
    replies: Seq<Option<Seq<char>>>,
) -> ProgressView
    decreases replies.len(),
{
    if replies.len() == 0 {
        progress
    } else {
        match after(progress, replies.drop_last()) {
            ProgressView::Read(pending) => identify::step(pending, replies.last()),
            ProgressView::Done(profile) => ProgressView::Done(profile),
        }
    }
}

/// Whatever the host replies, also if it replies differently to the same
/// request, an identification stays in order.
pub proof fn law_always_sound(
    root: Seq<char>,
    files: Seq<Seq<char>>,
    replies: Seq<Option<Seq<char>>>,
)
    ensures
        is_sound(after(identify::start(root, files), replies), files),
    decreases replies.len(),
{
    if replies.len() == 0 {
        law_start_is_sound(root, files);
    } else {
        law_always_sound(root, files, replies.drop_last());
        if let ProgressView::Read(pending) = after(
            identify::start(root, files),
            replies.drop_last(),
        ) {
            law_step_keeps_sound(pending, replies.last(), files);
        }
    }
}

/// An identification that still waits after some replies has done one job for
/// each of them but the first.
proof fn lemma_replies_used(
    root: Seq<char>,
    files: Seq<Seq<char>>,
    replies: Seq<Option<Seq<char>>>,
)
    ensures
        match after(identify::start(root, files), replies) {
            ProgressView::Read(pending) => match pending.stage {
                StageView::Project { .. } => replies.len() == 0,
                StageView::Sources { next, .. } => replies.len() == next + 1,
            },
            ProgressView::Done(_) => true,
        },
    decreases replies.len(),
{
    if replies.len() > 0 {
        lemma_replies_used(root, files, replies.drop_last());
    }
}

/// Whatever the host replies, an identification is done after at most one
/// more reply than twice the number of files.
pub proof fn law_ends(root: Seq<char>, files: Seq<Seq<char>>, replies: Seq<Option<Seq<char>>>)
    requires
        replies.len() > 2 * files.len(),
    ensures
        after(identify::start(root, files), replies) is Done,
{
    lemma_replies_used(root, files, replies);
    law_always_sound(root, files, replies);
    if let ProgressView::Read(pending) = after(identify::start(root, files), replies) {
        if let StageView::Sources { category, .. } = pending.stage {
            outcome::law_plan_within_files(category, files);
        }
    }
}

/// The first of several replies is used up by the first step.
proof fn lemma_after_first(
    pending: PendingView,
    reply: Option<Seq<char>>,
    rest: Seq<Option<Seq<char>>>,
)
    ensures
        after(ProgressView::Read(pending), seq![reply] + rest) == after(
            identify::step(pending, reply),
            rest,
        ),
    decreases rest.len(),
{
    let replies = seq![reply] + rest;
    if rest.len() == 0 {
        assert(replies.drop_last() =~= Seq::empty());
    } else {
        assert(replies.drop_last() =~= seq![reply] + rest.drop_last());
        lemma_after_first(pending, reply, rest.drop_last());
    }
}

/// The replies of a host to all the requests of an identification.
pub open spec fn answers(
    progress: ProgressView,
    host: spec_fn(Seq<char>) -> Option<Seq<char>>,
) -> Seq<Option<Seq<char>>> {
    outcome::reads(progress, host).map_values(host)
}

/// An identification that is handed the host's replies one by one comes to
/// what it ends with at that host.
proof fn lemma_after_answers(
    progress: ProgressView,
    host: spec_fn(Seq<char>) -> Option<Seq<char>>,
)
    ensures
        after(progress, answers(progress, host)) == ProgressView::Done(
            outcome::run(progress, host),
        ),
    decreases outcome::stages_left(progress), outcome::jobs_left(progress),
{
    match progress {
        ProgressView::Read(pending) => {
            let reply = host(pending.wanted());
            let next = identify::step(pending, reply);
            lemma_after_answers(next, host);
            assert(answers(progress, host) =~= seq![reply] + answers(next, host));
            lemma_after_first(pending, reply, answers(next, host));
        },
        ProgressView::Done(_) => {
            assert(answers(progress, host) =~= Seq::empty());
        },
    }
}

/// An identification that is handed the host's reply to each of its requests
/// ends, with the last of them, with the profile of the project.
pub proof fn law_replies_lead_to_profile(
    root: Seq<char>,
    files: Seq<Seq<char>>,
    host: spec_fn(Seq<char>) -> Option<Seq<char>>,
)
    ensures
        after(
            identify::start(root, files),
            answers(identify::start(root, files), host),
        ) == ProgressView::Done(outcome::profile_of(root, files, host)),
{
    lemma_after_answers(identify::start(root, files), host);
    outcome::law_run_gives_profile(root, files, host);
}

/// A source file that cannot be read adds nothing and holds up nothing.
pub proof fn law_unreadable_source_is_skipped(pending: PendingView)
    requires
        pending.stage is Sources,
    ensures
        identify::step(pending, None) == identify::proceed(
            pending.root,
            pending.files,
            pending.stage->category,
            pending.stage->tags,
            pending.stage->jobs,
            pending.stage->next + 1,
            pending.stage->found,
        ),
{
    assert(pending.stage->found + Seq::<EntryPointView>::empty() =~= pending.stage->found);
}

/// The profile that an identification ends with is in order: the category is
/// one of the known ones, the tags are platform, language and framework, the
/// entry points stand in listed files, a console program has at most one, and
/// a library has none.
pub proof fn law_profile_is_sound(
    root: Seq<char>,
    files: Seq<Seq<char>>,
    replies: Seq<Option<Seq<char>>>,
    profile: ProjectProfileView,
)
    requires
        after(identify::start(root, files), replies) == ProgressView::Done(Some(profile)),
    ensures
        is_category(profile.category),
        are_tags(profile.tags),
        are_listed(profile.entry_points, files),
        profile.category == "ConsoleApp"@ ==> profile.entry_points.len() <= 1,
        profile.category == "Library"@ ==> profile.entry_points.len() == 0,
{
    law_always_sound(root, files, replies);
}

} // verus!
