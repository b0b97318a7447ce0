//! What a scan of a source file lists, said of the lines of the file and of
//! what the patterns find in them.
use crate::pattern;
use crate::profile::EntryPointView;
use crate::project_laws;
use crate::route;
use crate::scan;
use crate::scan::{Scanner, Start};
use crate::text;
use crate::text::Edge;
use vstd::prelude::*;

verus! {

/// The entry points that lines show are those of all lines that show one, in
/// the order of the lines: `at` gives the positions of these lines.
proof fn lemma_hits_positions(scanner: Scanner, path: Seq<char>, src: Seq<char>, n: int) -> (at: Seq<
    int,
>)
    requires
        0 <= n,
    ensures
        project_laws::in_order(at),
        at.len() == scan::hits(scanner, path, src, n).len(),
        forall|k: int|
            0 <= k < at.len() ==> 0 <= #[trigger] at[k] < n && scan::hit(scanner, path, src, at[k])
                == Some(scan::hits(scanner, path, src, n)[k]),
        forall|i: int|
            #[trigger] at.contains(i) <==> 0 <= i < n && scan::hit(scanner, path, src, i) is Some,
    decreases n,
{
    if n == 0 {
        Seq::empty()
    } else {
        let before = lemma_hits_positions(scanner, path, src, n - 1);
        let last = n - 1;
        let at = if scan::hit(scanner, path, src, last) is Some {
            before.push(last)
        } else {
            before
        };
        assert forall|i: int| #[trigger] at.contains(i) <==> 0 <= i < n && scan::hit(
            scanner,
            path,
            src,
            i,
        ) is Some by {
            if before.contains(i) {
                let k = choose|k: int| 0 <= k < before.len() && before[k] == i;
                assert(at[k] == i);
            }
            if i == last && scan::hit(scanner, path, src, i) is Some {
                assert(at[before.len() as int] == i);
            }
            if at.contains(i) && i != last {
                let k = choose|k: int| 0 <= k < at.len() && at[k] == i;
                assert(before[k] == i);
            }
            if before.contains(last) {
                assert(false);
            }
        }
        at
    }
}

/// The text of group `index`, empty where the group took no part.
pub open spec fn piece(groups: Seq<Option<Seq<char>>>, index: int) -> Seq<char> {
    match pattern::found_group(Some(groups), index) {
        Some(text) => text,
        None => Seq::empty(),
    }
}

/// Lines are numbered from 1; numbers begin again when the range of the
/// number is used up.
pub proof fn law_lines_count_from_one(i: int)
    ensures
        0 <= i < u32::MAX ==> scan::line_number(i) == i + 1,
        scan::line_number(i + 0x1_0000_0000) == scan::line_number(i),
{
}

/// The signature that belongs to an attribute on line `i` is on the next line
/// that is not blank; where that begins with a bracket, or there is none,
/// there is no signature.
pub proof fn law_signature_is_next_text(lines: Seq<Seq<char>>, i: int, j: int)
    requires
        0 <= i < j <= lines.len(),
        forall|k: int|
            i < k < j ==> text::trimmed(Edge::WhiteSpace, #[trigger] lines[k]).len() == 0,
    ensures
        j == lines.len() ==> scan::signature_of(lines, i) is None,
        j < lines.len() && text::trimmed(Edge::WhiteSpace, lines[j]).len() > 0 ==> {
            let line = text::trimmed(Edge::WhiteSpace, lines[j]);
            &&& line[0] == '[' ==> scan::signature_of(lines, i) is None
            &&& line[0] != '[' ==> scan::signature_of(lines, i) == Some(line)
        },
    decreases j - i,
{
    lemma_next_text_skips_blank(lines, i + 1, j);
}

/// Blank lines are skipped.
proof fn lemma_next_text_skips_blank(lines: Seq<Seq<char>>, from: int, to: int)
    requires
        0 <= from <= to <= lines.len(),
        forall|k: int|
            from <= k < to ==> text::trimmed(Edge::WhiteSpace, #[trigger] lines[k]).len() == 0,
    ensures
        scan::next_text(lines, from) == scan::next_text(lines, to),
    decreases to - from,
{
    if from < to {
        assert(text::trimmed(Edge::WhiteSpace, lines[from]).len() == 0);
        lemma_next_text_skips_blank(lines, from + 1, to);
    }
}

/// The entry point of an attribute shows the verb in capitals and the route,
/// and keeps path, line and description.
pub proof fn law_controller_entry_shows_verb_and_route(
    path: Seq<char>,
    base: Seq<char>,
    i: int,
    groups: Seq<Option<Seq<char>>>,
    description: Option<Seq<char>>,
)
    ensures
        ({
            let entry = scan::controller_entry(path, base, i, groups, description);
            let name = piece(groups, 1);
            &&& entry.path == path
            &&& entry.description == description
            &&& entry.line == Some(((i + 1) % 0x1_0000_0000) as u32)
            &&& "Http"@.is_prefix_of(name) ==> entry.method == Some(text::uppercase(name.skip(4)))
            &&& !"Http"@.is_prefix_of(name) ==> entry.method == Some(text::uppercase(name))
            &&& entry.label == entry.method->0 + " "@ + route::route_of(
                base,
                text::trimmed(Edge::WhiteSpace, piece(groups, 2)),
            )
        }),
{
    reveal_strlit("Http");
}

/// The entry point of a registration shows verb and route; that of a page
/// handler shows verb, page and handler.
pub proof fn law_other_entries_show_their_groups(
    path: Seq<char>,
    i: int,
    groups: Seq<Option<Seq<char>>>,
)
    ensures
        ({
            let entry = scan::minimal_api_entry(path, i, groups);
            &&& entry.path == path
            &&& entry.description is None
            &&& entry.line == Some(((i + 1) % 0x1_0000_0000) as u32)
            &&& pattern::found_group(Some(groups), 1) matches Some(verb) ==> entry.method == Some(
                text::uppercase(verb),
            )
            &&& pattern::found_group(Some(groups), 1) is None ==> entry.method == Some(
                Seq::<char>::empty(),
            )
            &&& entry.label == entry.method->0 + " "@ + piece(groups, 2)
        }),
        ({
            let entry = scan::page_entry(path, i, groups);
            &&& entry.path == path
            &&& entry.description == Some(piece(groups, 1))
            &&& entry.line == Some(((i + 1) % 0x1_0000_0000) as u32)
            &&& pattern::found_group(Some(groups), 2) matches Some(verb) ==> entry.method == Some(
                text::uppercase(verb),
            )
            &&& pattern::found_group(Some(groups), 2) is None ==> entry.method == Some(
                Seq::<char>::empty(),
            )
            &&& entry.label == entry.method->0 + " "@ + text::replaced(
                text::without_suffixes(path, ".cshtml.cs"@),
                '\\',
                '/',
            ) + " ("@ + piece(groups, 1) + ")"@
        }),
{
}

/// What is told of each method that starts something, and which of several
/// counts.
pub proof fn law_starts_are_told_apart(path: Seq<char>, i: int)
    ensures
        forall|start: Start|
            {
                let entry = #[trigger] scan::start_entry(start, path, i);
                &&& entry.path == path
                &&& entry.line == Some(((i + 1) % 0x1_0000_0000) as u32)
                &&& start is Main ==> entry.label == "Main()"@ && entry.method == Some("MAIN"@)
                    && entry.description == Some("Application entry point"@)
                &&& start is Execute ==> entry.label == "ExecuteAsync()"@ && entry.method == Some(
                    "EXECUTE"@,
                ) && entry.description == Some("Background worker execution loop"@)
                &&& start is Maui ==> entry.label == "CreateMauiApp()"@ && entry.method == Some(
                    "STARTUP"@,
                ) && entry.description == Some("MAUI application bootstrap"@)
                &&& start is Startup ==> entry.label == "OnStartup()"@ && entry.method == Some(
                    "STARTUP"@,
                ) && entry.description == Some("Application startup handler"@)
            },
        forall|main: bool, startup: bool|
            #[trigger] scan::start_of(true, main, startup) == Some(Start::Maui),
        forall|startup: bool| #[trigger] scan::start_of(false, true, startup) == Some(Start::Main),
        scan::start_of(false, false, true) == Some(Start::Startup),
        scan::start_of(false, false, false) is None,
{
}

/// The name of a method is the first group of what its pattern finds.
pub proof fn law_method_name_is_first_group(line: Seq<char>)
    ensures
        scan::method_name_of(line) == pattern::found_group(
            pattern::search(r"\b([A-Z][A-Za-z0-9_]*)\s*\("@, line),
            1,
        ),
{
}

/// In a controller file every line that holds an HTTP attribute gives one
/// entry point, in the order of the lines, and no other line gives one. The
/// entry point tells the line, the verb in capitals, the route made of the
/// first route attribute of the file and the attribute's own, and the name of
/// the method below.
pub proof fn law_controller_lists_every_attribute(path: Seq<char>, src: Seq<char>) -> (at: Seq<int>)
    ensures
        project_laws::in_order(at),
        at.len() == scan::scan_of(Scanner::Controller, path, src).len(),
        forall|i: int|
            #[trigger] at.contains(i) <==> 0 <= i < text::lines_of(src).len() && pattern::search(
                r#"\[(Http(?:Get|Post|Put|Delete|Patch|Head|Options))\s*(?:\(\s*"([^"]*)"\s*\))?\]"#@,
                text::lines_of(src)[i],
            ) is Some,
        forall|k: int|
            0 <= k < at.len() ==> {
                let lines = text::lines_of(src);
                let i = #[trigger] at[k];
                let entry = scan::scan_of(Scanner::Controller, path, src)[k];
                let groups = pattern::search(
                    r#"\[(Http(?:Get|Post|Put|Delete|Patch|Head|Options))\s*(?:\(\s*"([^"]*)"\s*\))?\]"#@,
                    lines[i],
                )->0;
                let name = piece(groups, 1);
                let base = match pattern::search(r#"\[Route\s*\(\s*"([^"]+)"\s*\)\]"#@, src) {
                    Some(found) => piece(found, 1),
                    None => Seq::empty(),
                };
                let fragment = text::trimmed(Edge::WhiteSpace, piece(groups, 2));
                &&& entry.path == path
                &&& entry.line == Some(((i + 1) % 0x1_0000_0000) as u32)
                &&& "Http"@.is_prefix_of(name) ==> entry.method == Some(
                    text::uppercase(name.skip(4)),
                )
                &&& !"Http"@.is_prefix_of(name) ==> entry.method == Some(text::uppercase(name))
                &&& entry.label == entry.method->0 + " "@ + route::route_of(base, fragment)
                &&& entry.description == match scan::signature_of(lines, i) {
                    Some(signature) => pattern::found_group(
                        pattern::search(r"\b([A-Z][A-Za-z0-9_]*)\s*\("@, signature),
                        1,
                    ),
                    None => None,
                }
            },
{
    reveal_strlit("Http");
    lemma_hits_positions(Scanner::Controller, path, src, text::lines_of(src).len() as int)
}

/// Every line that registers a route gives one entry point, in the order of
/// the lines, and no other line gives one.
pub proof fn law_minimal_api_lists_every_registration(path: Seq<char>, src: Seq<char>) -> (at: Seq<
    int,
>)
    ensures
        project_laws::in_order(at),
        at.len() == scan::scan_of(Scanner::MinimalApi, path, src).len(),
        forall|i: int|
            #[trigger] at.contains(i) <==> 0 <= i < text::lines_of(src).len() && pattern::search(
                r#"app\s*\.\s*Map(Get|Post|Put|Delete|Patch)\s*\(\s*"([^"]+)""#@,
                text::lines_of(src)[i],
            ) is Some,
        forall|k: int|
            0 <= k < at.len() ==> {
                let i = #[trigger] at[k];
                let entry = scan::scan_of(Scanner::MinimalApi, path, src)[k];
                let groups = pattern::search(
                    r#"app\s*\.\s*Map(Get|Post|Put|Delete|Patch)\s*\(\s*"([^"]+)""#@,
                    text::lines_of(src)[i],
                )->0;
                &&& entry.path == path
                &&& entry.line == Some(((i + 1) % 0x1_0000_0000) as u32)
                &&& pattern::found_group(Some(groups), 1) matches Some(verb) ==> entry.method
                    == Some(text::uppercase(verb))
                &&& pattern::found_group(Some(groups), 1) is None ==> entry.method == Some(
                    Seq::<char>::empty(),
                )
                &&& entry.label == entry.method->0 + " "@ + piece(groups, 2)
                &&& entry.description is None
            },
{
    lemma_hits_positions(Scanner::MinimalApi, path, src, text::lines_of(src).len() as int)
}

/// Every line that holds a page handler, wherever in the line, gives one entry
/// point, in the order of the lines, and no other line gives one.
pub proof fn law_razor_page_lists_every_handler(path: Seq<char>, src: Seq<char>) -> (at: Seq<int>)
    ensures
        project_laws::in_order(at),
        at.len() == scan::scan_of(Scanner::RazorPage, path, src).len(),
        forall|i: int|
            #[trigger] at.contains(i) <==> 0 <= i < text::lines_of(src).len() && pattern::search(
                r"(?:public|protected)\s+(?:async\s+)?[\w<>\[\]]+\s+(On(Get|Post|Put|Delete|Patch)\w*)\s*\("@,
                text::lines_of(src)[i],
            ) is Some,
        forall|k: int|
            0 <= k < at.len() ==> {
                let i = #[trigger] at[k];
                let entry = scan::scan_of(Scanner::RazorPage, path, src)[k];
                let groups = pattern::search(
                    r"(?:public|protected)\s+(?:async\s+)?[\w<>\[\]]+\s+(On(Get|Post|Put|Delete|Patch)\w*)\s*\("@,
                    text::lines_of(src)[i],
                )->0;
                &&& entry.path == path
                &&& entry.line == Some(((i + 1) % 0x1_0000_0000) as u32)
                &&& pattern::found_group(Some(groups), 2) matches Some(verb) ==> entry.method
                    == Some(text::uppercase(verb))
                &&& pattern::found_group(Some(groups), 2) is None ==> entry.method == Some(
                    Seq::<char>::empty(),
                )
                &&& entry.description == Some(piece(groups, 1))
                &&& entry.label == entry.method->0 + " "@ + text::replaced(
                    text::without_suffixes(path, ".cshtml.cs"@),
                    '\\',
                    '/',
                ) + " ("@ + piece(groups, 1) + ")"@
            },
{
    lemma_hits_positions(Scanner::RazorPage, path, src, text::lines_of(src).len() as int)
}

/// Of a console program the first line that holds a `Main` method, wherever in
/// the line, gives the one entry point; without such a line there is none.
pub proof fn law_console_finds_first_main(path: Seq<char>, src: Seq<char>)
    ensures
        ({
            let lines = text::lines_of(src);
            let all = scan::scan_of(Scanner::Console, path, src);
            &&& all.len() == 0 <==> forall|i: int|
                0 <= i < lines.len() ==> pattern::search(
                    r"static\s+(?:async\s+)?(?:void|Task|int)\s+Main\s*\("@,
                    #[trigger] lines[i],
                ) is None
            &&& all.len() <= 1
            &&& forall|i: int|
                0 <= i < lines.len() && pattern::search(
                    r"static\s+(?:async\s+)?(?:void|Task|int)\s+Main\s*\("@,
                    #[trigger] lines[i],
                ) is Some && (forall|j: int|
                    0 <= j < i ==> pattern::search(
                        r"static\s+(?:async\s+)?(?:void|Task|int)\s+Main\s*\("@,
                        #[trigger] lines[j],
                    ) is None) ==> all.len() == 1 && all[0] == (EntryPointView {
                    label: "Main()"@,
                    path,
                    line: Some(((i + 1) % 0x1_0000_0000) as u32),
                    method: Some("MAIN"@),
                    description: Some("Application entry point"@),
                })
        }),
{
    let lines = text::lines_of(src);
    let n = lines.len() as int;
    let at = lemma_hits_positions(Scanner::Console, path, src, n);
    let all = scan::scan_of(Scanner::Console, path, src);
    if all.len() == 0 {
        assert forall|i: int| 0 <= i < n implies pattern::search(
            r"static\s+(?:async\s+)?(?:void|Task|int)\s+Main\s*\("@,
            #[trigger] lines[i],
        ) is None by {
            assert(!at.contains(i));
        }
    } else {
        let first = at[0];
        assert(at.contains(first));
        assert(pattern::search(
            r"static\s+(?:async\s+)?(?:void|Task|int)\s+Main\s*\("@,
            lines[first],
        ) is Some);
    }
    assert forall|i: int|
        0 <= i < n && pattern::search(
            r"static\s+(?:async\s+)?(?:void|Task|int)\s+Main\s*\("@,
            #[trigger] lines[i],
        ) is Some && (forall|j: int|
            0 <= j < i ==> pattern::search(
                r"static\s+(?:async\s+)?(?:void|Task|int)\s+Main\s*\("@,
                #[trigger] lines[j],
            ) is None) implies all.len() == 1 && all[0] == (EntryPointView {
        label: "Main()"@,
        path,
        line: Some(((i + 1) % 0x1_0000_0000) as u32),
        method: Some("MAIN"@),
        description: Some("Application entry point"@),
    }) by {
        assert(at.contains(i));
        let k = choose|k: int| 0 <= k < at.len() && at[k] == i;
        assert(at.contains(at[0]));
        assert(pattern::search(
            r"static\s+(?:async\s+)?(?:void|Task|int)\s+Main\s*\("@,
            lines[at[0]],
        ) is Some);
        assert(at[0] == i);
    }
}

/// In a file that holds a background service every line that holds the method
/// in which one runs gives one entry point, in the order of the lines, and no
/// other line gives one. Another file gives none.
pub proof fn law_worker_lists_every_execution(path: Seq<char>, src: Seq<char>) -> (at: Seq<int>)
    ensures
        pattern::search(r"class\s+\w+\s*:\s*(?:\w+\s*,\s*)*BackgroundService"@, src) is None
            ==> scan::scan_of(Scanner::Worker, path, src).len() == 0,
        pattern::search(r"class\s+\w+\s*:\s*(?:\w+\s*,\s*)*BackgroundService"@, src) is Some ==> {
            &&& project_laws::in_order(at)
            &&& at.len() == scan::scan_of(Scanner::Worker, path, src).len()
            &&& forall|i: int|
                #[trigger] at.contains(i) <==> 0 <= i < text::lines_of(src).len()
                    && pattern::search(
                    r"(?:protected|public)\s+override\s+async\s+Task\s+ExecuteAsync\s*\("@,
                    text::lines_of(src)[i],
                ) is Some
            &&& forall|k: int|
                0 <= k < at.len() ==> scan::scan_of(Scanner::Worker, path, src)[k] == (
                EntryPointView {
                    label: "ExecuteAsync()"@,
                    path,
                    line: Some(((#[trigger] at[k] + 1) % 0x1_0000_0000) as u32),
                    method: Some("EXECUTE"@),
                    description: Some("Background worker execution loop"@),
                })
        },
{
    lemma_hits_positions(Scanner::Worker, path, src, text::lines_of(src).len() as int)
}

/// In an application every line that sets up a MAUI application, holds a
/// `Main` method or handles the startup gives one entry point, in the order of
/// the lines, and no other line gives one. A line that does several of these
/// counts as the first of them.
pub proof fn law_native_lists_every_start(path: Seq<char>, src: Seq<char>) -> (at: Seq<int>)
    ensures
        project_laws::in_order(at),
        at.len() == scan::scan_of(Scanner::Native, path, src).len(),
        forall|i: int|
            #[trigger] at.contains(i) <==> 0 <= i < text::lines_of(src).len() && {
                let line = text::lines_of(src)[i];
                ||| pattern::search(
                    r"(?:public|internal)\s+static\s+MauiApp\s+CreateMauiApp\s*\("@,
                    line,
                ) is Some
                ||| pattern::search(
                    r"static\s+(?:async\s+)?(?:void|Task|int)\s+Main\s*\("@,
                    line,
                ) is Some
                ||| pattern::search(
                    r"(?:protected\s+override\s+void\s+OnStartup|void\s+Application_Startup)\s*\("@,
                    line,
                ) is Some
            },
        forall|k: int|
            0 <= k < at.len() ==> {
                let i = #[trigger] at[k];
                let line = text::lines_of(src)[i];
                let entry = scan::scan_of(Scanner::Native, path, src)[k];
                let maui = pattern::search(
                    r"(?:public|internal)\s+static\s+MauiApp\s+CreateMauiApp\s*\("@,
                    line,
                ) is Some;
                let main = pattern::search(
                    r"static\s+(?:async\s+)?(?:void|Task|int)\s+Main\s*\("@,
                    line,
                ) is Some;
                &&& entry.path == path
                &&& entry.line == Some(((i + 1) % 0x1_0000_0000) as u32)
                &&& maui ==> entry.label == "CreateMauiApp()"@ && entry.method == Some("STARTUP"@)
                    && entry.description == Some("MAUI application bootstrap"@)
                &&& main && !maui ==> entry.label == "Main()"@ && entry.method == Some("MAIN"@)
                    && entry.description == Some("Application entry point"@)
                &&& !main && !maui ==> entry.label == "OnStartup()"@ && entry.method == Some(
                    "STARTUP"@,
                ) && entry.description == Some("Application startup handler"@)
            },
{
    lemma_hits_positions(Scanner::Native, path, src, text::lines_of(src).len() as int)
}

} // verus!
