//! Finds the entry points in one source file.
use crate::laws;
use crate::pattern;
use crate::profile::{EntryPoint, EntryPointView};
use crate::route;
use crate::text;
use crate::text::Edge;
use regex::Regex;
use vstd::prelude::*;

verus! {

/// A route attribute: its template.
pub const ROUTE_ATTRIBUTE: &'static str = r#"\[Route\s*\(\s*"([^"]+)"\s*\)\]"#;

/// An HTTP verb attribute, such as `[HttpGet("path")]` or `[HttpGet]`: its
/// name and its template.
pub const HTTP_ATTRIBUTE: &'static str =
    r#"\[(Http(?:Get|Post|Put|Delete|Patch|Head|Options))\s*(?:\(\s*"([^"]*)"\s*\))?\]"#;

/// A route registration, such as `app.MapGet("/path", ...)`: verb and route.
pub const MAP_CALL: &'static str =
    r#"app\s*\.\s*Map(Get|Post|Put|Delete|Patch)\s*\(\s*"([^"]+)""#;

/// A page handler, such as `public IActionResult OnGet()` or
/// `public async Task<IActionResult> OnPostAsync()`: its name and verb.
pub const PAGE_HANDLER: &'static str =
    r"(?:public|protected)\s+(?:async\s+)?[\w<>\[\]]+\s+(On(Get|Post|Put|Delete|Patch)\w*)\s*\(";

/// The method in which a program starts.
pub const MAIN_METHOD: &'static str = r"static\s+(?:async\s+)?(?:void|Task|int)\s+Main\s*\(";

/// The method in which a background service runs.
pub const EXECUTE_METHOD: &'static str =
    r"(?:protected|public)\s+override\s+async\s+Task\s+ExecuteAsync\s*\(";

/// A class that is a background service.
pub const BACKGROUND_SERVICE: &'static str =
    r"class\s+\w+\s*:\s*(?:\w+\s*,\s*)*BackgroundService";

/// The method that sets up a MAUI application.
pub const MAUI_METHOD: &'static str =
    r"(?:public|internal)\s+static\s+MauiApp\s+CreateMauiApp\s*\(";

/// The method that is called when a desktop application starts.
pub const STARTUP_METHOD: &'static str =
    r"(?:protected\s+override\s+void\s+OnStartup|void\s+Application_Startup)\s*\(";

/// The name of a method, in front of its parameters.
pub const METHOD_NAME: &'static str = r"\b([A-Z][A-Za-z0-9_]*)\s*\(";

/// What is looked for in a source file.
#[derive(Clone, Copy, Debug, PartialEq, Eq, Structural)]
pub enum Scanner {
    /// Routes of a controller class.
    Controller,
    /// Routes registered by calls.
    MinimalApi,
    /// Handlers of a Razor page.
    RazorPage,
    /// The first `Main` method.
    Console,
    /// Background services.
    Worker,
    /// Start of a desktop or mobile application.
    Native,
}

/// The number of the line at position `i`: lines are counted from 1, modulo
/// the range of the number.
pub open spec fn line_number(i: int) -> u32 {
    ((i + 1) % 0x1_0000_0000) as u32
}

/// Numbers the line at position `i`.
pub fn number_line(i: usize) -> (line: u32)
    requires
        i < usize::MAX,
    ensures
        line == line_number(i as int),
{
    let count: u64 = (i + 1) as u64;
    assert(count as u32 == count % 0x1_0000_0000) by (bit_vector);
    count as u32
}

/// `text`, or the empty text where there is none.
pub open spec fn or_empty(text: Option<Seq<char>>) -> Seq<char> {
    match text {
        Some(t) => t,
        None => Seq::empty(),
    }
}

/// Copies the text of group `index`, or the empty text where there is none.
fn group_or_empty(groups: &Vec<Option<String>>, index: usize) -> (text: String)
    ensures
        text@ == or_empty(pattern::group(groups.deep_view(), index as int)),
{
    if index < groups.len() {
        if let Some(text) = &groups[index] {
            return text.clone();
        }
    }
    String::new()
}

/// Searches `text` where the pattern was compiled.
fn find(re: &Option<Regex>, text: &str) -> (found: Option<Vec<Option<String>>>)
    ensures
        found.deep_view() == match *re {
            Some(r) => pattern::groups(r, text@),
            None => None,
        },
        pattern::found_in(found.deep_view(), text@),
{
    match re {
        Some(re) => pattern::captures(re, text),
        None => None,
    }
}

/// Tells whether `text` holds a match where the pattern was compiled.
fn holds(re: &Option<Regex>, text: &str) -> (found: bool)
    ensures
        found == (match *re {
            Some(r) => pattern::groups(r, text@),
            None => None,
        } is Some),
{
    match re {
        Some(re) => pattern::is_match(re, text),
        None => false,
    }
}

// ---------------------------------------------------------------------------
// Controllers
// ---------------------------------------------------------------------------

/// The method name that a line shows.
pub open spec fn method_name_of(line: Seq<char>) -> Option<Seq<char>> {
    pattern::found_group(pattern::search(METHOD_NAME@, line), 1)
}

/// Extracts the method name from a line that should hold a method signature.
pub fn extract_method_name(line: &str) -> (name: Option<String>)
    ensures
        name.deep_view() == method_name_of(line@),
        name matches Some(piece) ==> text::occurs(line@, piece@),
{
    let re = pattern::compile(METHOD_NAME);
    let found = find(&re, line);
    let name = pattern::group_of(&found, 1);
    assert(pattern::found_group(found.deep_view(), 1) == name.deep_view());
    name
}

/// The first line from line `from` on that is not blank, without white space
/// around it.
pub open spec fn next_text(lines: Seq<Seq<char>>, from: int) -> Option<Seq<char>>
    decreases lines.len() - from,
{
    if 0 <= from < lines.len() {
        let line = text::trimmed(Edge::WhiteSpace, lines[from]);
        if line.len() > 0 {
            Some(line)
        } else {
            next_text(lines, from + 1)
        }
    } else {
        None
    }
}

/// The text below line `i` that should hold the signature of the method to
/// which an attribute on line `i` belongs: the next line that is not blank,
/// without white space around it, unless it begins with another attribute.
pub open spec fn signature_of(lines: Seq<Seq<char>>, i: int) -> Option<Seq<char>> {
    match next_text(lines, i + 1) {
        Some(line) => if line[0] != '[' {
            Some(line)
        } else {
            None
        },
        None => None,
    }
}

/// Finds the text below line `i` that should hold a method signature.
pub fn signature_below(lines: &Vec<String>, i: usize) -> (signature: Option<String>)
    requires
        i < lines.len(),
    ensures
        signature.deep_view() == signature_of(lines.deep_view(), i as int),
{
    for k in (i + 1)..lines.len()
        invariant
            i < lines.len(),
            next_text(lines.deep_view(), i + 1) == next_text(lines.deep_view(), k as int),
    {
        let line = text::trim(Edge::WhiteSpace, lines[k].as_str());
        if !line.as_str().is_empty() {
            proof {
                reveal_strlit("[");
                assert(line@.subrange(0, 1)[0] == line@[0]);
                assert(line@[0] == '[' ==> line@.subrange(0, 1) =~= "["@);
            }
            if text::starts_with(line.as_str(), "[") {
                return None;
            }
            return Some(line);
        }
    }
    None
}

/// The base route of a controller.
pub open spec fn base_route_of(src: Seq<char>) -> Seq<char> {
    or_empty(pattern::found_group(pattern::search(ROUTE_ATTRIBUTE@, src), 1))
}

/// The verb that an HTTP attribute names, in capitals.
pub open spec fn verb_of(attribute: Seq<char>) -> Seq<char> {
    text::uppercase(text::without_prefix(attribute, "Http"@))
}

/// The entry point for the HTTP attribute with the given groups on line `i`.
pub open spec fn controller_entry(
    path: Seq<char>,
    base: Seq<char>,
    i: int,
    groups: Seq<Option<Seq<char>>>,
    description: Option<Seq<char>>,
) -> EntryPointView {
    let verb = verb_of(or_empty(pattern::group(groups, 1)));
    let fragment = text::trimmed(Edge::WhiteSpace, or_empty(pattern::group(groups, 2)));
    EntryPointView {
        label: verb + " "@ + route::route_of(base, fragment),
        path,
        line: Some(line_number(i)),
        method: Some(verb),
        description,
    }
}

/// Makes the entry point for an HTTP attribute.
pub fn controller_entry_point(
    rel_path: &str,
    base_route: &str,
    i: usize,
    groups: &Vec<Option<String>>,
    description: Option<String>,
) -> (entry: EntryPoint)
    requires
        i < usize::MAX,
    ensures
        entry@ == controller_entry(
            rel_path@,
            base_route@,
            i as int,
            groups.deep_view(),
            description.deep_view(),
        ),
        ({
            let name = text::without_prefix(
                or_empty(pattern::group(groups.deep_view(), 1)),
                "Http"@,
            );
            text::all_ascii(name) ==> entry@.method == Some(text::ascii_uppercase(name))
        }),
{
    let attribute = group_or_empty(groups, 1);
    let verb = text::strip_prefix(attribute.as_str(), "Http").as_str().to_uppercase();
    let fragment = text::trim(Edge::WhiteSpace, group_or_empty(groups, 2).as_str());
    let route = route::build_route(base_route, fragment.as_str());
    EntryPoint {
        label: verb.clone().concat(" ").concat(route.as_str()),
        path: rel_path.to_string(),
        line: Some(number_line(i)),
        method: Some(verb),
        description,
    }
}

/// Scans a C# controller file for `[Route]` on the class and HTTP verb
/// attributes on methods.
pub fn scan_controller_routes(rel_path: &str, src: &str) -> (entries: Vec<EntryPoint>)
    ensures
        entries.deep_view() == scan_of(Scanner::Controller, rel_path@, src@),
        // An empty line in front moves every entry point down by one line.
        text::lines_of(src@).len() < u32::MAX ==> scan_of(
            Scanner::Controller,
            rel_path@,
            seq!['\n'] + src@,
        ) == laws::moved_down(entries.deep_view()),
{
    let class_route_re = pattern::compile(ROUTE_ATTRIBUTE);
    let method_re = pattern::compile(HTTP_ATTRIBUTE);
    proof {
        assert(!seq!['\n'].contains('['));
        assert(pattern::search(ROUTE_ATTRIBUTE@, seq!['\n'] + src@) == pattern::search(
            ROUTE_ATTRIBUTE@,
            src@,
        ));
        assert(pattern::search(HTTP_ATTRIBUTE@, Seq::empty()) is None);
        if text::lines_of(src@).len() < u32::MAX {
            laws::law_empty_line_in_front_of_controller(rel_path@, src@);
        }
    }
    let base_route = match pattern::group_of(&find(&class_route_re, src), 1) {
        Some(template) => template,
        None => String::new(),
    };
    let lines = text::lines(src);
    let mut entries: Vec<EntryPoint> = Vec::new();
    for i in 0..lines.len()
        invariant
            lines.deep_view() == text::lines_of(src@),
            method_re == pattern::compiled(HTTP_ATTRIBUTE@),
            base_route@ == base_route_of(src@),
            entries.deep_view() == hits(Scanner::Controller, rel_path@, src@, i as int),
    {
        if let Some(groups) = find(&method_re, lines[i].as_str()) {
            let description = match signature_below(&lines, i) {
                Some(signature) => extract_method_name(signature.as_str()),
                None => None,
            };
            let entry = controller_entry_point(
                rel_path,
                base_route.as_str(),
                i,
                &groups,
                description,
            );
            let ghost before = entries.deep_view();
            entries.push(entry);
            assert(entries.deep_view() =~= before.push(entry@));
        }
    }
    entries
}

// ---------------------------------------------------------------------------
// Minimal APIs
// ---------------------------------------------------------------------------

/// The entry point for the route registration with the given groups on line
/// `i`.
pub open spec fn minimal_api_entry(
    path: Seq<char>,
    i: int,
    groups: Seq<Option<Seq<char>>>,
) -> EntryPointView {
    let verb = match pattern::group(groups, 1) {
        Some(name) => text::uppercase(name),
        None => Seq::empty(),
    };
    EntryPointView {
        label: verb + " "@ + or_empty(pattern::group(groups, 2)),
        path,
        line: Some(line_number(i)),
        method: Some(verb),
        description: None,
    }
}

/// Puts the text of group `index` into capitals; the empty text where there
/// is none.
fn group_in_capitals(groups: &Vec<Option<String>>, index: usize) -> (capitals: String)
    ensures
        capitals@ == match pattern::group(groups.deep_view(), index as int) {
            Some(name) => text::uppercase(name),
            None => Seq::empty(),
        },
        ({
            let name = or_empty(pattern::group(groups.deep_view(), index as int));
            text::all_ascii(name) ==> capitals@ == text::ascii_uppercase(name)
        }),
{
    if index < groups.len() {
        if let Some(text) = &groups[index] {
            return text.as_str().to_uppercase();
        }
    }
    assert(text::ascii_uppercase(Seq::empty()) =~= Seq::empty());
    String::new()
}

/// Makes the entry point for a route registration.
pub fn minimal_api_entry_point(
    rel_path: &str,
    i: usize,
    groups: &Vec<Option<String>>,
) -> (entry: EntryPoint)
    requires
        i < usize::MAX,
    ensures
        entry@ == minimal_api_entry(rel_path@, i as int, groups.deep_view()),
        ({
            let name = or_empty(pattern::group(groups.deep_view(), 1));
            text::all_ascii(name) ==> entry@.method == Some(text::ascii_uppercase(name))
        }),
{
    let verb = group_in_capitals(groups, 1);
    let route = group_or_empty(groups, 2);
    EntryPoint {
        label: verb.clone().concat(" ").concat(route.as_str()),
        path: rel_path.to_string(),
        line: Some(number_line(i)),
        method: Some(verb),
        description: None,
    }
}

/// Scans a source file for route registrations: `app.MapGet("/path", ...)`,
/// `app.MapPost(...)` and so on.
pub fn scan_minimal_api_routes(rel_path: &str, src: &str) -> (entries: Vec<EntryPoint>)
    ensures
        entries.deep_view() == scan_of(Scanner::MinimalApi, rel_path@, src@),
{
    let map_re = pattern::compile(MAP_CALL);
    let lines = text::lines(src);
    let mut entries: Vec<EntryPoint> = Vec::new();
    for i in 0..lines.len()
        invariant
            lines.deep_view() == text::lines_of(src@),
            map_re == pattern::compiled(MAP_CALL@),
            entries.deep_view() == hits(Scanner::MinimalApi, rel_path@, src@, i as int),
    {
        if let Some(groups) = find(&map_re, lines[i].as_str()) {
            let entry = minimal_api_entry_point(rel_path, i, &groups);
            let ghost before = entries.deep_view();
            entries.push(entry);
            assert(entries.deep_view() =~= before.push(entry@));
        }
    }
    entries
}

// ---------------------------------------------------------------------------
// Razor pages
// ---------------------------------------------------------------------------

/// The route of the page whose code is in the file at `path`.
pub open spec fn page_route_of(path: Seq<char>) -> Seq<char> {
    text::replaced(text::without_suffixes(path, ".cshtml.cs"@), '\\', '/')
}

/// The entry point for the page handler with the given groups on line `i`.
pub open spec fn page_entry(
    path: Seq<char>,
    i: int,
    groups: Seq<Option<Seq<char>>>,
) -> EntryPointView {
    let name = or_empty(pattern::group(groups, 1));
    let verb = match pattern::group(groups, 2) {
        Some(verb) => text::uppercase(verb),
        None => Seq::empty(),
    };
    EntryPointView {
        label: verb + " "@ + page_route_of(path) + " ("@ + name + ")"@,
        path,
        line: Some(line_number(i)),
        method: Some(verb),
        description: Some(name),
    }
}

/// Makes the entry point for a page handler.
pub fn page_entry_point(rel_path: &str, i: usize, groups: &Vec<Option<String>>) -> (entry:
    EntryPoint)
    requires
        i < usize::MAX,
    ensures
        entry@ == page_entry(rel_path@, i as int, groups.deep_view()),
        ({
            let verb = or_empty(pattern::group(groups.deep_view(), 2));
            text::all_ascii(verb) ==> entry@.method == Some(text::ascii_uppercase(verb))
        }),
{
    let name = group_or_empty(groups, 1);
    let verb = group_in_capitals(groups, 2);
    let page = text::trim_end_matches(rel_path, ".cshtml.cs");
    let page_route = text::replace_char(page.as_str(), '\\', '/');
    let label = verb.clone().concat(" ").concat(page_route.as_str()).concat(" (").concat(
        name.as_str(),
    ).concat(")");
    EntryPoint {
        label,
        path: rel_path.to_string(),
        line: Some(number_line(i)),
        method: Some(verb),
        description: Some(name),
    }
}

/// Scans the code of a Razor page for its handlers: `OnGet`, `OnPost` and so
/// on.
pub fn scan_razor_page_handlers(rel_path: &str, src: &str) -> (entries: Vec<EntryPoint>)
    ensures
        entries.deep_view() == scan_of(Scanner::RazorPage, rel_path@, src@),
{
    let handler_re = pattern::compile(PAGE_HANDLER);
    let lines = text::lines(src);
    let mut entries: Vec<EntryPoint> = Vec::new();
    for i in 0..lines.len()
        invariant
            lines.deep_view() == text::lines_of(src@),
            handler_re == pattern::compiled(PAGE_HANDLER@),
            entries.deep_view() == hits(Scanner::RazorPage, rel_path@, src@, i as int),
    {
        if let Some(groups) = find(&handler_re, lines[i].as_str()) {
            let entry = page_entry_point(rel_path, i, &groups);
            let ghost before = entries.deep_view();
            entries.push(entry);
            assert(entries.deep_view() =~= before.push(entry@));
        }
    }
    entries
}

// ---------------------------------------------------------------------------
// Programs, services and applications
// ---------------------------------------------------------------------------

/// A method that starts something.
#[derive(Clone, Copy, Debug, PartialEq, Eq, Structural)]
pub enum Start {
    Main,
    Execute,
    Maui,
    Startup,
}

/// The entry point for the method of the given kind on line `i`.
pub open spec fn start_entry(start: Start, path: Seq<char>, i: int) -> EntryPointView {
    let (label, method, description) = match start {
        Start::Main => ("Main()"@, "MAIN"@, "Application entry point"@),
        Start::Execute => ("ExecuteAsync()"@, "EXECUTE"@, "Background worker execution loop"@),
        Start::Maui => ("CreateMauiApp()"@, "STARTUP"@, "MAUI application bootstrap"@),
        Start::Startup => ("OnStartup()"@, "STARTUP"@, "Application startup handler"@),
    };
    EntryPointView {
        label,
        path,
        line: Some(line_number(i)),
        method: Some(method),
        description: Some(description),
    }
}

/// Makes the entry point for a method that starts something.
pub fn start_entry_point(start: Start, rel_path: &str, i: usize) -> (entry: EntryPoint)
    requires
        i < usize::MAX,
    ensures
        entry@ == start_entry(start, rel_path@, i as int),
{
    let (label, method, description) = match start {
        Start::Main => ("Main()", "MAIN", "Application entry point"),
        Start::Execute => ("ExecuteAsync()", "EXECUTE", "Background worker execution loop"),
        Start::Maui => ("CreateMauiApp()", "STARTUP", "MAUI application bootstrap"),
        Start::Startup => ("OnStartup()", "STARTUP", "Application startup handler"),
    };
    EntryPoint {
        label: label.to_string(),
        path: rel_path.to_string(),
        line: Some(number_line(i)),
        method: Some(method.to_string()),
        description: Some(description.to_string()),
    }
}

/// Finds the first `Main` method of a source file.
pub fn scan_main_method(rel_path: &str, src: &str) -> (entries: Vec<EntryPoint>)
    ensures
        entries.deep_view() == scan_of(Scanner::Console, rel_path@, src@),
{
    let main_re = pattern::compile(MAIN_METHOD);
    let lines = text::lines(src);
    for i in 0..lines.len()
        invariant
            lines.deep_view() == text::lines_of(src@),
            main_re == pattern::compiled(MAIN_METHOD@),
            hits(Scanner::Console, rel_path@, src@, i as int).len() == 0,
    {
        if holds(&main_re, lines[i].as_str()) {
            let entry = start_entry_point(Start::Main, rel_path, i);
            let mut entries: Vec<EntryPoint> = Vec::new();
            entries.push(entry);
            proof {
                lemma_hits_prefix(
                    Scanner::Console,
                    rel_path@,
                    src@,
                    i + 1,
                    lines.len() as int,
                );
                assert(hits(Scanner::Console, rel_path@, src@, i + 1)[0] == entry@);
                assert(entries.deep_view() =~= scan_of(Scanner::Console, rel_path@, src@));
            }
            return entries;
        }
    }
    let entries: Vec<EntryPoint> = Vec::new();
    assert(entries.deep_view() =~= Seq::empty());
    entries
}

/// Scans a source file that holds a background service for the methods in
/// which services run.
pub fn scan_background_services(rel_path: &str, src: &str) -> (entries: Vec<EntryPoint>)
    ensures
        entries.deep_view() == scan_of(Scanner::Worker, rel_path@, src@),
{
    let service_re = pattern::compile(BACKGROUND_SERVICE);
    let execute_re = pattern::compile(EXECUTE_METHOD);
    let mut entries: Vec<EntryPoint> = Vec::new();
    assert(entries.deep_view() =~= Seq::empty());
    if !holds(&service_re, src) {
        return entries;
    }
    let lines = text::lines(src);
    for i in 0..lines.len()
        invariant
            lines.deep_view() == text::lines_of(src@),
            execute_re == pattern::compiled(EXECUTE_METHOD@),
            entries.deep_view() == hits(Scanner::Worker, rel_path@, src@, i as int),
    {
        if holds(&execute_re, lines[i].as_str()) {
            let entry = start_entry_point(Start::Execute, rel_path, i);
            let ghost before = entries.deep_view();
            entries.push(entry);
            assert(entries.deep_view() =~= before.push(entry@));
        }
    }
    entries
}

/// Scans a source file for the start of a MAUI, WinForms or WPF application.
pub fn scan_application_start(rel_path: &str, src: &str) -> (entries: Vec<EntryPoint>)
    ensures
        entries.deep_view() == scan_of(Scanner::Native, rel_path@, src@),
{
    let maui_re = pattern::compile(MAUI_METHOD);
    let main_re = pattern::compile(MAIN_METHOD);
    let startup_re = pattern::compile(STARTUP_METHOD);
    let lines = text::lines(src);
    let mut entries: Vec<EntryPoint> = Vec::new();
    for i in 0..lines.len()
        invariant
            lines.deep_view() == text::lines_of(src@),
            maui_re == pattern::compiled(MAUI_METHOD@),
            main_re == pattern::compiled(MAIN_METHOD@),
            startup_re == pattern::compiled(STARTUP_METHOD@),
            entries.deep_view() == hits(Scanner::Native, rel_path@, src@, i as int),
    {
        let line = lines[i].as_str();
        let maui = holds(&maui_re, line);
        let main = !maui && holds(&main_re, line);
        let startup = !maui && !main && holds(&startup_re, line);
        if let Some(start) = first_start(maui, main, startup) {
            let entry = start_entry_point(start, rel_path, i);
            let ghost before = entries.deep_view();
            entries.push(entry);
            assert(entries.deep_view() =~= before.push(entry@));
        }
    }
    entries
}

/// What a line starts that matches the patterns as given.
pub open spec fn start_of(maui: bool, main: bool, startup: bool) -> Option<Start> {
    if maui {
        Some(Start::Maui)
    } else if main {
        Some(Start::Main)
    } else if startup {
        Some(Start::Startup)
    } else {
        None
    }
}

/// Decides what a line starts: the set-up of a MAUI application goes before
/// a `Main` method, and that before a startup handler.
pub fn first_start(maui: bool, main: bool, startup: bool) -> (start: Option<Start>)
    ensures
        start == start_of(maui, main, startup),
{
    if maui {
        Some(Start::Maui)
    } else if main {
        Some(Start::Main)
    } else if startup {
        Some(Start::Startup)
    } else {
        None
    }
}

// ---------------------------------------------------------------------------
// All kinds of files
// ---------------------------------------------------------------------------

/// The pattern stands in `line`.
pub open spec fn shows(pattern: Seq<char>, line: Seq<char>) -> bool {
    pattern::search(pattern, line) is Some
}

/// The entry point that line `i` of a source file shows, if any.
pub open spec fn hit(scanner: Scanner, path: Seq<char>, src: Seq<char>, i: int) -> Option<
    EntryPointView,
> {
    let lines = text::lines_of(src);
    let line = lines[i];
    match scanner {
        Scanner::Controller => match pattern::search(HTTP_ATTRIBUTE@, line) {
            Some(groups) => Some(
                controller_entry(
                    path,
                    base_route_of(src),
                    i,
                    groups,
                    match signature_of(lines, i) {
                        Some(signature) => method_name_of(signature),
                        None => None,
                    },
                ),
            ),
            None => None,
        },
        Scanner::MinimalApi => match pattern::search(MAP_CALL@, line) {
            Some(groups) => Some(minimal_api_entry(path, i, groups)),
            None => None,
        },
        Scanner::RazorPage => match pattern::search(PAGE_HANDLER@, line) {
            Some(groups) => Some(page_entry(path, i, groups)),
            None => None,
        },
        Scanner::Console => if shows(MAIN_METHOD@, line) {
            Some(start_entry(Start::Main, path, i))
        } else {
            None
        },
        Scanner::Worker => if shows(EXECUTE_METHOD@, line) {
            Some(start_entry(Start::Execute, path, i))
        } else {
            None
        },
        Scanner::Native => match start_of(
            shows(MAUI_METHOD@, line),
            shows(MAIN_METHOD@, line),
            shows(STARTUP_METHOD@, line),
        ) {
            Some(start) => Some(start_entry(start, path, i)),
            None => None,
        },
    }
}

/// The entry points that the first `n` lines of a source file show.
pub open spec fn hits(scanner: Scanner, path: Seq<char>, src: Seq<char>, n: int) -> Seq<
    EntryPointView,
>
    decreases n,
{
    if n <= 0 {
        Seq::empty()
    } else {
        match hit(scanner, path, src, n - 1) {
            Some(entry) => hits(scanner, path, src, n - 1).push(entry),
            None => hits(scanner, path, src, n - 1),
        }
    }
}

/// The entry points of a source file. Of a console program only the first
/// counts, and a file without a background service has no worker.
pub open spec fn scan_of(scanner: Scanner, path: Seq<char>, src: Seq<char>) -> Seq<
    EntryPointView,
> {
    let all = hits(scanner, path, src, text::lines_of(src).len() as int);
    match scanner {
        Scanner::Console => if all.len() > 0 {
            seq![all[0]]
        } else {
            Seq::empty()
        },
        Scanner::Worker => if shows(BACKGROUND_SERVICE@, src) {
            all
        } else {
            Seq::empty()
        },
        _ => all,
    }
}

/// What the first `m` lines show comes first in what the first `n` show.
proof fn lemma_hits_prefix(scanner: Scanner, path: Seq<char>, src: Seq<char>, m: int, n: int)
    requires
        0 <= m <= n,
    ensures
        hits(scanner, path, src, m).is_prefix_of(hits(scanner, path, src, n)),
    decreases n - m,
{
    if m < n {
        lemma_hits_prefix(scanner, path, src, m, n - 1);
    }
}

/// Finds the entry points of a source file.
pub fn scan_source(scanner: Scanner, rel_path: &str, src: &str) -> (entries: Vec<EntryPoint>)
    ensures
        entries.deep_view() == scan_of(scanner, rel_path@, src@),
{
    match scanner {
        Scanner::Controller => scan_controller_routes(rel_path, src),
        Scanner::MinimalApi => scan_minimal_api_routes(rel_path, src),
        Scanner::RazorPage => scan_razor_page_handlers(rel_path, src),
        Scanner::Console => scan_main_method(rel_path, src),
        Scanner::Worker => scan_background_services(rel_path, src),
        Scanner::Native => scan_application_start(rel_path, src),
    }
}

} // verus!
