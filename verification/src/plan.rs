//! Decides which source files of a project are scanned, and for what.
use crate::scan::Scanner;
use crate::text;
use vstd::prelude::*;

verus! {

/// A group of files that are told by their names.
#[derive(Clone, Copy, Debug, PartialEq, Eq, Structural)]
pub enum FileKind {
    /// Controllers of a web application.
    Controller,
    /// The file in which a program is set up.
    Program,
    /// Code of a Razor page.
    RazorPage,
    /// Any C# source file.
    CSharp,
}

/// The file `name`, which is `lower` in small letters, is of the given kind.
pub open spec fn fits(kind: FileKind, name: Seq<char>, lower: Seq<char>) -> bool {
    match kind {
        FileKind::Controller => {
            ||| "controller.cs"@.is_suffix_of(lower)
            ||| text::occurs(lower, "/controllers/"@)
            ||| text::occurs(lower, "\\controllers\\"@)
        },
        FileKind::Program => "program.cs"@.is_suffix_of(lower),
        FileKind::RazorPage => ".cshtml.cs"@.is_suffix_of(lower),
        FileKind::CSharp => ".cs"@.is_suffix_of(name),
    }
}

/// The file `name` is of the given kind.
pub open spec fn is_kind(kind: FileKind, name: Seq<char>) -> bool {
    fits(kind, name, text::lowercase(name))
}

/// Decides by the names whether a file is of the given kind.
pub fn name_fits(kind: FileKind, name: &str, lower: &str) -> (yes: bool)
    ensures
        yes == fits(kind, name@, lower@),
{
    match kind {
        FileKind::Controller => text::ends_with(lower, "controller.cs") || text::contains(
            lower,
            "/controllers/",
        ) || text::contains(lower, "\\controllers\\"),
        FileKind::Program => text::ends_with(lower, "program.cs"),
        FileKind::RazorPage => text::ends_with(lower, ".cshtml.cs"),
        FileKind::CSharp => text::ends_with(name, ".cs"),
    }
}

/// Decides whether the file `name` is of the given kind.
pub fn has_kind(kind: FileKind, name: &str) -> (yes: bool)
    ensures
        yes == is_kind(kind, name@),
        text::all_ascii(name@) ==> yes == fits(kind, name@, text::ascii_lowercase(name@)),
{
    let lower = name.to_lowercase();
    name_fits(kind, name, lower.as_str())
}

/// The files of the given kind, in their order.
pub open spec fn of_kind(kind: FileKind, files: Seq<Seq<char>>) -> Seq<Seq<char>>
    decreases files.len(),
{
    if files.len() == 0 {
        Seq::empty()
    } else if is_kind(kind, files.last()) {
        of_kind(kind, files.drop_last()).push(files.last())
    } else {
        of_kind(kind, files.drop_last())
    }
}

/// Selects the files of the given kind.
pub fn select_files(kind: FileKind, files: &Vec<String>) -> (selected: Vec<String>)
    ensures
        selected.deep_view() == of_kind(kind, files.deep_view()),
{
    let ghost names = files.deep_view();
    let mut selected: Vec<String> = Vec::new();
    proof {
        assert(names.take(0) =~= Seq::empty());
        assert(selected.deep_view() =~= Seq::empty());
    }
    for i in 0..files.len()
        invariant
            names == files.deep_view(),
            selected.deep_view() == of_kind(kind, names.take(i as int)),
    {
        proof {
            assert(names.take(i + 1).drop_last() =~= names.take(i as int));
        }
        if has_kind(kind, files[i].as_str()) {
            let ghost before = selected.deep_view();
            selected.push(files[i].clone());
            assert(selected.deep_view() =~= before.push(names[i as int]));
        }
    }
    assert(names.take(files.len() as int) =~= names);
    selected
}

/// A source file to be scanned.
#[derive(Clone, Debug, PartialEq, Eq)]
pub struct ScanJob {
    /// The file, relative to the project's root.
    pub file: String,
    /// What is looked for in it.
    pub scanner: Scanner,
}

/// The content of a [`ScanJob`].
#[verifier::ext_equal]
pub struct ScanJobView {
    pub file: Seq<char>,
    pub scanner: Scanner,
}

impl View for ScanJob {
    type V = ScanJobView;

    open spec fn view(&self) -> ScanJobView {
        ScanJobView { file: self.file@, scanner: self.scanner }
    }
}

impl DeepView for ScanJob {
    type V = ScanJobView;

    open spec fn deep_view(&self) -> ScanJobView {
        self@
    }
}

/// One job for each of the files.
pub open spec fn jobs_of(scanner: Scanner, files: Seq<Seq<char>>) -> Seq<ScanJobView> {
    Seq::new(files.len(), |i: int| ScanJobView { file: files[i], scanner })
}

/// Adds one job for each of the files.
fn add_jobs(jobs: &mut Vec<ScanJob>, scanner: Scanner, files: Vec<String>)
    ensures
        final(jobs).deep_view() == old(jobs).deep_view() + jobs_of(scanner, files.deep_view()),
{
    let ghost before = jobs.deep_view();
    proof {
        assert(before + jobs_of(scanner, files.deep_view()).take(0) =~= before);
    }
    for i in 0..files.len()
        invariant
            jobs.deep_view() == before + jobs_of(scanner, files.deep_view()).take(i as int),
    {
        let job = ScanJob { file: files[i].clone(), scanner };
        let ghost all = jobs_of(scanner, files.deep_view());
        let ghost so_far = jobs.deep_view();
        jobs.push(job);
        proof {
            assert(jobs.deep_view() =~= so_far.push(job@));
            assert(job@ == all[i as int]);
            assert(all.take(i + 1) =~= all.take(i as int).push(all[i as int]));
            assert(so_far.push(job@) =~= before + all.take(i + 1));
        }
    }
    assert(jobs_of(scanner, files.deep_view()).take(files.len() as int) =~= jobs_of(
        scanner,
        files.deep_view(),
    ));
}

/// What is scanned in a web API: the routes of controllers, then those that
/// the program registers.
pub open spec fn webapi_plan(files: Seq<Seq<char>>) -> Seq<ScanJobView> {
    jobs_of(Scanner::Controller, of_kind(FileKind::Controller, files)) + jobs_of(
        Scanner::MinimalApi,
        of_kind(FileKind::Program, files),
    )
}

/// Lists what is scanned in a web API.
pub fn webapi_jobs(files: &Vec<String>) -> (jobs: Vec<ScanJob>)
    ensures
        jobs.deep_view() == webapi_plan(files.deep_view()),
{
    let mut jobs: Vec<ScanJob> = Vec::new();
    assert(jobs.deep_view() =~= Seq::empty());
    add_jobs(&mut jobs, Scanner::Controller, select_files(FileKind::Controller, files));
    add_jobs(&mut jobs, Scanner::MinimalApi, select_files(FileKind::Program, files));
    assert(jobs.deep_view() =~= webapi_plan(files.deep_view()));
    jobs
}

/// What is scanned in a web application: the routes of controllers, then the
/// handlers of Razor pages.
pub open spec fn webapp_plan(files: Seq<Seq<char>>) -> Seq<ScanJobView> {
    jobs_of(Scanner::Controller, of_kind(FileKind::Controller, files)) + jobs_of(
        Scanner::RazorPage,
        of_kind(FileKind::RazorPage, files),
    )
}

/// Lists what is scanned in a web application.
pub fn webapp_jobs(files: &Vec<String>) -> (jobs: Vec<ScanJob>)
    ensures
        jobs.deep_view() == webapp_plan(files.deep_view()),
{
    let mut jobs: Vec<ScanJob> = Vec::new();
    assert(jobs.deep_view() =~= Seq::empty());
    add_jobs(&mut jobs, Scanner::Controller, select_files(FileKind::Controller, files));
    add_jobs(&mut jobs, Scanner::RazorPage, select_files(FileKind::RazorPage, files));
    assert(jobs.deep_view() =~= webapp_plan(files.deep_view()));
    jobs
}

/// The files in which a console program may start: the program files, or all
/// C# files where there is none.
pub open spec fn console_candidates(files: Seq<Seq<char>>) -> Seq<Seq<char>> {
    let programs = of_kind(FileKind::Program, files);
    if programs.len() == 0 {
        of_kind(FileKind::CSharp, files)
    } else {
        programs
    }
}

/// Lists what is scanned in a console program.
pub fn console_jobs(files: &Vec<String>) -> (jobs: Vec<ScanJob>)
    ensures
        jobs.deep_view() == jobs_of(Scanner::Console, console_candidates(files.deep_view())),
{
    let programs = select_files(FileKind::Program, files);
    let candidates = if programs.len() == 0 {
        select_files(FileKind::CSharp, files)
    } else {
        programs
    };
    one_scan(Scanner::Console, candidates)
}

/// Lists one job for each of the files.
fn one_scan(scanner: Scanner, files: Vec<String>) -> (jobs: Vec<ScanJob>)
    ensures
        jobs.deep_view() == jobs_of(scanner, files.deep_view()),
{
    let mut jobs: Vec<ScanJob> = Vec::new();
    assert(jobs.deep_view() =~= Seq::empty());
    add_jobs(&mut jobs, scanner, files);
    assert(jobs.deep_view() =~= jobs_of(scanner, files.deep_view()));
    jobs
}

/// Lists what is scanned in a project of background services.
pub fn worker_jobs(files: &Vec<String>) -> (jobs: Vec<ScanJob>)
    ensures
        jobs.deep_view() == jobs_of(
            Scanner::Worker,
            of_kind(FileKind::CSharp, files.deep_view()),
        ),
{
    one_scan(Scanner::Worker, select_files(FileKind::CSharp, files))
}

/// Lists what is scanned in a desktop or mobile application.
pub fn native_jobs(files: &Vec<String>) -> (jobs: Vec<ScanJob>)
    ensures
        jobs.deep_view() == jobs_of(
            Scanner::Native,
            of_kind(FileKind::CSharp, files.deep_view()),
        ),
{
    one_scan(Scanner::Native, select_files(FileKind::CSharp, files))
}

/// What is scanned in a project of the given category.
pub open spec fn plan_of(category: Seq<char>, files: Seq<Seq<char>>) -> Seq<ScanJobView> {
    if category == "WebAPI"@ {
        webapi_plan(files)
    } else if category == "WebApp (MVC/Pages)"@ || category == "WebApp"@ {
        webapp_plan(files)
    } else if category == "ConsoleApp"@ {
        jobs_of(Scanner::Console, console_candidates(files))
    } else if category == "Worker"@ {
        jobs_of(Scanner::Worker, of_kind(FileKind::CSharp, files))
    } else if category == "NativeApp"@ {
        jobs_of(Scanner::Native, of_kind(FileKind::CSharp, files))
    } else {
        Seq::empty()
    }
}

/// Lists what is scanned in a project of the given category.
pub fn entry_point_jobs(files: &Vec<String>, category: &str) -> (jobs: Vec<ScanJob>)
    ensures
        jobs.deep_view() == plan_of(category@, files.deep_view()),
{
    if text::equals(category, "WebAPI") {
        webapi_jobs(files)
    } else if text::equals(category, "WebApp (MVC/Pages)") || text::equals(category, "WebApp") {
        webapp_jobs(files)
    } else if text::equals(category, "ConsoleApp") {
        console_jobs(files)
    } else if text::equals(category, "Worker") {
        worker_jobs(files)
    } else if text::equals(category, "NativeApp") {
        native_jobs(files)
    } else {
        let jobs: Vec<ScanJob> = Vec::new();
        assert(jobs.deep_view() =~= Seq::empty());
        jobs
    }
}

} // verus!
