//! Identifies a project step by step.
//!
//! The content of files is not read here. Identification stops whenever it
//! needs a file, as a [`Pending`] value that names it, and goes on with
//! [`Pending::resume`] when it is handed the content.
use crate::plan;
use crate::plan::{ScanJob, ScanJobView};
use crate::profile::{EntryPoint, EntryPointView, ProjectProfile, ProjectProfileView};
use crate::project_file;
use crate::route;
use crate::scan;
use crate::scan::Scanner;
use vstd::prelude::*;

verus! {

/// What a stopped identification waits for, and what it knows by then.
#[verifier::ext_equal]
pub enum StageView {
    /// The content of the project file at this position.
    Project { index: int },
    /// The content of the source file of the job at position `next`.
    Sources {
        category: Seq<char>,
        tags: Seq<Seq<char>>,
        jobs: Seq<ScanJobView>,
        next: int,
        found: Seq<EntryPointView>,
    },
}

/// An identification that waits for a file.
#[verifier::ext_equal]
pub struct PendingView {
    pub root: Seq<char>,
    pub files: Seq<Seq<char>>,
    pub stage: StageView,
}

/// How far an identification has come.
#[verifier::ext_equal]
pub enum ProgressView {
    /// It waits for a file.
    Read(PendingView),
    /// It is done; `None` if there is no project to be identified.
    Done(Option<ProjectProfileView>),
}

impl PendingView {
    /// The file that is waited for, relative to the project's root.
    pub open spec fn wanted_file(self) -> Seq<char> {
        match self.stage {
            StageView::Project { index } => self.files[index],
            StageView::Sources { jobs, next, .. } => jobs[next].file,
        }
    }

    /// The path of the file that is waited for.
    pub open spec fn wanted(self) -> Seq<char> {
        route::joined(self.root, self.wanted_file())
    }

    /// The identification is at a point that it can come to.
    pub open spec fn valid(self) -> bool {
        match self.stage {
            StageView::Project { index } => {
                &&& 0 <= index < self.files.len()
                &&& project_file::first_project_file(self.files) == Some(index)
            },
            StageView::Sources { category, jobs, next, .. } => {
                &&& jobs == plan::plan_of(category, self.files)
                &&& 0 <= next < jobs.len()
            },
        }
    }
}

impl ProgressView {
    /// The identification is at a point that it can come to.
    pub open spec fn valid(self) -> bool {
        match self {
            ProgressView::Read(pending) => pending.valid(),
            ProgressView::Done(_) => true,
        }
    }
}

/// The beginning of an identification: it needs the first project file.
pub open spec fn start(root: Seq<char>, files: Seq<Seq<char>>) -> ProgressView {
    match project_file::first_project_file(files) {
        Some(index) => ProgressView::Read(
            PendingView { root, files, stage: StageView::Project { index } },
        ),
        None => ProgressView::Done(None),
    }
}

/// Identification goes on with the job at position `next`, or is done when
/// there is none left.
pub open spec fn proceed(
    root: Seq<char>,
    files: Seq<Seq<char>>,
    category: Seq<char>,
    tags: Seq<Seq<char>>,
    jobs: Seq<ScanJobView>,
    next: int,
    found: Seq<EntryPointView>,
) -> ProgressView {
    if next < jobs.len() {
        ProgressView::Read(
            PendingView {
                root,
                files,
                stage: StageView::Sources { category, tags, jobs, next, found },
            },
        )
    } else {
        ProgressView::Done(Some(ProjectProfileView { category, tags, entry_points: found }))
    }
}

/// The entry points that a job finds when the file has the given content, or
/// cannot be read.
pub open spec fn job_entries(job: ScanJobView, content: Option<Seq<char>>) -> Seq<EntryPointView> {
    match content {
        Some(src) => scan::scan_of(job.scanner, job.file, src),
        None => Seq::empty(),
    }
}

/// How an identification goes on when the file that it waits for has the
/// given content, or cannot be read.
pub open spec fn step(pending: PendingView, content: Option<Seq<char>>) -> ProgressView {
    match pending.stage {
        StageView::Project { index } => match content {
            Some(csproj) => {
                let category = project_file::category_of(csproj);
                let tags = project_file::tags_of(
                    pending.files[index],
                    project_file::target_framework_of(csproj),
                );
                let jobs = plan::plan_of(category, pending.files);
                proceed(pending.root, pending.files, category, tags, jobs, 0, Seq::empty())
            },
            None => ProgressView::Done(None),
        },
        StageView::Sources { category, tags, jobs, next, found } => {
            let new = job_entries(jobs[next], content);
            // A console program starts in one place only.
            let last = if jobs[next].scanner == Scanner::Console && new.len() > 0 {
                jobs.len() as int
            } else {
                next + 1
            };
            proceed(pending.root, pending.files, category, tags, jobs, last, found + new)
        },
    }
}

/// What is known after the project file was read.
struct Search {
    category: String,
    tags: Vec<String>,
    jobs: Vec<ScanJob>,
    next: usize,
    found: Vec<EntryPoint>,
}

/// What is waited for.
enum Stage {
    Project(usize),
    Sources(Search),
}

/// An identification that waits for the content of a file.
pub struct Pending {
    root: String,
    files: Vec<String>,
    stage: Stage,
}

impl View for Pending {
    type V = PendingView;

    closed spec fn view(&self) -> PendingView {
        PendingView {
            root: self.root@,
            files: self.files.deep_view(),
            stage: match self.stage {
                Stage::Project(index) => StageView::Project { index: index as int },
                Stage::Sources(search) => StageView::Sources {
                    category: search.category@,
                    tags: search.tags.deep_view(),
                    jobs: search.jobs.deep_view(),
                    next: search.next as int,
                    found: search.found.deep_view(),
                },
            },
        }
    }
}

/// How far an identification has come.
pub enum Progress {
    /// It waits for a file.
    Read(Pending),
    /// It is done; `None` if there is no project to be identified.
    Done(Option<ProjectProfile>),
}

impl View for Progress {
    type V = ProgressView;

    open spec fn view(&self) -> ProgressView {
        match self {
            Progress::Read(pending) => ProgressView::Read(pending@),
            Progress::Done(profile) => ProgressView::Done(profile.deep_view()),
        }
    }
}

/// Goes on with the next job, or ends when there is none left.
fn go_on(root: String, files: Vec<String>, search: Search) -> (progress: Progress)
    requires
        search.jobs.deep_view() == plan::plan_of(search.category@, files.deep_view()),
    ensures
        progress@ == proceed(
            root@,
            files.deep_view(),
            search.category@,
            search.tags.deep_view(),
            search.jobs.deep_view(),
            search.next as int,
            search.found.deep_view(),
        ),
        progress@.valid(),
{
    if search.next < search.jobs.len() {
        Progress::Read(Pending { root, files, stage: Stage::Sources(search) })
    } else {
        Progress::Done(
            Some(
                ProjectProfile {
                    category: search.category,
                    tags: search.tags,
                    entry_points: search.found,
                },
            ),
        )
    }
}

/// Begins to identify the project with the given root and files.
pub fn identify_project(root: String, files: Vec<String>) -> (progress: Progress)
    ensures
        progress@ == start(root@, files.deep_view()),
        progress@.valid(),
{
    match project_file::find_project_file(&files) {
        Some(index) => Progress::Read(Pending { root, files, stage: Stage::Project(index) }),
        None => Progress::Done(None),
    }
}

impl Pending {
    #[verifier::type_invariant]
    spec fn well_formed(self) -> bool {
        self@.valid()
    }

    /// The path of the file that is waited for.
    pub fn path(&self) -> (path: String)
        ensures
            path@ == self@.wanted(),
    {
        proof {
            use_type_invariant(self);
        }
        let file = match &self.stage {
            Stage::Project(index) => self.files[*index].as_str(),
            Stage::Sources(search) => search.jobs[search.next].file.as_str(),
        };
        route::join_path(self.root.as_str(), file)
    }

    /// Whether the project file is waited for.
    pub fn wants_project_file(&self) -> (yes: bool)
        ensures
            yes == (self@.stage is Project),
    {
        match &self.stage {
            Stage::Project(_) => true,
            Stage::Sources(_) => false,
        }
    }

    /// Goes on with the content of the file that was waited for, or with
    /// `None` if it cannot be read.
    pub fn resume(self, content: Option<String>) -> (progress: Progress)
        ensures
            progress@ == step(self@, content.deep_view()),
            progress@.valid(),
    {
        proof {
            use_type_invariant(&self);
        }
        let Pending { root, files, stage } = self;
        match stage {
            Stage::Project(index) => match content {
                Some(csproj) => {
                    let category = project_file::detect_category(csproj.as_str());
                    let framework = project_file::detect_target_framework(csproj.as_str());
                    let tags = project_file::project_tags(files[index].as_str(), framework);
                    let jobs = plan::entry_point_jobs(&files, category.as_str());
                    let found: Vec<EntryPoint> = Vec::new();
                    assert(found.deep_view() =~= Seq::empty());
                    go_on(root, files, Search { category, tags, jobs, next: 0, found })
                },
                None => Progress::Done(None),
            },
            Stage::Sources(search) => {
                let Search { category, tags, jobs, next, mut found } = search;
                let ghost before = found.deep_view();
                let scanner = jobs[next].scanner;
                let count: usize = jobs.len();
                let mut new: Vec<EntryPoint> = match content {
                    Some(src) => scan::scan_source(
                        scanner,
                        jobs[next].file.as_str(),
                        src.as_str(),
                    ),
                    None => Vec::new(),
                };
                let ghost added = new.deep_view();
                assert(added =~= job_entries(jobs.deep_view()[next as int], content.deep_view()));
                // A console program starts in one place only.
                let next: usize = if scanner == Scanner::Console && new.len() > 0 {
                    count
                } else {
                    next + 1
                };
                found.append(&mut new);
                assert(found.deep_view() =~= before + added);
                go_on(root, files, Search { category, tags, jobs, next, found })
            },
        }
    }
}

} // verus!
