//! What an identification comes to when all the files that it asks for are
//! handed to it.
//!
//! A host is modelled by the function from the path of a file to its content,
//! `None` for a file that cannot be read.
use crate::identify;
use crate::identify::{PendingView, ProgressView, StageView};
use crate::plan;
use crate::plan::{FileKind, ScanJobView};
use crate::profile::{EntryPointView, ProjectProfileView};
use crate::project_file;
use crate::route;
use crate::scan;
use crate::scan::Scanner;
use vstd::prelude::*;

verus! {

/// The entry points of one file, as the host has it.
pub open spec fn file_entries(
    scanner: Scanner,
    root: Seq<char>,
    file: Seq<char>,
    host: spec_fn(Seq<char>) -> Option<Seq<char>>,
) -> Seq<EntryPointView> {
    match host(route::joined(root, file)) {
        Some(src) => scan::scan_of(scanner, file, src),
        None => Seq::empty(),
    }
}

/// The entry points of the files, one file after the other.
pub open spec fn gathered(
    scanner: Scanner,
    root: Seq<char>,
    files: Seq<Seq<char>>,
    host: spec_fn(Seq<char>) -> Option<Seq<char>>,
) -> Seq<EntryPointView>
    decreases files.len(),
{
    if files.len() == 0 {
        Seq::empty()
    } else {
        file_entries(scanner, root, files[0], host) + gathered(scanner, root, files.skip(1), host)
    }
}

/// The entry points of the first file that has any.
pub open spec fn first_found(
    scanner: Scanner,
    root: Seq<char>,
    files: Seq<Seq<char>>,
    host: spec_fn(Seq<char>) -> Option<Seq<char>>,
) -> Seq<EntryPointView>
    decreases files.len(),
{
    if files.len() == 0 {
        Seq::empty()
    } else if file_entries(scanner, root, files[0], host).len() > 0 {
        file_entries(scanner, root, files[0], host)
    } else {
        first_found(scanner, root, files.skip(1), host)
    }
}

/// The entry points of a project of the given category.
pub open spec fn entry_points_of(
    root: Seq<char>,
    files: Seq<Seq<char>>,
    category: Seq<char>,
    host: spec_fn(Seq<char>) -> Option<Seq<char>>,
) -> Seq<EntryPointView> {
    let controllers = plan::of_kind(FileKind::Controller, files);
    let programs = plan::of_kind(FileKind::Program, files);
    let pages = plan::of_kind(FileKind::RazorPage, files);
    let sources = plan::of_kind(FileKind::CSharp, files);
    if category == "WebAPI"@ {
        gathered(Scanner::Controller, root, controllers, host) + gathered(
            Scanner::MinimalApi,
            root,
            programs,
            host,
        )
    } else if category == "WebApp (MVC/Pages)"@ || category == "WebApp"@ {
        gathered(Scanner::Controller, root, controllers, host) + gathered(
            Scanner::RazorPage,
            root,
            pages,
            host,
        )
    } else if category == "ConsoleApp"@ {
        first_found(Scanner::Console, root, plan::console_candidates(files), host)
    } else if category == "Worker"@ {
        gathered(Scanner::Worker, root, sources, host)
    } else if category == "NativeApp"@ {
        gathered(Scanner::Native, root, sources, host)
    } else {
        Seq::empty()
    }
}

/// The profile of a project, or `None` if no project file is listed or the
/// first one cannot be read.
pub open spec fn profile_of(
    root: Seq<char>,
    files: Seq<Seq<char>>,
    host: spec_fn(Seq<char>) -> Option<Seq<char>>,
) -> Option<ProjectProfileView> {
    match project_file::first_project_file(files) {
        Some(index) => match host(route::joined(root, files[index])) {
            Some(csproj) => {
                let category = project_file::category_of(csproj);
                Some(
                    ProjectProfileView {
                        category,
                        tags: project_file::tags_of(
                            files[index],
                            project_file::target_framework_of(csproj),
                        ),
                        entry_points: entry_points_of(root, files, category, host),
                    },
                )
            },
            None => None,
        },
        None => None,
    }
}

/// How many stages an identification still has to go through.
pub open spec fn stages_left(progress: ProgressView) -> nat {
    match progress {
        ProgressView::Read(pending) => match pending.stage {
            StageView::Project { .. } => 2,
            StageView::Sources { .. } => 1,
        },
        ProgressView::Done(_) => 0,
    }
}

/// How many jobs an identification still has to do in its stage.
pub open spec fn jobs_left(progress: ProgressView) -> int {
    match progress {
        ProgressView::Read(pending) => match pending.stage {
            StageView::Project { .. } => 0,
            StageView::Sources { jobs, next, .. } => jobs.len() - next,
        },
        ProgressView::Done(_) => 0,
    }
}

/// What an identification ends with when the host answers every request.
pub open spec fn run(
    progress: ProgressView,
    host: spec_fn(Seq<char>) -> Option<Seq<char>>,
) -> Option<ProjectProfileView>
    decreases stages_left(progress), jobs_left(progress),
{
    match progress {
        ProgressView::Read(pending) => run(identify::step(pending, host(pending.wanted())), host),
        ProgressView::Done(profile) => profile,
    }
}

/// The paths of the files that an identification asks for when the host
/// answers every request, in their order.
pub open spec fn reads(
    progress: ProgressView,
    host: spec_fn(Seq<char>) -> Option<Seq<char>>,
) -> Seq<Seq<char>>
    decreases stages_left(progress), jobs_left(progress),
{
    match progress {
        ProgressView::Read(pending) => seq![pending.wanted()] + reads(
            identify::step(pending, host(pending.wanted())),
            host,
        ),
        ProgressView::Done(_) => Seq::empty(),
    }
}

/// What the jobs find, one after the other; a console program ends the row.
spec fn found_by(
    root: Seq<char>,
    jobs: Seq<ScanJobView>,
    host: spec_fn(Seq<char>) -> Option<Seq<char>>,
) -> Seq<EntryPointView>
    decreases jobs.len(),
{
    if jobs.len() == 0 {
        Seq::empty()
    } else {
        let new = file_entries(jobs[0].scanner, root, jobs[0].file, host);
        if jobs[0].scanner == Scanner::Console && new.len() > 0 {
            new
        } else {
            new + found_by(root, jobs.skip(1), host)
        }
    }
}

/// From the job at position `next` on, an identification adds what the
/// remaining jobs find.
proof fn lemma_run_jobs(
    root: Seq<char>,
    files: Seq<Seq<char>>,
    category: Seq<char>,
    tags: Seq<Seq<char>>,
    jobs: Seq<ScanJobView>,
    next: int,
    found: Seq<EntryPointView>,
    host: spec_fn(Seq<char>) -> Option<Seq<char>>,
)
    requires
        0 <= next <= jobs.len(),
    ensures
        run(identify::proceed(root, files, category, tags, jobs, next, found), host) == Some(
            ProjectProfileView {
                category,
                tags,
                entry_points: found + found_by(root, jobs.skip(next), host),
            },
        ),
    decreases jobs.len() - next,
{
    let progress = identify::proceed(root, files, category, tags, jobs, next, found);
    let rest = jobs.skip(next);
    if next < jobs.len() {
        let pending = progress->Read_0;
        let content = host(pending.wanted());
        let new = identify::job_entries(jobs[next], content);
        assert(rest[0] == jobs[next]);
        assert(new == file_entries(rest[0].scanner, root, rest[0].file, host));
        assert(run(progress, host) == run(identify::step(pending, content), host));
        if jobs[next].scanner == Scanner::Console && new.len() > 0 {
            assert(identify::step(pending, content) == ProgressView::Done(
                Some(ProjectProfileView { category, tags, entry_points: found + new }),
            ));
        } else {
            lemma_run_jobs(root, files, category, tags, jobs, next + 1, found + new, host);
            assert(rest.skip(1) =~= jobs.skip(next + 1));
            assert((found + new) + found_by(root, jobs.skip(next + 1), host) =~= found + (new
                + found_by(root, jobs.skip(next + 1), host)));
        }
    } else {
        assert(rest =~= Seq::empty());
        assert(found + Seq::<EntryPointView>::empty() =~= found);
    }
}

/// Jobs of one kind other than a console program find what their files hold.
proof fn lemma_gathered(
    scanner: Scanner,
    root: Seq<char>,
    files: Seq<Seq<char>>,
    host: spec_fn(Seq<char>) -> Option<Seq<char>>,
)
    requires
        scanner != Scanner::Console,
    ensures
        found_by(root, plan::jobs_of(scanner, files), host) == gathered(scanner, root, files, host),
    decreases files.len(),
{
    let jobs = plan::jobs_of(scanner, files);
    if files.len() > 0 {
        assert(jobs.skip(1) =~= plan::jobs_of(scanner, files.skip(1)));
        lemma_gathered(scanner, root, files.skip(1), host);
    }
}

/// The jobs of a console program find what the first file with a `Main`
/// method holds.
proof fn lemma_first_found(
    root: Seq<char>,
    files: Seq<Seq<char>>,
    host: spec_fn(Seq<char>) -> Option<Seq<char>>,
)
    ensures
        found_by(root, plan::jobs_of(Scanner::Console, files), host) == first_found(
            Scanner::Console,
            root,
            files,
            host,
        ),
    decreases files.len(),
{
    let jobs = plan::jobs_of(Scanner::Console, files);
    if files.len() > 0 {
        assert(jobs.skip(1) =~= plan::jobs_of(Scanner::Console, files.skip(1)));
        lemma_first_found(root, files.skip(1), host);
        let new = file_entries(Scanner::Console, root, files[0], host);
        if new.len() == 0 {
            assert(new + found_by(root, jobs.skip(1), host) =~= found_by(
                root,
                jobs.skip(1),
                host,
            ));
        }
    }
}

/// Two rows of jobs, the first without a console program, find what each
/// finds.
proof fn lemma_found_by_both(
    root: Seq<char>,
    first: Seq<ScanJobView>,
    second: Seq<ScanJobView>,
    host: spec_fn(Seq<char>) -> Option<Seq<char>>,
)
    requires
        forall|i: int| 0 <= i < first.len() ==> (#[trigger] first[i]).scanner != Scanner::Console,
    ensures
        found_by(root, first + second, host) == found_by(root, first, host) + found_by(
            root,
            second,
            host,
        ),
    decreases first.len(),
{
    let both = first + second;
    if first.len() == 0 {
        assert(both =~= second);
        assert(Seq::<EntryPointView>::empty() + found_by(root, second, host) =~= found_by(
            root,
            second,
            host,
        ));
    } else {
        assert(both[0] == first[0]);
        assert(both.skip(1) =~= first.skip(1) + second);
        lemma_found_by_both(root, first.skip(1), second, host);
        let new = file_entries(first[0].scanner, root, first[0].file, host);
        assert(new + (found_by(root, first.skip(1), host) + found_by(root, second, host)) =~= (new
            + found_by(root, first.skip(1), host)) + found_by(root, second, host));
    }
}

/// An identification ends with the profile of the project: asking for one
/// file after the other comes to the same as looking at all of them.
pub proof fn law_run_gives_profile(
    root: Seq<char>,
    files: Seq<Seq<char>>,
    host: spec_fn(Seq<char>) -> Option<Seq<char>>,
)
    ensures
        run(identify::start(root, files), host) == profile_of(root, files, host),
{
    if let Some(index) = project_file::first_project_file(files) {
        let pending = PendingView { root, files, stage: StageView::Project { index } };
        assert(identify::start(root, files) == ProgressView::Read(pending));
        let content = host(pending.wanted());
        assert(run(identify::start(root, files), host) == run(identify::step(pending, content), host));
        if let Some(csproj) = content {
            let category = project_file::category_of(csproj);
            let tags = project_file::tags_of(
                files[index],
                project_file::target_framework_of(csproj),
            );
            let jobs = plan::plan_of(category, files);
            lemma_run_jobs(root, files, category, tags, jobs, 0, Seq::empty(), host);
            assert(jobs.skip(0) =~= jobs);
            let controllers = plan::of_kind(FileKind::Controller, files);
            let programs = plan::of_kind(FileKind::Program, files);
            let pages = plan::of_kind(FileKind::RazorPage, files);
            let sources = plan::of_kind(FileKind::CSharp, files);
            lemma_gathered(Scanner::Controller, root, controllers, host);
            lemma_gathered(Scanner::MinimalApi, root, programs, host);
            lemma_gathered(Scanner::RazorPage, root, pages, host);
            lemma_gathered(Scanner::Worker, root, sources, host);
            lemma_gathered(Scanner::Native, root, sources, host);
            lemma_first_found(root, plan::console_candidates(files), host);
            lemma_found_by_both(
                root,
                plan::jobs_of(Scanner::Controller, controllers),
                plan::jobs_of(Scanner::MinimalApi, programs),
                host,
            );
            lemma_found_by_both(
                root,
                plan::jobs_of(Scanner::Controller, controllers),
                plan::jobs_of(Scanner::RazorPage, pages),
                host,
            );
            assert(found_by(root, jobs, host) == entry_points_of(root, files, category, host));
            assert(Seq::empty() + found_by(root, jobs, host) =~= found_by(root, jobs, host));
        }
    }
}

/// A project is identified if and only if a project file is listed and the
/// first one can be read.
pub proof fn law_identified_iff_project_file_readable(
    root: Seq<char>,
    files: Seq<Seq<char>>,
    host: spec_fn(Seq<char>) -> Option<Seq<char>>,
)
    ensures
        run(identify::start(root, files), host) is Some <==> {
            &&& project_file::first_project_file(files) matches Some(index)
            &&& host(route::joined(root, files[index])) is Some
        },
{
    law_run_gives_profile(root, files, host);
}

/// From the job at position `next` on, an identification asks for files of
/// the remaining jobs, each at most once.
proof fn lemma_reads_jobs(
    root: Seq<char>,
    files: Seq<Seq<char>>,
    category: Seq<char>,
    tags: Seq<Seq<char>>,
    jobs: Seq<ScanJobView>,
    next: int,
    found: Seq<EntryPointView>,
    host: spec_fn(Seq<char>) -> Option<Seq<char>>,
)
    requires
        0 <= next <= jobs.len(),
    ensures
        ({
            let paths = reads(
                identify::proceed(root, files, category, tags, jobs, next, found),
                host,
            );
            &&& paths.len() <= jobs.len() - next
            &&& forall|k: int|
                0 <= k < paths.len() ==> #[trigger] paths[k] == route::joined(
                    root,
                    jobs[next + k].file,
                )
        }),
    decreases jobs.len() - next,
{
    let progress = identify::proceed(root, files, category, tags, jobs, next, found);
    if next < jobs.len() {
        let pending = progress->Read_0;
        let content = host(pending.wanted());
        let new = identify::job_entries(jobs[next], content);
        let later = reads(identify::step(pending, content), host);
        let paths = reads(progress, host);
        assert(paths == seq![pending.wanted()] + later);
        if !(jobs[next].scanner == Scanner::Console && new.len() > 0) {
            lemma_reads_jobs(root, files, category, tags, jobs, next + 1, found + new, host);
        }
        assert forall|k: int| 0 <= k < paths.len() implies #[trigger] paths[k] == route::joined(
            root,
            jobs[next + k].file,
        ) by {
            if k > 0 {
                assert(paths[k] == later[k - 1]);
            }
        }
    }
}

/// The files of a kind are among the files.
proof fn lemma_of_kind(kind: FileKind, files: Seq<Seq<char>>)
    ensures
        plan::of_kind(kind, files).len() <= files.len(),
        forall|k: int|
            0 <= k < plan::of_kind(kind, files).len() ==> files.contains(
                #[trigger] plan::of_kind(kind, files)[k],
            ),
    decreases files.len(),
{
    if files.len() > 0 {
        lemma_of_kind(kind, files.drop_last());
        let fewer = plan::of_kind(kind, files.drop_last());
        assert forall|k: int| 0 <= k < plan::of_kind(kind, files).len() implies files.contains(
            #[trigger] plan::of_kind(kind, files)[k],
        ) by {
            if k < fewer.len() {
                let at = choose|j: int|
                    0 <= j < files.drop_last().len() && files.drop_last()[j] == fewer[k];
                assert(files.drop_last().contains(fewer[k]));
                assert(files[at] == fewer[k]);
            } else {
                assert(files[files.len() - 1] == files.last());
            }
        }
    }
}

/// Only listed files are scanned, and there are at most twice as many scans as
/// files.
pub proof fn law_plan_within_files(category: Seq<char>, files: Seq<Seq<char>>)
    ensures
        plan::plan_of(category, files).len() <= 2 * files.len(),
        forall|k: int|
            0 <= k < plan::plan_of(category, files).len() ==> files.contains(
                (#[trigger] plan::plan_of(category, files)[k]).file,
            ),
{
    lemma_of_kind(FileKind::Controller, files);
    lemma_of_kind(FileKind::Program, files);
    lemma_of_kind(FileKind::RazorPage, files);
    lemma_of_kind(FileKind::CSharp, files);
}

/// An identification reads the first project file, if there is one, and then
/// nothing but listed files: at most one more than twice their number.
pub proof fn law_reads_within_files(
    root: Seq<char>,
    files: Seq<Seq<char>>,
    host: spec_fn(Seq<char>) -> Option<Seq<char>>,
)
    ensures
        ({
            let paths = reads(identify::start(root, files), host);
            &&& paths.len() <= 2 * files.len() + 1
            &&& match project_file::first_project_file(files) {
                Some(index) => paths.len() > 0 && paths[0] == route::joined(root, files[index]),
                None => paths.len() == 0,
            }
            &&& forall|k: int|
                0 <= k < paths.len() ==> exists|f: int|
                    0 <= f < files.len() && #[trigger] paths[k] == route::joined(
                        root,
                        #[trigger] files[f],
                    )
        }),
{
    law_first_project_file_is_first(files);
    if let Some(index) = project_file::first_project_file(files) {
        let pending = PendingView { root, files, stage: StageView::Project { index } };
        assert(identify::start(root, files) == ProgressView::Read(pending));
        let content = host(pending.wanted());
        let later = reads(identify::step(pending, content), host);
        let paths = reads(identify::start(root, files), host);
        assert(paths == seq![pending.wanted()] + later);
        if let Some(csproj) = content {
            let category = project_file::category_of(csproj);
            let tags = project_file::tags_of(
                files[index],
                project_file::target_framework_of(csproj),
            );
            let jobs = plan::plan_of(category, files);
            lemma_reads_jobs(root, files, category, tags, jobs, 0, Seq::empty(), host);
            law_plan_within_files(category, files);
            assert forall|k: int| 0 <= k < paths.len() implies exists|f: int|
                0 <= f < files.len() && #[trigger] paths[k] == route::joined(
                    root,
                    #[trigger] files[f],
                ) by {
                if k > 0 {
                    assert(paths[k] == later[k - 1]);
                    assert(later[k - 1] == route::joined(root, jobs[0 + (k - 1)].file));
                    assert(files.contains(jobs[k - 1].file));
                    let f = choose|f: int| 0 <= f < files.len() && files[f] == jobs[k - 1].file;
                    assert(paths[k] == route::joined(root, files[f]));
                } else {
                    assert(paths[0] == route::joined(root, files[index]));
                }
            }
        }
    }
}

/// The first project file is a project file, and none comes before it.
pub proof fn law_first_project_file_is_first(files: Seq<Seq<char>>)
    ensures
        match project_file::first_project_file(files) {
            Some(index) => {
                &&& 0 <= index < files.len()
                &&& project_file::is_project_file(files[index])
                &&& forall|k: int|
                    0 <= k < index ==> !project_file::is_project_file(#[trigger] files[k])
            },
            None => forall|k: int|
                0 <= k < files.len() ==> !project_file::is_project_file(#[trigger] files[k]),
        },
    decreases files.len(),
{
    if files.len() > 0 {
        law_first_project_file_is_first(files.drop_last());
        assert forall|k: int| 0 <= k < files.len() - 1 implies #[trigger] files[k]
            == files.drop_last()[k] by {}
        match project_file::first_project_file(files.drop_last()) {
            Some(index) => {
                assert(files[index] == files.drop_last()[index]);
            },
            None => {
                assert forall|k: int| 0 <= k < files.len() - 1 implies
                    !project_file::is_project_file(#[trigger] files[k]) by {
                    assert(!project_file::is_project_file(files.drop_last()[k]));
                }
            },
        }
    }
}

} // verus!
