//! What an identification ends with and reads, said of the listed files and
//! of what the host replies.
use crate::identify;
use crate::identify::{PendingView, ProgressView, StageView};
use crate::outcome;
use crate::plan;
use crate::plan::ScanJobView;
use crate::profile::EntryPointView;
use crate::project_file;
use crate::project_laws;
use crate::route;
use crate::scan;
use crate::scan::Scanner;
use vstd::prelude::*;

verus! {

/// What each job finds at the host; an unreadable file adds nothing.
pub open spec fn finds(
    root: Seq<char>,
    jobs: Seq<ScanJobView>,
    host: spec_fn(Seq<char>) -> Option<Seq<char>>,
) -> Seq<Seq<EntryPointView>> {
    jobs.map_values(
        |job: ScanJobView|
            match host(route::joined(root, job.file)) {
                Some(src) => scan::scan_of(job.scanner, job.file, src),
                None => Seq::empty(),
            },
    )
}

/// The paths of the files of the jobs.
pub open spec fn paths(root: Seq<char>, jobs: Seq<ScanJobView>) -> Seq<Seq<char>> {
    jobs.map_values(|job: ScanJobView| route::joined(root, job.file))
}

/// Without jobs of a console program, an identification reads the files of all
/// remaining jobs and adds all that they find.
proof fn lemma_all_jobs_run(
    root: Seq<char>,
    files: Seq<Seq<char>>,
    category: Seq<char>,
    tags: Seq<Seq<char>>,
    jobs: Seq<ScanJobView>,
    next: int,
    found: Seq<EntryPointView>,
    host: spec_fn(Seq<char>) -> Option<Seq<char>>,
)
    requires
        0 <= next <= jobs.len(),
        forall|k: int| 0 <= k < jobs.len() ==> (#[trigger] jobs[k]).scanner != Scanner::Console,
    ensures
        ({
            let progress = identify::proceed(root, files, category, tags, jobs, next, found);
            let rest = jobs.skip(next);
            &&& outcome::run(progress, host) matches Some(profile)
            &&& profile.category == category
            &&& profile.tags == tags
            &&& profile.entry_points == found + finds(root, rest, host).flatten()
            &&& outcome::reads(progress, host) == paths(root, rest)
        }),
    decreases jobs.len() - next,
{
    let progress = identify::proceed(root, files, category, tags, jobs, next, found);
    let rest = jobs.skip(next);
    if next < jobs.len() {
        let pending = progress->Read_0;
        let content = host(pending.wanted());
        let new = identify::job_entries(jobs[next], content);
        assert(rest[0] == jobs[next]);
        assert(rest.skip(1) =~= jobs.skip(next + 1));
        assert(finds(root, rest, host)[0] == new);
        assert(finds(root, rest, host).drop_first() =~= finds(root, jobs.skip(next + 1), host));
        lemma_all_jobs_run(root, files, category, tags, jobs, next + 1, found + new, host);
        assert(outcome::run(progress, host) == outcome::run(
            identify::step(pending, content),
            host,
        ));
        assert((found + new) + finds(root, jobs.skip(next + 1), host).flatten() =~= found + (new
            + finds(root, jobs.skip(next + 1), host).flatten()));
        assert(outcome::reads(progress, host) =~= paths(root, rest));
    } else {
        assert(rest =~= Seq::empty());
        assert(finds(root, rest, host) =~= Seq::empty());
        assert(found + Seq::<EntryPointView>::empty() =~= found);
        assert(outcome::reads(progress, host) =~= paths(root, rest));
    }
}

/// An identification of a console program reads up to the first file with an
/// entry point.
proof fn lemma_console_jobs_run(
    root: Seq<char>,
    files: Seq<Seq<char>>,
    category: Seq<char>,
    tags: Seq<Seq<char>>,
    jobs: Seq<ScanJobView>,
    next: int,
    last: int,
    host: spec_fn(Seq<char>) -> Option<Seq<char>>,
)
    requires
        0 <= next <= last <= jobs.len(),
        forall|k: int| 0 <= k < jobs.len() ==> (#[trigger] jobs[k]).scanner == Scanner::Console,
        forall|k: int| next <= k < last ==> (#[trigger] finds(root, jobs, host)[k]).len() == 0,
        last < jobs.len() ==> finds(root, jobs, host)[last].len() > 0,
    ensures
        ({
            let progress = identify::proceed(
                root,
                files,
                category,
                tags,
                jobs,
                next,
                Seq::empty(),
            );
            &&& outcome::run(progress, host) matches Some(profile)
            &&& profile.category == category
            &&& profile.tags == tags
            &&& last < jobs.len() ==> profile.entry_points == finds(root, jobs, host)[last]
                && outcome::reads(progress, host) == paths(root, jobs.subrange(next, last + 1))
            &&& last == jobs.len() ==> profile.entry_points.len() == 0 && outcome::reads(
                progress,
                host,
            ) == paths(root, jobs.skip(next))
        }),
    decreases last - next,
{
    let progress = identify::proceed(root, files, category, tags, jobs, next, Seq::empty());
    if next < jobs.len() {
        let pending = progress->Read_0;
        let content = host(pending.wanted());
        let new = identify::job_entries(jobs[next], content);
        assert(finds(root, jobs, host)[next] == new);
        assert(Seq::<EntryPointView>::empty() + new =~= new);
        assert(outcome::run(progress, host) == outcome::run(
            identify::step(pending, content),
            host,
        ));
        let later = outcome::reads(identify::step(pending, content), host);
        assert(outcome::reads(progress, host) == seq![pending.wanted()] + later);
        if next < last {
            assert(new =~= Seq::empty());
            lemma_console_jobs_run(root, files, category, tags, jobs, next + 1, last, host);
            if last < jobs.len() {
                assert(seq![pending.wanted()] + later =~= paths(
                    root,
                    jobs.subrange(next, last + 1),
                ));
            } else {
                assert(seq![pending.wanted()] + later =~= paths(root, jobs.skip(next)));
            }
        } else {
            assert(later =~= Seq::empty());
            assert(seq![pending.wanted()] + later =~= paths(root, jobs.subrange(next, last + 1)));
        }
    } else {
        assert(outcome::reads(progress, host) =~= paths(root, jobs.skip(next)));
    }
}

/// Without a listed project file, or where the first cannot be read, there is
/// no profile; nothing or nothing else is read.
pub proof fn law_no_profile_without_project_file(
    root: Seq<char>,
    files: Seq<Seq<char>>,
    host: spec_fn(Seq<char>) -> Option<Seq<char>>,
    k: int,
)
    ensures
        (forall|j: int|
            0 <= j < files.len() ==> !".csproj"@.is_suffix_of(#[trigger] files[j])
                && !".fsproj"@.is_suffix_of(files[j])) ==> outcome::run(
            identify::start(root, files),
            host,
        ) is None && outcome::reads(identify::start(root, files), host).len() == 0,
        0 <= k < files.len() && (".csproj"@.is_suffix_of(files[k]) || ".fsproj"@.is_suffix_of(
            files[k],
        )) && (forall|j: int|
            0 <= j < k ==> !".csproj"@.is_suffix_of(#[trigger] files[j]) && !".fsproj"@.is_suffix_of(
                files[j],
            )) && host(route::joined(root, files[k])) is None ==> outcome::run(
            identify::start(root, files),
            host,
        ) is None && outcome::reads(identify::start(root, files), host) == seq![
            route::joined(root, files[k]),
        ],
{
    if forall|j: int|
        0 <= j < files.len() ==> !".csproj"@.is_suffix_of(#[trigger] files[j])
            && !".fsproj"@.is_suffix_of(files[j]) {
        project_laws::law_no_project_file_without_suffix(files);
    }
    if 0 <= k < files.len() {
        project_laws::law_project_file_is_first_with_suffix(files, k);
        let pending = PendingView { root, files, stage: StageView::Project { index: k } };
        if identify::start(root, files) == ProgressView::Read(pending) && host(
            route::joined(root, files[k]),
        ) is None {
            let next = identify::step(pending, None);
            assert(outcome::run(identify::start(root, files), host) == outcome::run(next, host));
            let later = outcome::reads(next, host);
            assert(later =~= Seq::empty());
            assert(outcome::reads(identify::start(root, files), host) == seq![pending.wanted()]
                + later);
            assert(seq![pending.wanted()] + later =~= seq![route::joined(root, files[k])]);
        }
    }
}

/// The content of a project file settles category and tags; what is read next
/// is the first planned file, and without one the profile is complete.
pub proof fn law_project_file_settles_the_plan(pending: PendingView, csproj: Seq<char>, index: int)
    requires
        pending.stage == (StageView::Project { index }),
    ensures
        identify::step(pending, None) == ProgressView::Done(None),
        ({
            let category = project_file::category_of(csproj);
            let tags = project_file::tags_of(
                pending.files[index],
                project_file::target_framework_of(csproj),
            );
            let jobs = plan::plan_of(category, pending.files);
            let next = identify::step(pending, Some(csproj));
            &&& jobs.len() == 0 ==> {
                &&& next matches ProgressView::Done(Some(profile))
                &&& profile.category == category
                &&& profile.tags == tags
                &&& profile.entry_points.len() == 0
            }
            &&& jobs.len() > 0 ==> {
                &&& next matches ProgressView::Read(waiting)
                &&& waiting.root == pending.root
                &&& waiting.files == pending.files
                &&& waiting.wanted() == route::joined(pending.root, jobs[0].file)
                &&& waiting.stage matches StageView::Sources {
                    category: c,
                    tags: t,
                    jobs: j,
                    next: n,
                    found: f,
                }
                &&& c == category && t == tags && j == jobs && n == 0 && f.len() == 0
            }
        }),
{
}

/// Each reply adds what its file holds behind what was found before, and
/// touches nothing else; an unreadable file adds nothing. The next planned file
/// is read then, unless this was the last or a console program was found to
/// start: then the profile is complete.
pub proof fn law_each_reply_adds_its_file(
    pending: PendingView,
    content: Option<Seq<char>>,
    category: Seq<char>,
    tags: Seq<Seq<char>>,
    jobs: Seq<ScanJobView>,
    next: int,
    found: Seq<EntryPointView>,
)
    requires
        pending.stage == (StageView::Sources { category, tags, jobs, next, found }),
        0 <= next < jobs.len(),
    ensures
        ({
            let job = jobs[next];
            let new = match content {
                Some(src) => scan::scan_of(job.scanner, job.file, src),
                None => Seq::empty(),
            };
            let complete = next + 1 == jobs.len() || (job.scanner == Scanner::Console && new.len()
                > 0);
            let progress = identify::step(pending, content);
            &&& complete ==> {
                &&& progress matches ProgressView::Done(Some(profile))
                &&& profile.category == category
                &&& profile.tags == tags
                &&& profile.entry_points == found + new
            }
            &&& !complete ==> {
                &&& progress matches ProgressView::Read(waiting)
                &&& waiting.root == pending.root
                &&& waiting.files == pending.files
                &&& waiting.wanted() == route::joined(pending.root, jobs[next + 1].file)
                &&& waiting.stage matches StageView::Sources {
                    category: c,
                    tags: t,
                    jobs: j,
                    next: n,
                    found: f,
                }
                &&& c == category && t == tags && j == jobs && n == next + 1 && f == found + new
            }
        }),
{
}

/// The profile tells category and tags of the first project file. Its entry
/// points are what all planned files hold, one file after the other; all of
/// them are read, once for each job. Of a console program only the first file
/// with an entry point counts, and no file behind it is read.
pub proof fn law_profile_tells_the_project(
    root: Seq<char>,
    files: Seq<Seq<char>>,
    host: spec_fn(Seq<char>) -> Option<Seq<char>>,
    k: int,
)
    requires
        0 <= k < files.len(),
        ".csproj"@.is_suffix_of(files[k]) || ".fsproj"@.is_suffix_of(files[k]),
        forall|j: int|
            0 <= j < k ==> !".csproj"@.is_suffix_of(#[trigger] files[j]) && !".fsproj"@.is_suffix_of(
                files[j],
            ),
        host(route::joined(root, files[k])) is Some,
    ensures
        ({
            let csproj = host(route::joined(root, files[k]))->0;
            let category = project_file::category_of(csproj);
            let jobs = plan::plan_of(category, files);
            let here = seq![route::joined(root, files[k])];
            let read = outcome::reads(identify::start(root, files), host);
            &&& outcome::run(identify::start(root, files), host) matches Some(profile)
            &&& profile.category == category
            &&& profile.tags == project_file::tags_of(
                files[k],
                project_file::target_framework_of(csproj),
            )
            &&& category != "ConsoleApp"@ ==> profile.entry_points == finds(
                root,
                jobs,
                host,
            ).flatten() && read == here + paths(root, jobs)
            &&& category == "ConsoleApp"@ ==> {
                &&& (forall|j: int|
                    0 <= j < jobs.len() ==> (#[trigger] finds(root, jobs, host)[j]).len() == 0)
                    ==> profile.entry_points.len() == 0 && read == here + paths(root, jobs)
                &&& forall|last: int|
                    0 <= last < jobs.len() && (#[trigger] finds(root, jobs, host)[last]).len() > 0
                        && (forall|j: int|
                        0 <= j < last ==> (#[trigger] finds(root, jobs, host)[j]).len() == 0)
                        ==> profile.entry_points == finds(root, jobs, host)[last] && read == here
                        + paths(root, jobs.take(last + 1))
            }
        }),
{
    let csproj = host(route::joined(root, files[k]))->0;
    let category = project_file::category_of(csproj);
    let tags = project_file::tags_of(files[k], project_file::target_framework_of(csproj));
    let jobs = plan::plan_of(category, files);
    project_laws::law_project_file_is_first_with_suffix(files, k);
    project_laws::law_plan_by_category(category, files);
    crate::laws::lemma_categories_differ();
    let pending = PendingView { root, files, stage: StageView::Project { index: k } };
    assert(identify::start(root, files) == ProgressView::Read(pending));
    let next = identify::step(pending, Some(csproj));
    assert(outcome::run(identify::start(root, files), host) == outcome::run(next, host));
    assert(outcome::reads(identify::start(root, files), host) == seq![pending.wanted()]
        + outcome::reads(next, host));
    assert(jobs.skip(0) =~= jobs);
    if category != "ConsoleApp"@ {
        lemma_all_jobs_run(root, files, category, tags, jobs, 0, Seq::empty(), host);
        assert(Seq::empty() + finds(root, jobs, host).flatten() =~= finds(
            root,
            jobs,
            host,
        ).flatten());
    } else {
        if forall|j: int|
            0 <= j < jobs.len() ==> (#[trigger] finds(root, jobs, host)[j]).len() == 0 {
            lemma_console_jobs_run(
                root,
                files,
                category,
                tags,
                jobs,
                0,
                jobs.len() as int,
                host,
            );
        } else {
            let some = choose|j: int|
                0 <= j < jobs.len() && (#[trigger] finds(root, jobs, host)[j]).len() > 0;
            let first = lemma_first_nonempty(finds(root, jobs, host), some);
            lemma_console_jobs_run(root, files, category, tags, jobs, 0, first, host);
        }
        assert forall|last: int|
            0 <= last < jobs.len() && (#[trigger] finds(root, jobs, host)[last]).len() > 0 && (
            forall|j: int| 0 <= j < last ==> (#[trigger] finds(root, jobs, host)[j]).len() == 0)
            implies outcome::run(next, host)->0.entry_points == finds(root, jobs, host)[last]
            && outcome::reads(next, host) == paths(root, jobs.take(last + 1)) by {
            lemma_console_jobs_run(root, files, category, tags, jobs, 0, last, host);
            assert(jobs.subrange(0, last + 1) =~= jobs.take(last + 1));
        }
    }
}

/// Among sequences of which one is not empty there is a first such one.
proof fn lemma_first_nonempty(all: Seq<Seq<EntryPointView>>, some: int) -> (first: int)
    requires
        0 <= some < all.len(),
        all[some].len() > 0,
    ensures
        0 <= first <= some,
        all[first].len() > 0,
        forall|j: int| 0 <= j < first ==> (#[trigger] all[j]).len() == 0,
    decreases some,
{
    if exists|j: int| 0 <= j < some && (#[trigger] all[j]).len() > 0 {
        let earlier = choose|j: int| 0 <= j < some && (#[trigger] all[j]).len() > 0;
        lemma_first_nonempty(all, earlier)
    } else {
        some
    }
}

} // verus!
