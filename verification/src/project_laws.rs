//! What a project file shows and which files are scanned, said of the texts
//! and names themselves.
use crate::pattern;
use crate::plan;
use crate::plan::{FileKind, ScanJobView};
use crate::project_file;
use crate::scan::Scanner;
use crate::text;
use vstd::prelude::*;

verus! {

/// If a listed name ends in `.csproj` or `.fsproj`, whatever directories it
/// holds, the first such name is the project file; else there is none.
pub proof fn law_project_file_is_first_with_suffix(files: Seq<Seq<char>>, k: int)
    requires
        0 <= k < files.len(),
    ensures
        (".csproj"@.is_suffix_of(files[k]) || ".fsproj"@.is_suffix_of(files[k])) && (forall|j: int|
            0 <= j < k ==> !".csproj"@.is_suffix_of(#[trigger] files[j]) && !".fsproj"@.is_suffix_of(
                files[j],
            )) ==> project_file::first_project_file(files) == Some(k),
        ".csproj"@.is_suffix_of(files[k]) || ".fsproj"@.is_suffix_of(files[k]) ==> {
            &&& project_file::first_project_file(files) matches Some(first)
            &&& 0 <= first <= k
        },
        project_file::first_project_file(files) == Some(k) ==> ".csproj"@.is_suffix_of(files[k])
            || ".fsproj"@.is_suffix_of(files[k]),
{
    crate::outcome::law_first_project_file_is_first(files);
    assert(project_file::is_project_file(files[k]) <==> ".csproj"@.is_suffix_of(files[k])
        || ".fsproj"@.is_suffix_of(files[k]));
    if let Some(first) = project_file::first_project_file(files) {
        assert(project_file::is_project_file(files[first]));
        assert(".csproj"@.is_suffix_of(files[first]) || ".fsproj"@.is_suffix_of(files[first]));
    }
}

/// Where no listed name ends in `.csproj` or `.fsproj`, there is no project
/// file.
pub proof fn law_no_project_file_without_suffix(files: Seq<Seq<char>>)
    requires
        forall|j: int|
            0 <= j < files.len() ==> !".csproj"@.is_suffix_of(#[trigger] files[j])
                && !".fsproj"@.is_suffix_of(files[j]),
    ensures
        project_file::first_project_file(files) is None,
{
    crate::outcome::law_first_project_file_is_first(files);
}

/// The category follows from the marks that the project file holds: the web
/// SDK goes before the worker SDK, and that before an executable output.
pub proof fn law_category_follows_marks(csproj: Seq<char>)
    ensures
        ({
            let category = project_file::category_of(csproj);
            let web = text::occurs(csproj, "Sdk=\"Microsoft.NET.Sdk.Web\""@);
            let views = text::occurs(csproj, "AddControllersWithViews"@) || text::occurs(
                csproj,
                "AddMvc"@,
            );
            let controllers = text::occurs(csproj, "AddControllers"@) || text::occurs(
                csproj,
                "MapControllers"@,
            );
            let worker = text::occurs(csproj, "Sdk=\"Microsoft.NET.Sdk.Worker\""@);
            let exe = text::occurs(csproj, "<OutputType>Exe</OutputType>"@);
            let native = text::occurs(csproj, "UseMaui"@) || text::occurs(
                csproj,
                "UseWindowsForms"@,
            ) || text::occurs(csproj, "UseWPF"@);
            &&& web && views ==> category == "WebApp (MVC/Pages)"@
            &&& web && !views && controllers ==> category == "WebAPI"@
            &&& web && !views && !controllers ==> category == "WebApp"@
            &&& worker && !web ==> category == "Worker"@
            &&& exe && !web && !worker && native ==> category == "NativeApp"@
            &&& exe && !web && !worker && !native ==> category == "ConsoleApp"@
            &&& category == "Library"@ <==> !web && !worker && !exe
        }),
{
    crate::laws::lemma_categories_differ();
}

/// The target framework is the newest of the common versions that stand in an
/// element of their own, else the text of the first element.
pub proof fn law_framework_follows_elements(csproj: Seq<char>)
    ensures
        ({
            let framework = project_file::target_framework_of(csproj);
            let nine = text::occurs(csproj, "<TargetFramework>net9.0</TargetFramework>"@);
            let eight = text::occurs(csproj, "<TargetFramework>net8.0</TargetFramework>"@);
            let seven = text::occurs(csproj, "<TargetFramework>net7.0</TargetFramework>"@);
            let six = text::occurs(csproj, "<TargetFramework>net6.0</TargetFramework>"@);
            &&& nine ==> framework == Some("net9.0"@)
            &&& eight && !nine ==> framework == Some("net8.0"@)
            &&& seven && !eight && !nine ==> framework == Some("net7.0"@)
            &&& six && !seven && !eight && !nine ==> framework == Some("net6.0"@)
            &&& !six && !seven && !eight && !nine ==> framework == match pattern::search(
                r"<TargetFramework>(.*?)</TargetFramework>"@,
                csproj,
            ) {
                Some(groups) => if groups.len() > 1 {
                    groups[1]
                } else {
                    None
                },
                None => None,
            }
            &&& project_file::common_framework_of(csproj) == if nine || eight || seven || six {
                framework
            } else {
                None
            }
        }),
{
    reveal_strlit("<TargetFramework>");
    reveal_strlit("</TargetFramework>");
    reveal_strlit("net9.0");
    reveal_strlit("net8.0");
    reveal_strlit("net7.0");
    reveal_strlit("net6.0");
    reveal_strlit("<TargetFramework>net9.0</TargetFramework>");
    reveal_strlit("<TargetFramework>net8.0</TargetFramework>");
    reveal_strlit("<TargetFramework>net7.0</TargetFramework>");
    reveal_strlit("<TargetFramework>net6.0</TargetFramework>");
    assert(project_file::framework_element("net9.0"@)
        =~= "<TargetFramework>net9.0</TargetFramework>"@);
    assert(project_file::framework_element("net8.0"@)
        =~= "<TargetFramework>net8.0</TargetFramework>"@);
    assert(project_file::framework_element("net7.0"@)
        =~= "<TargetFramework>net7.0</TargetFramework>"@);
    assert(project_file::framework_element("net6.0"@)
        =~= "<TargetFramework>net6.0</TargetFramework>"@);
}

/// The tags are the platform, the language by the suffix of the project file,
/// and the framework if there is one.
pub proof fn law_tags_follow_name_and_framework(name: Seq<char>, framework: Option<Seq<char>>)
    ensures
        ({
            let tags = project_file::tags_of(name, framework);
            &&& tags[0] == ".NET"@
            &&& ".csproj"@.is_suffix_of(name) ==> tags[1] == "C#"@
            &&& !".csproj"@.is_suffix_of(name) ==> tags[1] == "F#"@
            &&& framework matches Some(version) ==> tags.len() == 3 && tags[2] == version
            &&& framework is None ==> tags.len() == 2
        }),
{
}

/// Which names are of which kind, given the name in small letters.
pub proof fn law_kinds_of_names(name: Seq<char>, lower: Seq<char>)
    ensures
        plan::fits(FileKind::Controller, name, lower) <==> {
            ||| "controller.cs"@.is_suffix_of(lower)
            ||| text::occurs(lower, "/controllers/"@)
            ||| text::occurs(lower, "\\controllers\\"@)
        },
        plan::fits(FileKind::Program, name, lower) <==> "program.cs"@.is_suffix_of(lower),
        plan::fits(FileKind::RazorPage, name, lower) <==> ".cshtml.cs"@.is_suffix_of(lower),
        plan::fits(FileKind::CSharp, name, lower) <==> ".cs"@.is_suffix_of(name),
        forall|kind: FileKind|
            #[trigger] plan::is_kind(kind, name) == plan::fits(kind, name, text::lowercase(name)),
{
}

/// The positions are in order, each once.
pub open spec fn in_order(at: Seq<int>) -> bool {
    forall|j: int, k: int| 0 <= j < k < at.len() ==> #[trigger] at[j] < #[trigger] at[k]
}

/// Selected files are all the files of the kind, in their order: `at` gives
/// their positions.
proof fn lemma_of_kind_positions(kind: FileKind, files: Seq<Seq<char>>) -> (at: Seq<int>)
    ensures
        in_order(at),
        at.len() == plan::of_kind(kind, files).len(),
        forall|k: int|
            0 <= k < at.len() ==> 0 <= #[trigger] at[k] < files.len() && plan::of_kind(kind, files)[k]
                == files[at[k]],
        forall|i: int|
            #[trigger] at.contains(i) <==> 0 <= i < files.len() && plan::is_kind(kind, files[i]),
    decreases files.len(),
{
    if files.len() == 0 {
        Seq::empty()
    } else {
        let before = lemma_of_kind_positions(kind, files.drop_last());
        let last = files.len() - 1;
        let at = if plan::is_kind(kind, files.last()) {
            before.push(last)
        } else {
            before
        };
        assert forall|i: int| #[trigger] at.contains(i) <==> 0 <= i < files.len() && plan::is_kind(
            kind,
            files[i],
        ) by {
            if 0 <= i < last {
                assert(files[i] == files.drop_last()[i]);
            }
            if before.contains(i) {
                let k = choose|k: int| 0 <= k < before.len() && before[k] == i;
                assert(at[k] == i);
            }
            if i == last && plan::is_kind(kind, files[i]) {
                assert(at[before.len() as int] == i);
            }
            if at.contains(i) && i != last {
                let k = choose|k: int| 0 <= k < at.len() && at[k] == i;
                assert(before[k] == i);
            }
            if before.contains(last) {
                assert(false);
            }
        }
        at
    }
}

/// Every file whose name is of a kind is selected, in the order of the files,
/// and no other. Capitals count in the suffix `.cs` of sources only.
pub proof fn law_files_are_selected_by_name(kind: FileKind, files: Seq<Seq<char>>) -> (at: Seq<int>)
    ensures
        in_order(at),
        at.len() == plan::of_kind(kind, files).len(),
        forall|k: int|
            0 <= k < at.len() ==> 0 <= #[trigger] at[k] < files.len() && plan::of_kind(kind, files)[k]
                == files[at[k]],
        forall|i: int|
            #[trigger] at.contains(i) <==> 0 <= i < files.len() && match kind {
                FileKind::Controller => {
                    ||| "controller.cs"@.is_suffix_of(text::lowercase(files[i]))
                    ||| text::occurs(text::lowercase(files[i]), "/controllers/"@)
                    ||| text::occurs(text::lowercase(files[i]), "\\controllers\\"@)
                },
                FileKind::Program => "program.cs"@.is_suffix_of(text::lowercase(files[i])),
                FileKind::RazorPage => ".cshtml.cs"@.is_suffix_of(text::lowercase(files[i])),
                FileKind::CSharp => ".cs"@.is_suffix_of(files[i]),
            },
{
    lemma_of_kind_positions(kind, files)
}

/// A name of a kind adds itself to the selection when it is appended; files
/// in front and behind do not touch one another.
pub proof fn law_selection_is_file_by_file(
    kind: FileKind,
    first: Seq<Seq<char>>,
    second: Seq<Seq<char>>,
)
    ensures
        plan::of_kind(kind, first + second) == plan::of_kind(kind, first) + plan::of_kind(
            kind,
            second,
        ),
    decreases second.len(),
{
    if second.len() == 0 {
        assert(first + second =~= first);
        assert(plan::of_kind(kind, first) + Seq::empty() =~= plan::of_kind(kind, first));
    } else {
        law_selection_is_file_by_file(kind, first, second.drop_last());
        assert((first + second).drop_last() =~= first + second.drop_last());
        assert((first + second).last() == second.last());
        assert(plan::of_kind(kind, first + second) =~= plan::of_kind(kind, first) + plan::of_kind(
            kind,
            second,
        ));
    }
}

/// The jobs are one for each of the files of `first`, then one for each of
/// `second`.
pub open spec fn are_jobs_for(
    jobs: Seq<ScanJobView>,
    first: Seq<Seq<char>>,
    first_scanner: Scanner,
    second: Seq<Seq<char>>,
    second_scanner: Scanner,
) -> bool {
    &&& jobs.len() == first.len() + second.len()
    &&& forall|k: int|
        0 <= k < first.len() ==> (#[trigger] jobs[k]).file == first[k] && jobs[k].scanner
            == first_scanner
    &&& forall|k: int|
        first.len() <= k < jobs.len() ==> (#[trigger] jobs[k]).file == second[k - first.len()]
            && jobs[k].scanner == second_scanner
}

/// What is scanned in a project of each category.
pub proof fn law_plan_by_category(category: Seq<char>, files: Seq<Seq<char>>)
    ensures
        ({
            let controllers = plan::of_kind(FileKind::Controller, files);
            let programs = plan::of_kind(FileKind::Program, files);
            let pages = plan::of_kind(FileKind::RazorPage, files);
            let sources = plan::of_kind(FileKind::CSharp, files);
            let none = Seq::<Seq<char>>::empty();
            &&& are_jobs_for(
                plan::plan_of("WebAPI"@, files),
                controllers,
                Scanner::Controller,
                programs,
                Scanner::MinimalApi,
            )
            &&& are_jobs_for(
                plan::plan_of("WebApp (MVC/Pages)"@, files),
                controllers,
                Scanner::Controller,
                pages,
                Scanner::RazorPage,
            )
            &&& plan::plan_of("WebApp"@, files) == plan::plan_of("WebApp (MVC/Pages)"@, files)
            &&& programs.len() > 0 ==> are_jobs_for(
                plan::plan_of("ConsoleApp"@, files),
                programs,
                Scanner::Console,
                none,
                Scanner::Console,
            )
            &&& programs.len() == 0 ==> are_jobs_for(
                plan::plan_of("ConsoleApp"@, files),
                sources,
                Scanner::Console,
                none,
                Scanner::Console,
            )
            &&& are_jobs_for(
                plan::plan_of("Worker"@, files),
                sources,
                Scanner::Worker,
                none,
                Scanner::Worker,
            )
            &&& are_jobs_for(
                plan::plan_of("NativeApp"@, files),
                sources,
                Scanner::Native,
                none,
                Scanner::Native,
            )
            &&& category != "WebAPI"@ && category != "WebApp (MVC/Pages)"@ && category
                != "WebApp"@ && category != "ConsoleApp"@ && category != "Worker"@ && category
                != "NativeApp"@ ==> plan::plan_of(category, files).len() == 0
        }),
{
    crate::laws::lemma_categories_differ();
}

} // verus!
