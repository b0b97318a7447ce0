//! What a project file (`.csproj`, `.fsproj`) says about its project.
use crate::pattern;
use crate::text;
use vstd::prelude::*;

verus! {

/// Finds the first target framework element.
pub const TARGET_FRAMEWORK: &'static str = r"<TargetFramework>(.*?)</TargetFramework>";

/// `name` is the name of a project file.
pub open spec fn is_project_file(name: Seq<char>) -> bool {
    ".csproj"@.is_suffix_of(name) || ".fsproj"@.is_suffix_of(name)
}

/// The position of the first project file.
pub open spec fn first_project_file(files: Seq<Seq<char>>) -> Option<int>
    decreases files.len(),
{
    if files.len() == 0 {
        None
    } else {
        match first_project_file(files.drop_last()) {
            Some(k) => Some(k),
            None => if is_project_file(files.last()) {
                Some(files.len() - 1)
            } else {
                None
            },
        }
    }
}

/// Finds the first project file.
pub fn find_project_file(files: &Vec<String>) -> (found: Option<usize>)
    ensures
        match found {
            Some(k) => {
                &&& k < files.len()
                &&& first_project_file(files.deep_view()) == Some(k as int)
            },
            None => first_project_file(files.deep_view()) is None,
        },
{
    let ghost names = files.deep_view();
    proof {
        assert(names.take(0) =~= Seq::empty());
    }
    for i in 0..files.len()
        invariant
            names == files.deep_view(),
            first_project_file(names.take(i as int)) is None,
    {
        let name = files[i].as_str();
        proof {
            assert(names.take(i + 1).drop_last() =~= names.take(i as int));
        }
        if text::ends_with(name, ".csproj") || text::ends_with(name, ".fsproj") {
            proof {
                lemma_first_project_file_prefix(names, i + 1);
            }
            return Some(i);
        }
    }
    assert(names.take(files.len() as int) =~= names);
    None
}

/// A project file found among the first `n` files is the first of all.
proof fn lemma_first_project_file_prefix(files: Seq<Seq<char>>, n: int)
    requires
        0 <= n <= files.len(),
        first_project_file(files.take(n)) is Some,
    ensures
        first_project_file(files) == first_project_file(files.take(n)),
    decreases files.len() - n,
{
    if n < files.len() {
        assert(files.take(n + 1).drop_last() =~= files.take(n));
        lemma_first_project_file_prefix(files, n + 1);
    } else {
        assert(files.take(n) =~= files);
    }
}

/// The kind of project that the content of a project file shows.
pub open spec fn category_of(csproj: Seq<char>) -> Seq<char> {
    if text::occurs(csproj, "Sdk=\"Microsoft.NET.Sdk.Web\""@) {
        if text::occurs(csproj, "AddControllersWithViews"@) || text::occurs(csproj, "AddMvc"@) {
            "WebApp (MVC/Pages)"@
        } else if text::occurs(csproj, "AddControllers"@) || text::occurs(
            csproj,
            "MapControllers"@,
        ) {
            "WebAPI"@
        } else {
            "WebApp"@
        }
    } else if text::occurs(csproj, "Sdk=\"Microsoft.NET.Sdk.Worker\""@) {
        "Worker"@
    } else if text::occurs(csproj, "<OutputType>Exe</OutputType>"@) {
        if text::occurs(csproj, "UseMaui"@) || text::occurs(csproj, "UseWindowsForms"@)
            || text::occurs(csproj, "UseWPF"@) {
            "NativeApp"@
        } else {
            "ConsoleApp"@
        }
    } else {
        "Library"@
    }
}

/// Determines the kind of project from the content of its project file.
pub fn detect_category(csproj: &str) -> (category: String)
    ensures
        category@ == category_of(csproj@),
{
    if text::contains(csproj, "Sdk=\"Microsoft.NET.Sdk.Web\"") {
        if text::contains(csproj, "AddControllersWithViews") || text::contains(csproj, "AddMvc") {
            return "WebApp (MVC/Pages)".to_string();
        } else if text::contains(csproj, "AddControllers") || text::contains(
            csproj,
            "MapControllers",
        ) {
            return "WebAPI".to_string();
        } else {
            return "WebApp".to_string();
        }
    }
    if text::contains(csproj, "Sdk=\"Microsoft.NET.Sdk.Worker\"") {
        return "Worker".to_string();
    }
    if text::contains(csproj, "<OutputType>Exe</OutputType>") {
        // MAUI, WinForms and WPF programs are told apart from plain console ones.
        if text::contains(csproj, "UseMaui") || text::contains(csproj, "UseWindowsForms")
            || text::contains(csproj, "UseWPF") {
            return "NativeApp".to_string();
        }
        return "ConsoleApp".to_string();
    }
    "Library".to_string()
}

/// The target framework element for `version`.
pub open spec fn framework_element(version: Seq<char>) -> Seq<char> {
    "<TargetFramework>"@ + version + "</TargetFramework>"@
}

/// The project file names `version` as its target framework.
pub open spec fn targets(csproj: Seq<char>, version: Seq<char>) -> bool {
    text::occurs(csproj, framework_element(version))
}

/// The newest of the common versions that the project file names.
pub open spec fn common_framework_of(csproj: Seq<char>) -> Option<Seq<char>> {
    if targets(csproj, "net9.0"@) {
        Some("net9.0"@)
    } else if targets(csproj, "net8.0"@) {
        Some("net8.0"@)
    } else if targets(csproj, "net7.0"@) {
        Some("net7.0"@)
    } else if targets(csproj, "net6.0"@) {
        Some("net6.0"@)
    } else {
        None
    }
}

/// The target framework of a project file: the newest of the common versions
/// that it names, else the text of its first target framework element.
pub open spec fn target_framework_of(csproj: Seq<char>) -> Option<Seq<char>> {
    match common_framework_of(csproj) {
        Some(version) => Some(version),
        None => pattern::found_group(pattern::search(TARGET_FRAMEWORK@, csproj), 1),
    }
}

/// Whether the project file names `version` as its target framework.
fn has_framework(csproj: &str, version: &str) -> (yes: bool)
    ensures
        yes == targets(csproj@, version@),
{
    let element = "<TargetFramework>".to_string().concat(version).concat("</TargetFramework>");
    text::contains(csproj, element.as_str())
}

/// Finds the newest of the common versions that the project file names.
pub fn common_framework(csproj: &str) -> (version: Option<String>)
    ensures
        version.deep_view() == common_framework_of(csproj@),
{
    if has_framework(csproj, "net9.0") {
        Some("net9.0".to_string())
    } else if has_framework(csproj, "net8.0") {
        Some("net8.0".to_string())
    } else if has_framework(csproj, "net7.0") {
        Some("net7.0".to_string())
    } else if has_framework(csproj, "net6.0") {
        Some("net6.0".to_string())
    } else {
        None
    }
}

/// A version that a project file names as its target framework stands in it.
proof fn lemma_targeted_version_occurs(csproj: Seq<char>, version: Seq<char>)
    requires
        targets(csproj, version),
    ensures
        text::occurs(csproj, version),
{
    let element = framework_element(version);
    let i = choose|i: int| text::occurs_at(csproj, element, i);
    let at: int = "<TargetFramework>"@.len() as int;
    assert(csproj.subrange(i + at, i + at + version.len()) =~= element.subrange(
        at,
        at + version.len(),
    ));
    assert(element.subrange(at, at + version.len()) =~= version);
    assert(text::occurs_at(csproj, version, i + at));
}

/// Determines the target framework from the content of a project file.
pub fn detect_target_framework(csproj: &str) -> (framework: Option<String>)
    ensures
        framework.deep_view() == target_framework_of(csproj@),
        framework matches Some(version) ==> text::occurs(csproj@, version@),
{
    let common = common_framework(csproj);
    if common.is_some() {
        proof {
            lemma_targeted_version_occurs(csproj@, common->0@);
        }
        return common;
    }
    match pattern::compile(TARGET_FRAMEWORK) {
        Some(re) => {
            let found = pattern::captures(&re, csproj);
            let version = pattern::group_of(&found, 1);
            assert(pattern::found_group(found.deep_view(), 1) == version.deep_view());
            version
        },
        None => None,
    }
}

/// The tags of a project: platform, language and target framework.
pub open spec fn tags_of(name: Seq<char>, framework: Option<Seq<char>>) -> Seq<Seq<char>> {
    let language = if ".csproj"@.is_suffix_of(name) {
        "C#"@
    } else {
        "F#"@
    };
    match framework {
        Some(version) => seq![".NET"@, language, version],
        None => seq![".NET"@, language],
    }
}

/// Lists the tags of the project whose project file is `name`.
pub fn project_tags(name: &str, framework: Option<String>) -> (tags: Vec<String>)
    ensures
        tags.deep_view() == tags_of(name@, framework.deep_view()),
{
    let mut tags: Vec<String> = Vec::new();
    tags.push(".NET".to_string());
    if text::ends_with(name, ".csproj") {
        tags.push("C#".to_string());
    } else {
        tags.push("F#".to_string());
    }
    if let Some(version) = framework {
        tags.push(version);
    }
    assert(tags.deep_view() =~= tags_of(name@, framework.deep_view()));
    tags
}

} // verus!
