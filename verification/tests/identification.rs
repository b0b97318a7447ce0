use dotnet_plugin::identify;
use dotnet_plugin::identify::Progress;
use dotnet_plugin::plan;
use dotnet_plugin::plan::{FileKind, ScanJob};
use dotnet_plugin::profile::ProjectProfile;
use dotnet_plugin::scan::Scanner;
use std::collections::HashMap;

fn names(all: &[&str]) -> Vec<String> {
    all.iter().map(|name| name.to_string()).collect()
}

fn run(root: &str, files: &[&str], host: &[(&str, &str)]) -> (Option<ProjectProfile>, Vec<String>) {
    let contents: HashMap<&str, &str> = host.iter().cloned().collect();
    let mut reads = vec![];
    let mut progress = identify::identify_project(root.to_string(), names(files));
    loop {
        progress = match progress {
            Progress::Done(profile) => return (profile, reads),
            Progress::Read(pending) => {
                assert_eq!(pending.wants_project_file(), reads.is_empty());
                let path = pending.path();
                let content = contents.get(path.as_str()).map(|content| content.to_string());
                reads.push(path);
                pending.resume(content)
            }
        };
    }
}

fn job(file: &str, scanner: Scanner) -> ScanJob {
    ScanJob { file: file.to_string(), scanner }
}

#[test]
fn kinds_of_files() {
    assert!(plan::has_kind(FileKind::Controller, "HomeCONTROLLER.cs"));
    assert!(plan::has_kind(FileKind::Controller, "src/Controllers/x.txt"));
    assert!(plan::has_kind(FileKind::Controller, "src\\controllers\\x.cs"));
    assert!(!plan::has_kind(FileKind::Controller, "Controllers/x.cs"));
    assert!(!plan::has_kind(FileKind::Controller, "HomeController.fs"));
    assert!(plan::has_kind(FileKind::Program, "a/MyProgram.CS"));
    assert!(!plan::has_kind(FileKind::Program, "Program.cs.bak"));
    assert!(plan::has_kind(FileKind::RazorPage, "Pages/Index.CSHTML.cs"));
    assert!(!plan::has_kind(FileKind::RazorPage, "Pages/Index.cshtml"));
    assert!(plan::has_kind(FileKind::CSharp, "a.cs"));
    assert!(!plan::has_kind(FileKind::CSharp, "a.CS"));
    assert!(plan::name_fits(FileKind::Program, "PROGRAM.CS", "program.cs"));
    assert!(!plan::name_fits(FileKind::CSharp, "PROGRAM.CS", "program.cs"));
}

#[test]
fn files_keep_their_order() {
    let files = names(&["b.cs", "a.txt", "Program.cs", "a.cs"]);
    assert_eq!(plan::select_files(FileKind::CSharp, &files), vec!["b.cs", "Program.cs", "a.cs"]);
    assert_eq!(plan::select_files(FileKind::Program, &files), vec!["Program.cs"]);
    assert!(plan::select_files(FileKind::RazorPage, &files).is_empty());
}

#[test]
fn jobs_of_each_category() {
    let files = names(&["Program.cs", "AController.cs", "P.cshtml.cs", "a.txt"]);
    assert_eq!(
        plan::entry_point_jobs(&files, "WebAPI"),
        vec![job("AController.cs", Scanner::Controller), job("Program.cs", Scanner::MinimalApi)]
    );
    for category in ["WebApp", "WebApp (MVC/Pages)"] {
        assert_eq!(
            plan::entry_point_jobs(&files, category),
            vec![
                job("AController.cs", Scanner::Controller),
                job("P.cshtml.cs", Scanner::RazorPage),
            ]
        );
    }
    assert_eq!(
        plan::entry_point_jobs(&files, "ConsoleApp"),
        vec![job("Program.cs", Scanner::Console)]
    );
    assert_eq!(plan::entry_point_jobs(&files, "Worker").len(), 3);
    assert_eq!(plan::entry_point_jobs(&files, "NativeApp")[2], job("P.cshtml.cs", Scanner::Native));
    assert!(plan::entry_point_jobs(&files, "Library").is_empty());
    assert!(plan::entry_point_jobs(&files, "webapi").is_empty());
}

#[test]
fn console_without_a_program_file() {
    let files = names(&["b.cs", "a.cs", "c.CS"]);
    assert_eq!(
        plan::console_jobs(&files),
        vec![job("b.cs", Scanner::Console), job("a.cs", Scanner::Console)]
    );
}

#[test]
fn no_project_file() {
    let (profile, reads) = run("/r", &["a.cs"], &[("/r/a.cs", "static void Main()")]);
    assert_eq!(profile, None);
    assert!(reads.is_empty());
}

#[test]
fn unreadable_project_file() {
    let (profile, reads) = run("/r", &["a.csproj", "b.csproj"], &[("/r/b.csproj", "")]);
    assert_eq!(profile, None);
    assert_eq!(reads, vec!["/r/a.csproj"]);
}

#[test]
fn library() {
    let (profile, reads) = run("/r/", &["a.cs", "a.fsproj"], &[("/r/a.fsproj", "<x/>")]);
    let profile = profile.unwrap();
    assert_eq!(profile.category, "Library");
    assert_eq!(profile.tags, vec![".NET", "F#"]);
    assert!(profile.entry_points.is_empty());
    assert_eq!(reads, vec!["/r/a.fsproj"]);
}

#[test]
fn web_api() {
    let (profile, reads) = run(
        "/r",
        &["Program.cs", "App.csproj", "Controllers/BController.cs", "lost/Controllers/C.cs"],
        &[
            (
                "/r/App.csproj",
                "<Project Sdk=\"Microsoft.NET.Sdk.Web\">AddControllers\
                 <TargetFramework>net8.0</TargetFramework>",
            ),
            ("/r/Program.cs", "app.MapPost(\"/login\", F);"),
            (
                "/r/Controllers/BController.cs",
                "[Route(\"b\")]\n[HttpGet]\npublic int All() => 1;\n",
            ),
        ],
    );
    let profile = profile.unwrap();
    assert_eq!(profile.category, "WebAPI");
    assert_eq!(profile.tags, vec![".NET", "C#", "net8.0"]);
    let labels: Vec<String> = profile.entry_points.iter().map(|e| e.label.clone()).collect();
    assert_eq!(labels, vec!["GET /b", "POST /login"]);
    assert_eq!(profile.entry_points[0].description, Some("All".to_string()));
    assert_eq!(profile.entry_points[0].path, "Controllers/BController.cs");
    assert_eq!(
        reads,
        vec![
            "/r/App.csproj",
            "/r/Controllers/BController.cs",
            "/r/lost/Controllers/C.cs",
            "/r/Program.cs",
        ]
    );
}

#[test]
fn file_that_is_read_twice() {
    let (profile, reads) = run(
        "/r",
        &["x/Controllers/Program.cs", "a.csproj"],
        &[
            ("/r/a.csproj", "Sdk=\"Microsoft.NET.Sdk.Web\" MapControllers"),
            ("/r/x/Controllers/Program.cs", "app.MapGet(\"/m\", F);\n[HttpPut(\"c\")]"),
        ],
    );
    let labels: Vec<String> =
        profile.unwrap().entry_points.iter().map(|e| e.label.clone()).collect();
    assert_eq!(labels, vec!["PUT //c", "GET /m"]);
    assert_eq!(reads.len(), 3);
}

#[test]
fn razor_pages() {
    let (profile, _) = run(
        "/r",
        &["a.csproj", "Pages/Index.cshtml.cs"],
        &[
            ("/r/a.csproj", "Sdk=\"Microsoft.NET.Sdk.Web\""),
            ("/r/Pages/Index.cshtml.cs", "public void OnGet() {}"),
        ],
    );
    let profile = profile.unwrap();
    assert_eq!(profile.category, "WebApp");
    assert_eq!(profile.entry_points.len(), 1);
    assert_eq!(profile.entry_points[0].label, "GET Pages/Index (OnGet)");
}

#[test]
fn console_stops_at_the_first_main_method() {
    let (profile, reads) = run(
        "/r",
        &["a.csproj", "a.cs", "gone.cs", "b.cs", "c.cs"],
        &[
            ("/r/a.csproj", "<OutputType>Exe</OutputType>"),
            ("/r/a.cs", "class A {}"),
            ("/r/b.cs", "\nstatic void Main()\nstatic void Main()"),
            ("/r/c.cs", "static void Main()"),
        ],
    );
    let profile = profile.unwrap();
    assert_eq!(profile.category, "ConsoleApp");
    assert_eq!(profile.entry_points.len(), 1);
    assert_eq!(profile.entry_points[0].path, "b.cs");
    assert_eq!(profile.entry_points[0].line, Some(2));
    assert_eq!(reads, vec!["/r/a.csproj", "/r/a.cs", "/r/gone.cs", "/r/b.cs"]);
}

#[test]
fn workers_of_all_files() {
    let service =
        "class W : BackgroundService {\nprotected override async Task ExecuteAsync(X x) {} }";
    let (profile, reads) = run(
        "/r",
        &["a.csproj", "a.cs", "b.cs", "c.cs"],
        &[
            ("/r/a.csproj", "Sdk=\"Microsoft.NET.Sdk.Worker\""),
            ("/r/a.cs", service),
            ("/r/b.cs", "protected override async Task ExecuteAsync(X x) {}"),
            ("/r/c.cs", service),
        ],
    );
    let paths: Vec<String> = profile.unwrap().entry_points.iter().map(|e| e.path.clone()).collect();
    assert_eq!(paths, vec!["a.cs", "c.cs"]);
    assert!(reads.len() <= 2 * 4 + 1);
}

#[test]
fn native_application() {
    let (profile, _) = run(
        "/r",
        &["a.csproj", "MauiProgram.cs"],
        &[
            ("/r/a.csproj", "<OutputType>Exe</OutputType><UseMaui>true</UseMaui>"),
            ("/r/MauiProgram.cs", "public static MauiApp CreateMauiApp()"),
        ],
    );
    let profile = profile.unwrap();
    assert_eq!(profile.category, "NativeApp");
    assert_eq!(profile.entry_points[0].label, "CreateMauiApp()");
    assert_eq!(profile.entry_points[0].method, Some("STARTUP".to_string()));
}

#[test]
fn host_that_changes_its_answer() {
    let files = names(&["a.csproj", "x/Controllers/Program.cs"]);
    let replies = [
        Some("Sdk=\"Microsoft.NET.Sdk.Web\" MapControllers"),
        Some("[HttpPut(\"c\")]\napp.MapGet(\"/m\", F);"),
        None,
    ];
    let mut progress = identify::identify_project("/r".to_string(), files);
    for reply in replies {
        progress = match progress {
            Progress::Read(pending) => pending.resume(reply.map(|content| content.to_string())),
            Progress::Done(_) => panic!("done before the last reply"),
        };
    }
    match progress {
        Progress::Read(_) => panic!("not done after the last reply"),
        Progress::Done(profile) => {
            let found = profile.unwrap().entry_points;
            assert_eq!(found.len(), 1);
            assert_eq!(found[0].label, "PUT //c");
            assert_eq!(found[0].path, "x/Controllers/Program.cs");
        }
    }
}
