use dotnet_plugin::pattern;
use dotnet_plugin::profile::EntryPoint;
use dotnet_plugin::route;
use dotnet_plugin::scan;
use dotnet_plugin::scan::{Scanner, Start};

fn entry(
    label: &str,
    path: &str,
    line: u32,
    method: &str,
    description: Option<&str>,
) -> EntryPoint {
    EntryPoint {
        label: label.to_string(),
        path: path.to_string(),
        line: Some(line),
        method: Some(method.to_string()),
        description: description.map(|d| d.to_string()),
    }
}

fn groups(all: &[Option<&str>]) -> Vec<Option<String>> {
    all.iter().map(|group| group.map(|text| text.to_string())).collect()
}

#[test]
fn paths_are_joined_with_one_slash() {
    assert_eq!(route::join_path("/src", "a.cs"), "/src/a.cs");
    assert_eq!(route::join_path("/src/", "a.cs"), "/src/a.cs");
    assert_eq!(route::join_path("", "a.cs"), "/a.cs");
    assert_eq!(route::join_path("/", "a.cs"), "/a.cs");
}

#[test]
fn routes() {
    assert_eq!(route::build_route("api/[controller]", ""), "/api/[controller]");
    assert_eq!(route::build_route("api/[controller]", "{id}"), "/api/[controller]/{id}");
    assert_eq!(route::build_route("/api/", "items/"), "/api/items");
    assert_eq!(route::build_route("", ""), "/");
    assert_eq!(route::build_route("", "items"), "//items");
    assert_eq!(route::build_route("//", "//"), "/");
}

#[test]
fn outer_slashes_do_not_change_a_route() {
    let plain = route::build_route("api", "items");
    assert_eq!(route::build_route("/api", "items"), plain);
    assert_eq!(route::build_route("api/", "items"), plain);
    assert_eq!(route::build_route("api", "items/"), plain);
}

#[test]
fn absolute_fragment_overrides_the_base() {
    assert_eq!(route::build_route("api/items", "/health"), "/health");
    assert_eq!(route::build_route("other", "/health"), "/health");
    assert_eq!(route::build_route("", "//health/live/"), "/health/live");
    assert_eq!(route::build_route("/api/", "/items/"), "/items");
    assert_eq!(route::build_route("api", "/"), "/");
    assert_eq!(route::build_route("api", "//"), "/");
}

#[test]
fn line_numbers() {
    assert_eq!(scan::number_line(0), 1);
    assert_eq!(scan::number_line(41), 42);
    assert_eq!(scan::number_line(0xffff_fffe), 0xffff_ffff);
    assert_eq!(scan::number_line(0xffff_ffff), 0);
}

#[test]
fn group_texts() {
    let found = Some(groups(&[Some("all"), None, Some("two")]));
    assert_eq!(pattern::group_of(&found, 0), Some("all".to_string()));
    assert_eq!(pattern::group_of(&found, 1), None);
    assert_eq!(pattern::group_of(&found, 2), Some("two".to_string()));
    assert_eq!(pattern::group_of(&found, 3), None);
    assert_eq!(pattern::group_of(&None, 0), None);
}

#[test]
fn method_names() {
    assert_eq!(
        scan::extract_method_name("public async Task<IActionResult> GetAll(int page)"),
        Some("GetAll".to_string())
    );
    assert_eq!(scan::extract_method_name("public int Count { get; }"), None);
    assert_eq!(scan::extract_method_name("foo(Bar (x))"), Some("Bar".to_string()));
    assert_eq!(scan::extract_method_name(""), None);
}

#[test]
fn signature_is_on_the_next_line_that_is_not_blank() {
    let lines: Vec<String> =
        ["[HttpGet]", "", " \t", "  public void A() ", "", "[HttpPut]", "[Authorize]", " "]
            .iter()
            .map(|line| line.to_string())
            .collect();
    for i in 0..3 {
        assert_eq!(scan::signature_below(&lines, i), Some("public void A()".to_string()));
    }
    for i in 3..8 {
        assert_eq!(scan::signature_below(&lines, i), None);
    }
}

#[test]
fn method_name_below_a_blank_line() {
    assert_eq!(
        scan::scan_controller_routes("C.cs", "[HttpPost]\n\npublic int Add()"),
        vec![entry("POST /", "C.cs", 1, "POST", Some("Add"))]
    );
}

#[test]
fn attribute_with_the_root_route() {
    assert_eq!(
        scan::scan_controller_routes("C.cs", "[Route(\"api\")]\n[HttpGet(\"/\")]\nint Home()"),
        vec![entry("GET /", "C.cs", 2, "GET", Some("Home"))]
    );
}

#[test]
fn another_path_changes_paths_only() {
    let src = "[Route(\"r\")]\n[HttpGet]\nint A()\n[HttpPut(\"b\")]\n";
    let mut all = scan::scan_controller_routes("P.cs", src);
    assert_eq!(all.len(), 2);
    for found in all.iter_mut() {
        found.path = "Q.cs".to_string();
    }
    assert_eq!(scan::scan_controller_routes("Q.cs", src), all);
}

#[test]
fn line_in_front_moves_entries_down() {
    let src = "[Route(\"r\")]\n[HttpGet]\n\nint A()\n[HttpPut(\"b\")]\n";
    let mut all = scan::scan_controller_routes("P.cs", src);
    assert_eq!(all.len(), 2);
    for found in all.iter_mut() {
        found.line = found.line.map(|line| line + 1);
    }
    assert_eq!(scan::scan_controller_routes("P.cs", &format!("\n{}", src)), all);
    assert_eq!(scan::scan_controller_routes("P.cs", &format!("using X;\r\n{}", src)), all);
}

#[test]
fn entry_point_of_an_attribute() {
    let made = scan::controller_entry_point(
        "C.cs",
        "api",
        4,
        &groups(&[Some("[HttpGet(\" x \")]"), Some("HttpGet"), Some(" x ")]),
        Some("Get".to_string()),
    );
    assert_eq!(made, entry("GET /api/x", "C.cs", 5, "GET", Some("Get")));
    let made = scan::controller_entry_point("C.cs", "", 0, &groups(&[]), None);
    assert_eq!(made, entry(" /", "C.cs", 1, "", None));
}

#[test]
fn controller_routes() {
    let src = "using X;\r\n\
        [ApiController]\r\n\
        [Route(\"api/[controller]\")]\r\n\
        public class ItemsController\r\n\
        {\r\n\
        \u{20}   [HttpGet]\r\n\
        \u{20}   public IActionResult List() => Ok();\r\n\
        \u{20}   [HttpPost(\"{id}/copy\")]\r\n\
        \u{20}   [Authorize]\r\n\
        \u{20}   public IActionResult Copy(int id) => Ok();\r\n\
        \u{20}   [HttpDelete( \"/all/\" )]\r\n\
        \r\n\
        \u{20}   [HttpOptions]\r\n";
    assert_eq!(
        scan::scan_controller_routes("Controllers/ItemsController.cs", src),
        vec![
            entry(
                "GET /api/[controller]",
                "Controllers/ItemsController.cs",
                6,
                "GET",
                Some("List")
            ),
            entry(
                "POST /api/[controller]/{id}/copy",
                "Controllers/ItemsController.cs",
                8,
                "POST",
                None
            ),
            entry(
                "DELETE /all",
                "Controllers/ItemsController.cs",
                11,
                "DELETE",
                None
            ),
            entry(
                "OPTIONS /api/[controller]",
                "Controllers/ItemsController.cs",
                13,
                "OPTIONS",
                None
            ),
        ]
    );
}

#[test]
fn controller_without_a_base_route() {
    assert_eq!(
        scan::scan_controller_routes("C.cs", "[HttpHead(\"a\")]\nvoid Run()"),
        vec![entry("HEAD //a", "C.cs", 1, "HEAD", Some("Run"))]
    );
    assert_eq!(scan::scan_controller_routes("C.cs", ""), vec![]);
    assert_eq!(scan::scan_controller_routes("C.cs", "[HttpTrace]"), vec![]);
}

#[test]
fn minimal_api_routes() {
    let src = "var app = builder.Build();\napp.MapGet(\"/a\", () => 1);\n\
        app . MapPatch ( \"/b/{id}\", F);\nother.MapPut(\"/c\", F);\napp.MapHead(\"/d\", F);\n";
    assert_eq!(
        scan::scan_minimal_api_routes("Program.cs", src),
        vec![
            entry("GET /a", "Program.cs", 2, "GET", None),
            entry("PATCH /b/{id}", "Program.cs", 3, "PATCH", None),
        ]
    );
}

#[test]
fn entry_point_of_a_registration() {
    let made = scan::minimal_api_entry_point(
        "P.cs",
        0,
        &groups(&[Some(""), Some("Delete"), Some("/x")]),
    );
    assert_eq!(made, entry("DELETE /x", "P.cs", 1, "DELETE", None));
    let made = scan::minimal_api_entry_point("P.cs", 1, &groups(&[Some(""), None, None]));
    assert_eq!(made, entry(" ", "P.cs", 2, "", None));
}

#[test]
fn razor_page_handlers() {
    let src = "public class IndexModel : PageModel {\n\
        public void OnGet() { }\n\
        public async Task<IActionResult> OnPostAsync() { }\n\
        protected Task<IActionResult> OnPostDelete (int id) { }\n\
        private void OnPut() { }\n}";
    assert_eq!(
        scan::scan_razor_page_handlers("Pages\\Admin/Index.cshtml.cs", src),
        vec![
            entry(
                "GET Pages/Admin/Index (OnGet)",
                "Pages\\Admin/Index.cshtml.cs",
                2,
                "GET",
                Some("OnGet")
            ),
            entry(
                "POST Pages/Admin/Index (OnPostAsync)",
                "Pages\\Admin/Index.cshtml.cs",
                3,
                "POST",
                Some("OnPostAsync")
            ),
            entry(
                "POST Pages/Admin/Index (OnPostDelete)",
                "Pages\\Admin/Index.cshtml.cs",
                4,
                "POST",
                Some("OnPostDelete")
            ),
        ]
    );
}

#[test]
fn asynchronous_page_handler() {
    assert_eq!(
        scan::scan_razor_page_handlers(
            "Pages/Index.cshtml.cs",
            "public async Task<IActionResult> OnPostAsync()"
        ),
        vec![entry(
            "POST Pages/Index (OnPostAsync)",
            "Pages/Index.cshtml.cs",
            1,
            "POST",
            Some("OnPostAsync")
        )]
    );
}

#[test]
fn entry_point_of_a_handler() {
    let made = scan::page_entry_point(
        "a\\B.cshtml.cs",
        2,
        &groups(&[Some(""), Some("OnPutX"), Some("Put")]),
    );
    assert_eq!(made, entry("PUT a/B (OnPutX)", "a\\B.cshtml.cs", 3, "PUT", Some("OnPutX")));
}

#[test]
fn first_main_method_only() {
    let src = "class A {\n  static async Task Main(string[] args) {}\n  static void Main() {}\n}";
    assert_eq!(
        scan::scan_main_method("A.cs", src),
        vec![entry("Main()", "A.cs", 2, "MAIN", Some("Application entry point"))]
    );
    assert_eq!(scan::scan_main_method("A.cs", "static bool Main()"), vec![]);
    assert_eq!(scan::scan_main_method("A.cs", ""), vec![]);
}

#[test]
fn background_services() {
    let method = "protected override async Task ExecuteAsync(CancellationToken t)";
    let src = format!("class W : IFoo, BackgroundService\n{}\n{}\n", method, method);
    assert_eq!(
        scan::scan_background_services("W.cs", &src),
        vec![
            entry(
                "ExecuteAsync()",
                "W.cs",
                2,
                "EXECUTE",
                Some("Background worker execution loop")
            ),
            entry(
                "ExecuteAsync()",
                "W.cs",
                3,
                "EXECUTE",
                Some("Background worker execution loop")
            ),
        ]
    );
    assert_eq!(scan::scan_background_services("W.cs", method), vec![]);
}

#[test]
fn application_starts() {
    let src = "public static MauiApp CreateMauiApp() { static void Main()\n\
        static int Main()\n\
        protected override void OnStartup(StartupEventArgs e)\n\
        private void Application_Startup(object s)\n";
    assert_eq!(
        scan::scan_application_start("App.cs", src),
        vec![
            entry("CreateMauiApp()", "App.cs", 1, "STARTUP", Some("MAUI application bootstrap")),
            entry("Main()", "App.cs", 2, "MAIN", Some("Application entry point")),
            entry("OnStartup()", "App.cs", 3, "STARTUP", Some("Application startup handler")),
            entry("OnStartup()", "App.cs", 4, "STARTUP", Some("Application startup handler")),
        ]
    );
}

#[test]
fn kinds_of_starts_in_their_order() {
    assert_eq!(scan::first_start(true, true, true), Some(Start::Maui));
    assert_eq!(scan::first_start(false, true, true), Some(Start::Main));
    assert_eq!(scan::first_start(false, false, true), Some(Start::Startup));
    assert_eq!(scan::first_start(false, false, false), None);
}

#[test]
fn entries_stand_in_their_file_in_line_order() {
    let src = "static void Main()\nx\nstatic int Main()\n";
    let all = scan::scan_source(Scanner::Native, "A.cs", src);
    assert_eq!(all.len(), 2);
    assert_eq!(all[0].line, Some(1));
    assert_eq!(all[1].line, Some(3));
    for found in all {
        assert_eq!(found.path, "A.cs");
    }
    assert_eq!(scan::scan_source(Scanner::Console, "A.cs", src).len(), 1);
}
