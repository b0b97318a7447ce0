use dotnet_plugin::project_file;

fn names(all: &[&str]) -> Vec<String> {
    all.iter().map(|name| name.to_string()).collect()
}

#[test]
fn first_project_file_is_found() {
    assert_eq!(project_file::find_project_file(&names(&["a.cs", "b.fsproj", "c.csproj"])), Some(1));
    assert_eq!(project_file::find_project_file(&names(&["x.csproj"])), Some(0));
    assert_eq!(project_file::find_project_file(&names(&["a.cs", "b.CSPROJ"])), None);
    assert_eq!(project_file::find_project_file(&names(&[])), None);
}

#[test]
fn categories() {
    let web = "<Project Sdk=\"Microsoft.NET.Sdk.Web\">";
    assert_eq!(project_file::detect_category(web), "WebApp");
    assert_eq!(project_file::detect_category(&format!("{}AddControllers", web)), "WebAPI");
    assert_eq!(project_file::detect_category(&format!("{}MapControllers", web)), "WebAPI");
    assert_eq!(
        project_file::detect_category(&format!("{}AddControllersWithViews", web)),
        "WebApp (MVC/Pages)"
    );
    assert_eq!(
        project_file::detect_category(&format!("{}AddMvc MapControllers", web)),
        "WebApp (MVC/Pages)"
    );
    assert_eq!(
        project_file::detect_category("<Project Sdk=\"Microsoft.NET.Sdk.Worker\">"),
        "Worker"
    );
    let exe = "<OutputType>Exe</OutputType>";
    assert_eq!(project_file::detect_category(exe), "ConsoleApp");
    assert_eq!(project_file::detect_category(&format!("{}<UseMaui>", exe)), "NativeApp");
    assert_eq!(project_file::detect_category(&format!("{}<UseWindowsForms>", exe)), "NativeApp");
    assert_eq!(project_file::detect_category(&format!("{}<UseWPF>", exe)), "NativeApp");
    assert_eq!(project_file::detect_category("<OutputType>WinExe</OutputType>"), "Library");
    assert_eq!(project_file::detect_category("AddControllers UseWPF"), "Library");
    assert_eq!(project_file::detect_category(""), "Library");
}

#[test]
fn web_goes_before_worker_and_worker_before_program() {
    let worker = "Sdk=\"Microsoft.NET.Sdk.Worker\" <OutputType>Exe</OutputType>";
    assert_eq!(project_file::detect_category(worker), "Worker");
    let web = format!("{} Sdk=\"Microsoft.NET.Sdk.Web\"", worker);
    assert_eq!(project_file::detect_category(&web), "WebApp");
}

#[test]
fn common_frameworks() {
    let six = "<TargetFramework>net6.0</TargetFramework>";
    let eight = "<TargetFramework>net8.0</TargetFramework>";
    assert_eq!(project_file::detect_target_framework(six), Some("net6.0".to_string()));
    assert_eq!(
        project_file::detect_target_framework(&format!("{}{}", six, eight)),
        Some("net8.0".to_string())
    );
    assert_eq!(project_file::common_framework("net8.0"), None);
    for version in ["net9.0", "net8.0", "net7.0", "net6.0"] {
        let element = format!("<TargetFramework>{}</TargetFramework>", version);
        assert_eq!(project_file::common_framework(&element), Some(version.to_string()));
    }
}

#[test]
fn other_frameworks() {
    assert_eq!(
        project_file::detect_target_framework(
            "<TargetFramework>net48</TargetFramework><TargetFramework>net5.0</TargetFramework>"
        ),
        Some("net48".to_string())
    );
    assert_eq!(
        project_file::detect_target_framework("<TargetFramework></TargetFramework>"),
        Some("".to_string())
    );
    assert_eq!(
        project_file::detect_target_framework("<TargetFrameworks>net8.0</TargetFrameworks>"),
        None
    );
    assert_eq!(
        project_file::detect_target_framework("<TargetFramework>a\nb</TargetFramework>"),
        None
    );
}

#[test]
fn tags() {
    assert_eq!(project_file::project_tags("a.csproj", None), vec![".NET", "C#"]);
    assert_eq!(
        project_file::project_tags("a.fsproj", Some("net8.0".to_string())),
        vec![".NET", "F#", "net8.0"]
    );
}
