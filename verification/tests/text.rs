use dotnet_plugin::text;
use dotnet_plugin::text::Edge;

#[test]
fn contains_finds_text_anywhere() {
    assert!(text::contains("abcabd", "abd"));
    assert!(text::contains("abc", "abc"));
    assert!(text::contains("abc", ""));
    assert!(text::contains("", ""));
    assert!(!text::contains("", "a"));
    assert!(!text::contains("ab", "abc"));
    assert!(!text::contains("aab", "ba"));
    assert!(text::contains("gr\u{fc}n \u{1f600}!", "\u{1f600}"));
}

#[test]
fn ends_of_text() {
    assert!(text::starts_with("[HttpGet]", "["));
    assert!(!text::starts_with("", "["));
    assert!(text::ends_with("App.csproj", ".csproj"));
    assert!(!text::ends_with("App.CSPROJ", ".csproj"));
    assert!(!text::ends_with("proj", ".csproj"));
    assert!(text::ends_with("x", ""));
}

#[test]
fn equal_texts() {
    assert!(text::equals("WebAPI", "WebAPI"));
    assert!(text::equals("", ""));
    assert!(!text::equals("WebAPI", "WebApp"));
    assert!(!text::equals("Web", "WebApp"));
}

#[test]
fn prefix_is_removed_once() {
    assert_eq!(text::strip_prefix("HttpGet", "Http"), "Get");
    assert_eq!(text::strip_prefix("HttpHttpGet", "Http"), "HttpGet");
    assert_eq!(text::strip_prefix("Get", "Http"), "Get");
}

#[test]
fn suffix_is_removed_as_often_as_it_stands() {
    assert_eq!(text::trim_end_matches("a.cshtml.cs", ".cshtml.cs"), "a");
    assert_eq!(text::trim_end_matches("a.cshtml.cs.cshtml.cs", ".cshtml.cs"), "a");
    assert_eq!(text::trim_end_matches("a.CSHTML.CS", ".cshtml.cs"), "a.CSHTML.CS");
    assert_eq!(text::trim_end_matches(".cshtml.cs", ".cshtml.cs"), "");
    assert_eq!(text::trim_end_matches("abc", ""), "abc");
}

#[test]
fn every_character_is_replaced() {
    assert_eq!(text::replace_char("a\\b\\\\c", '\\', '/'), "a/b//c");
    assert_eq!(text::replace_char("", '\\', '/'), "");
}

#[test]
fn white_space_is_that_of_unicode() {
    for code in 0u32..=0x10ffff {
        if let Some(c) = char::from_u32(code) {
            assert_eq!(Edge::WhiteSpace.removes(c), c.is_whitespace());
            assert_eq!(Edge::Slash.removes(c), c == '/');
        }
    }
}

#[test]
fn trimming() {
    assert_eq!(text::trim(Edge::WhiteSpace, " \t a b \u{3000}\r\n"), "a b");
    assert_eq!(text::trim(Edge::WhiteSpace, " \t "), "");
    assert_eq!(text::trim(Edge::Slash, "//a/b/"), "a/b");
    assert_eq!(text::trim(Edge::Slash, "/"), "");
    assert_eq!(text::trim(Edge::Slash, " /a"), " /a");
}

#[test]
fn lines_are_those_of_a_string() {
    let samples = [
        "", "a", "a\n", "a\nb", "a\r\nb\r\n", "\n\n", "a\r", "a\r\r\nb", "\r\n", "\r", "a\n\nb\n",
        "\u{e4}\u{f6}\n\u{1f600}\r\nx",
    ];
    for sample in samples {
        let expected: Vec<String> = sample.lines().map(|line| line.to_string()).collect();
        assert_eq!(text::lines(sample), expected);
    }
    assert_eq!(text::lines("a\r\nb\n\nc\r"), vec!["a", "b", "", "c\r"]);
}

#[test]
fn lines_hold_no_line_feed() {
    for line in text::lines("one\ntwo\r\n\nthree") {
        assert!(!line.contains('\n'));
    }
}
