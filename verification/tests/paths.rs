use mitre_assistant::paths::{
    config_folder, config_path, exit_message, open_mode, remove_all, strip_input, OpenMode,
};

fn with_std(input: &str) -> String {
    let mut s = String::from(input);
    if input.ends_with(r"\r\n") {
        s = s.replace("\r\n", "");
    }
    if input.ends_with(r"\r") {
        s = s.replace(r"\r", "");
    }
    if input.ends_with(r"\n") {
        s = s.replace(r"\n", "");
    }
    s
}

#[test]
fn typed_line_ends_are_taken_off_a_path() {
    assert_eq!(strip_input("foo"), "foo");
    assert_eq!(strip_input(r"foo\r"), "foo");
    assert_eq!(strip_input(r"foo\n"), "foo");
    assert_eq!(strip_input(r"a\nb\n"), "ab");
    assert_eq!(strip_input("foo\r\n"), "foo\r\n");
    assert_eq!(strip_input("x\r\ny\\r\\n"), r"xy\r");
    assert_eq!(strip_input(""), "");
    assert_eq!(strip_input(r"\n"), "");
}

#[test]
fn path_cleaning_agrees_with_the_standard_replace() {
    let samples = [
        "",
        "plain/path.txt",
        r"C:\new\folder\r",
        r"C:\new\folder\n",
        r"C:\new\folder\r\n",
        "a\r\nb\r\n\\r\\n",
        r"\r\r\r",
        r"\\n",
        r"\\\n",
        "been\\rthere\\r",
        "é\\n\\né\\n",
        "\r\n",
    ];
    for s in samples.iter() {
        assert_eq!(strip_input(s), with_std(s));
    }
}

#[test]
fn occurrences_are_removed_from_the_left() {
    let chars = |s: &str| s.chars().collect::<Vec<char>>();
    assert_eq!(remove_all(&chars("aaa"), &chars("aa")), chars("a"));
    assert_eq!(remove_all(&chars("abab"), &chars("ab")), chars(""));
    assert_eq!(remove_all(&chars("aabb"), &chars("ab")), chars("ab"));
    assert_eq!(remove_all(&chars("abc"), &chars("")), chars("abc"));
    assert_eq!(remove_all(&chars("ab"), &chars("abc")), chars("ab"));
    for (s, p) in [("aaa", "aa"), ("abab", "ab"), ("aabb", "ab"), ("xaxbxax", "xa"), ("", "a")] {
        assert_eq!(remove_all(&chars(s), &chars(p)), chars(&s.replace(p, "")));
    }
}

#[test]
fn exit_notice_has_a_rule_as_wide_as_the_message() {
    assert_eq!(
        exit_message("Info", "Foo Sucks"),
        "\n    (?) Info | Process Exiting Due To:\n    ---------\n    Foo Sucks\n    "
    );
    assert_eq!(
        exit_message("Warn", ""),
        "\n    (?) Warn | Process Exiting Due To:\n    \n    \n    "
    );
    // the rule is as wide as the message has bytes
    assert_eq!(
        exit_message("e", "é"),
        "\n    (?) e | Process Exiting Due To:\n    --\n    é\n    "
    );
    let level = "Error";
    let msg = "Low Memory";
    let dashes = "-".repeat(msg.len());
    let expected = format!(
        r#"
    (?) {} | Process Exiting Due To:
    {}
    {}
    "#,
        level, dashes, msg
    );
    assert_eq!(exit_message(level, msg), expected);
}

#[test]
fn each_mode_has_its_way_of_opening() {
    let mode = |read, write, create, append, must_exist| {
        Some(OpenMode { read, write, create, append, must_exist })
    };
    assert_eq!(open_mode("r"), mode(true, false, false, false, true));
    assert_eq!(open_mode("rw"), mode(true, true, false, false, true));
    assert_eq!(open_mode("crw"), mode(false, true, true, false, false));
    assert_eq!(open_mode("cra"), mode(false, true, false, true, true));
    assert_eq!(open_mode("crt"), mode(false, true, false, false, true));
    assert_eq!(open_mode("w"), None);
    assert_eq!(open_mode(""), None);
    assert_eq!(open_mode("R"), None);
}

#[test]
fn paths_lie_under_the_folder_of_the_assistant() {
    assert_eq!(config_folder("/home/u", None), "/home/u/.mitre-assistant");
    assert_eq!(config_folder("/home/u", Some("matrixes")), "/home/u/.mitre-assistant/matrixes");
    assert_eq!(
        config_path("/home/u", "baselines", "baseline-enterprise.json"),
        "/home/u/.mitre-assistant/baselines/baseline-enterprise.json"
    );
    assert_eq!(config_path("", "", ""), "/.mitre-assistant//");
}
