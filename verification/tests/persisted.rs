use mitre_assistant::classifier::clean;
use mitre_assistant::normalizer::{is_white_space, trim_trailing};
use mitre_assistant::persisted::{category_field, counter_name, join_names, part_names};

fn owned(items: &[&str]) -> Vec<String> {
    items.iter().map(|s| s.to_string()).collect()
}

#[test]
fn lists_of_names_are_joined_by_bars() {
    assert_eq!(join_names(&owned(&[])), "none");
    assert_eq!(join_names(&owned(&["linux"])), "linux");
    assert_eq!(join_names(&owned(&["linux", "macos", "windows"])), "linux|macos|windows");
    assert_eq!(join_names(&owned(&["", ""])), "|");
    assert_eq!(join_names(&owned(&[""])), "");
}

#[test]
fn persisted_lists_are_cut_at_the_bars() {
    assert_eq!(part_names("none"), owned(&[]));
    assert_eq!(part_names(""), owned(&[]));
    assert_eq!(part_names("linux"), owned(&["linux"]));
    assert_eq!(part_names("linux|macos|windows"), owned(&["linux", "macos", "windows"]));
    assert_eq!(part_names("|"), owned(&["", ""]));
    assert_eq!(part_names("None"), owned(&["None"]));
}

#[test]
fn what_was_joined_reads_back() {
    let lists: Vec<Vec<String>> = vec![
        owned(&[]),
        owned(&["a"]),
        owned(&["a", "b"]),
        owned(&["none", "none"]),
        owned(&["", "x", ""]),
        owned(&["process-monitoring", "file-monitoring", "windows-registry"]),
    ];
    for list in lists.iter() {
        assert_eq!(&part_names(&join_names(list)), list);
    }
    // the two lists that do not read back, and a name with a bar
    assert_eq!(part_names(&join_names(&owned(&[""]))), owned(&[]));
    assert_eq!(part_names(&join_names(&owned(&["none"]))), owned(&[]));
    assert_eq!(part_names(&join_names(&owned(&["a|b"]))), owned(&["a", "b"]));
}

#[test]
fn counters_have_their_persisted_names() {
    assert_eq!(category_field("aws"), "aws");
    assert_eq!(category_field("azure-ad"), "azure_ad");
    assert_eq!(category_field("office-365"), "office365");
    assert_eq!(category_field("command-and-control"), "command_and_control");
    assert_eq!(category_field(""), "");
    assert_eq!(counter_name("count", "techniques", "aws"), "count_techniques_aws");
    assert_eq!(
        counter_name("percent", "subtechniques", "office-365"),
        "percent_subtechniques_office365"
    );
    assert_eq!(
        counter_name("count", "subtechniques", "privilege-escalation"),
        "count_subtechniques_privilege_escalation"
    );
}

#[test]
fn whitespace_is_what_the_standard_library_takes_for_it() {
    let mut count = 0;
    for code in 0..=0x10FFFFu32 {
        if let Some(c) = char::from_u32(code) {
            assert_eq!(is_white_space(c), c.is_whitespace(), "U+{:04X}", code);
            if c.is_whitespace() {
                count += 1;
            }
        }
    }
    assert_eq!(count, 25);
}

#[test]
fn trailing_whitespace_is_taken_off() {
    assert_eq!(trim_trailing("stats  \n"), "stats");
    assert_eq!(trim_trailing("  a b \t\r\n"), "  a b");
    assert_eq!(trim_trailing(""), "");
    assert_eq!(trim_trailing(" \u{3000}\u{a0}"), "");
    assert_eq!(trim_trailing("x\u{200b}"), "x\u{200b}");
    assert_eq!(trim_trailing("x\u{2003}\u{85}"), "x");
    for code in 0..=0x10FFFFu32 {
        if let Some(c) = char::from_u32(code) {
            let text = format!("a{}b{}{}", c, c, c);
            assert_eq!(trim_trailing(&text), text.trim_end());
        }
    }
}

#[test]
fn a_term_is_cleaned_of_trailing_whitespace_and_case() {
    assert_eq!(clean("STATS \n"), "stats");
    assert_eq!(clean(" T1059.001\t"), " t1059.001");
    assert_eq!(clean("Data Obfuscation"), "data obfuscation");
    assert_eq!(clean(""), "");
    for s in ["Lateral Movement  ", "ÉCOLE\u{a0}", "x, Y ,Z\r\n"] {
        assert_eq!(clean(s), s.trim_end().to_lowercase());
    }
}
