use mitre_assistant::keyed::insert_keyed;
use mitre_assistant::lex::Rank;
use mitre_assistant::normalizer::{hyphenate, normalize, normalize_all};
use mitre_assistant::scan::{contains, has_char, split, starts_with};
use mitre_assistant::stats::get_percentage;
use mitre_assistant::text::{chars_of, rank_lists, rank_text, same_text};

fn owned(items: &[&str]) -> Vec<String> {
    items.iter().map(|s| s.to_string()).collect()
}

#[test]
fn dictionary_order_of_texts() {
    assert_eq!(rank_text("abc", "abd"), Rank::Before);
    assert_eq!(rank_text("abc", "abc"), Rank::Same);
    assert_eq!(rank_text("b", "abc"), Rank::After);
    assert_eq!(rank_text("", "a"), Rank::Before);
    assert_eq!(rank_text("ab", "a"), Rank::After);
    assert_eq!(rank_text("T1001", "T1001.001"), Rank::Before);
    assert_eq!(rank_text("", ""), Rank::Same);
}

#[test]
fn dictionary_order_agrees_with_the_order_of_strings() {
    let samples = ["", "a", "A", "ab", "b", "T1001", "T1001.001", "é", "z", "タ"];
    for x in samples.iter() {
        for y in samples.iter() {
            let expected = match x.cmp(y) {
                std::cmp::Ordering::Less => Rank::Before,
                std::cmp::Ordering::Equal => Rank::Same,
                std::cmp::Ordering::Greater => Rank::After,
            };
            assert_eq!(rank_text(x, y), expected);
        }
    }
}

#[test]
fn dictionary_order_of_lists() {
    assert_eq!(rank_lists(&owned(&["a", "b"]), &owned(&["a", "c"])), Rank::Before);
    assert_eq!(rank_lists(&owned(&["a"]), &owned(&["a", "c"])), Rank::Before);
    assert_eq!(rank_lists(&owned(&["a", "c"]), &owned(&["a", "c"])), Rank::Same);
    assert_eq!(rank_lists(&owned(&["b"]), &owned(&["a", "c"])), Rank::After);
    assert_eq!(rank_lists(&owned(&[]), &owned(&[])), Rank::Same);
}

#[test]
fn characters_of_a_text() {
    assert_eq!(chars_of("aé"), vec!['a', 'é']);
    assert_eq!(chars_of(""), Vec::<char>::new());
    assert!(same_text("stats", "stats"));
    assert!(!same_text("stats", "stat"));
}

#[test]
fn substring_and_prefix() {
    assert!(contains("hello world", "lo w"));
    assert!(contains("hello", ""));
    assert!(contains("", ""));
    assert!(!contains("", "a"));
    assert!(!contains("hello", "world"));
    assert!(contains("aab", "ab"));
    assert!(starts_with("T1001.001", "T1001"));
    assert!(!starts_with("T1001", "T1001.001"));
    assert!(starts_with("abc", ""));
    assert!(has_char("a,b", ','));
    assert!(!has_char("ab", ','));
}

#[test]
fn split_cuts_at_every_separator() {
    assert_eq!(split("a,b,c", ','), owned(&["a", "b", "c"]));
    assert_eq!(split("abc", ','), owned(&["abc"]));
    assert_eq!(split("", ','), owned(&[""]));
    assert_eq!(split(",a,", ','), owned(&["", "a", ""]));
    assert_eq!(split("windows:process-monitoring", ':'), owned(&["windows", "process-monitoring"]));
}

#[test]
fn normalize_lowers_and_hyphenates() {
    assert_eq!(normalize("Process Monitoring"), "process-monitoring");
    assert_eq!(normalize("Windows"), "windows");
    assert_eq!(normalize("A/B c"), "a-b-c");
    assert_eq!(normalize(""), "");
    assert_eq!(normalize("Office 365"), "office-365");
    assert_eq!(hyphenate("A b/c"), "A-b-c");
    assert_eq!(
        normalize_all(&owned(&["Azure AD", "SaaS"])),
        owned(&["azure-ad", "saas"])
    );
}

#[test]
fn normalize_is_idempotent_on_samples() {
    for s in ["Process Monitoring", "a/b", "ÉCOLE Normale", "", "Σίσυφος ΟΣ/x", "İstanbul A"] {
        let once = normalize(s);
        assert_eq!(normalize(&once), once);
    }
}

#[test]
fn percentage_of_nothing_is_zero_percent() {
    assert_eq!(get_percentage(0, 0), "0%");
    assert_eq!(get_percentage(0, 5), "0%");
}

#[test]
fn percentage_is_rounded_down() {
    assert_eq!(get_percentage(200, 50), "25%");
    assert_eq!(get_percentage(3, 1), "33%");
    assert_eq!(get_percentage(3, 2), "66%");
    assert_eq!(get_percentage(4, 4), "100%");
    assert_eq!(get_percentage(7, 0), "0%");
    assert_eq!(get_percentage(2, 3), "150%");
    assert_eq!(get_percentage(usize::MAX, usize::MAX), "100%");
    assert_eq!(get_percentage(1000, 1007), "100%");
    assert_eq!(get_percentage(1, 1234), "123400%");
}

#[test]
fn sorted_insertion_keeps_order_and_drops_repeats() {
    let mut v: Vec<String> = Vec::new();
    assert_eq!(insert_keyed(&mut v, "b".to_string()), Some(0));
    assert_eq!(insert_keyed(&mut v, "a".to_string()), Some(0));
    assert_eq!(insert_keyed(&mut v, "c".to_string()), Some(2));
    assert_eq!(insert_keyed(&mut v, "b".to_string()), None);
    assert_eq!(v, owned(&["a", "b", "c"]));
    let mut pairs: Vec<(String, String)> = Vec::new();
    insert_keyed(&mut pairs, ("T2".to_string(), "x".to_string()));
    insert_keyed(&mut pairs, ("T1".to_string(), "z".to_string()));
    insert_keyed(&mut pairs, ("T1".to_string(), "a".to_string()));
    insert_keyed(&mut pairs, ("T1".to_string(), "z".to_string()));
    assert_eq!(
        pairs,
        vec![
            ("T1".to_string(), "a".to_string()),
            ("T1".to_string(), "z".to_string()),
            ("T2".to_string(), "x".to_string())
        ]
    );
}

fn next(seed: &mut u64) -> u64 {
    *seed = seed.wrapping_mul(6364136223846793005).wrapping_add(1442695040888963407);
    *seed >> 33
}

fn word(seed: &mut u64, alphabet: &[char], longest: u64) -> String {
    let len = next(seed) % (longest + 1);
    (0..len).map(|_| alphabet[(next(seed) % alphabet.len() as u64) as usize]).collect()
}

#[test]
fn scanning_agrees_with_the_standard_library_on_many_texts() {
    let mut seed = 7u64;
    let alphabet = ['a', 'b', ',', 'é'];
    for _ in 0..3000 {
        let hay = word(&mut seed, &alphabet, 8);
        let needle = word(&mut seed, &alphabet, 3);
        assert_eq!(contains(&hay, &needle), hay.contains(needle.as_str()), "{:?} {:?}", hay, needle);
        assert_eq!(starts_with(&hay, &needle), hay.starts_with(needle.as_str()));
        let pieces: Vec<String> = hay.split(',').map(|s| s.to_string()).collect();
        assert_eq!(split(&hay, ','), pieces);
        assert_eq!(has_char(&hay, ','), hay.contains(','));
    }
}

#[test]
fn sorted_insertion_agrees_with_sort_and_dedup_on_many_lists() {
    let mut seed = 11u64;
    let alphabet = ['a', 'b', 'T', '1', '.'];
    for _ in 0..300 {
        let count = next(&mut seed) % 12;
        let items: Vec<String> = (0..count).map(|_| word(&mut seed, &alphabet, 4)).collect();
        let mut expected = items.clone();
        expected.sort();
        expected.dedup();
        let mut set: Vec<String> = Vec::new();
        for item in items.iter() {
            insert_keyed(&mut set, item.clone());
        }
        assert_eq!(set, expected);
    }
}
