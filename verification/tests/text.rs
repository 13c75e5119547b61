use backstitch::history::{ChangeHash, DocumentId};
use backstitch::lists::reversed;
use backstitch::paths::{get_extension, get_file_name, get_file_stem};
use backstitch::text::{
    after_last, begins_with, chars_of, cut, decimal_text, find_char, has_text, joined, joined3,
    list_has, same_optional_text, same_text, signed_decimal_text, string_between, string_of,
    trimmed, white_space, with_replaced, without_first,
};
use backstitch::utils::{
    age_text, exact_human_readable_timestamp, get_summary_text, human_readable_timestamp,
    locale_from_system, locale_of, summarize_changes, time_text, ChangeType, ChangedFile,
    CommitMetadata, MergeMetadata, FIRST_SECOND, LAST_SECOND,
};

fn changed(change_type: ChangeType, path: &str) -> ChangedFile {
    ChangedFile { change_type, path: path.to_string() }
}

#[test]
fn ages_are_rounded_down() {
    assert_eq!(age_text(-5).unwrap(), "-5s ago");
    assert_eq!(age_text(0).unwrap(), "0s ago");
    assert_eq!(age_text(59).unwrap(), "59s ago");
    assert_eq!(age_text(60).unwrap(), "1m ago");
    assert_eq!(age_text(3599).unwrap(), "59m ago");
    assert_eq!(age_text(3600).unwrap(), "1h ago");
    assert_eq!(age_text(86399).unwrap(), "23h ago");
    assert_eq!(age_text(86400).unwrap(), "1d ago");
    assert_eq!(age_text(9 * 86400 - 1).unwrap(), "8d ago");
    assert!(age_text(9 * 86400).is_none());
}

#[test]
fn old_times_are_written_as_dates() {
    let long = 10 * 86400;
    assert_eq!(time_text(0, 5, 0, "en_US").unwrap(), "5s ago");
    assert_eq!(time_text(0, long, 0, "en_US").unwrap(), "01/01/1970");
    assert_eq!(time_text(0, long, -3600, "en_US").unwrap(), "12/31/1969");
    assert_eq!(time_text(0, long, 0, "de_DE").unwrap(), "01.01.1970");
    assert!(time_text(0, long, 0, "nowhere").is_none());
    assert!(time_text(LAST_SECOND + 1, long, 0, "en_US").is_none());
    assert!(time_text(LAST_SECOND, long, 0, "en_US").is_some());
    assert!(time_text(FIRST_SECOND, long, 0, "en_US").is_some());
    assert!(time_text(FIRST_SECOND - 1, long, 0, "en_US").is_none());
}

#[test]
fn language_tags_become_locales() {
    assert_eq!(locale_of(Some("de-DE")), "de_DE");
    assert_eq!(locale_of(Some("de-DE.UTF-8")), "de_DE");
    assert_eq!(locale_of(Some("nowhere")), "en_US");
    assert_eq!(locale_of(None), "en_US");
    assert!(!locale_from_system().is_empty());
}

#[test]
fn times_are_shown() {
    let long_ago = exact_human_readable_timestamp(86_400_000 * 2).unwrap();
    assert!(long_ago.starts_with("1970-01-0"));
    assert_eq!(long_ago.len(), "1970-01-03 00:00:00".len());
    assert!(exact_human_readable_timestamp(i64::MAX).is_none());
    assert!(exact_human_readable_timestamp(LAST_SECOND * 1000).is_some());
    assert!(human_readable_timestamp(0).is_some());
    assert!(human_readable_timestamp(4_102_444_800_000).unwrap().starts_with('-'));
    assert!(human_readable_timestamp(i64::MIN).is_none());
}

#[test]
fn changes_are_summed_up() {
    let one = vec![changed(ChangeType::Added, "res://a.txt")];
    assert_eq!(summarize_changes("Ada", &one), "Ada added a.txt");
    let two = vec![changed(ChangeType::Modified, "res://a.txt"), changed(ChangeType::Modified, "res://b.txt")];
    assert_eq!(summarize_changes("Ada", &two), "Ada edited 2 files");
    let removed = vec![changed(ChangeType::Removed, "res://a.txt")];
    assert_eq!(summarize_changes("Ada", &removed), "Ada removed a.txt");
    let mixed = vec![changed(ChangeType::Added, "res://a.txt"), changed(ChangeType::Removed, "res://b.txt")];
    assert_eq!(summarize_changes("Ada", &mixed), "Ada added a.txt and removed b.txt");
    let all = vec![
        changed(ChangeType::Added, "res://a.txt"),
        changed(ChangeType::Removed, "res://b.txt"),
        changed(ChangeType::Modified, "res://c.txt"),
    ];
    assert_eq!(summarize_changes("Ada", &all), "Ada made some changes");
    assert_eq!(summarize_changes("Ada", &Vec::new()), "Ada made some changes");
    assert_eq!(get_summary_text(&two, ChangeType::Modified, Some("touched")), "touched 2 files");
    assert_eq!(ChangeType::Added.to_text(), "added");
}

#[test]
fn commits_hold_what_was_merged() {
    let merge = MergeMetadata {
        merged_branch_id: DocumentId { bytes: [1; 16] },
        forked_at_heads: vec![ChangeHash { bytes: [2; 32] }],
    };
    let commit = CommitMetadata {
        username: Some("Ada".to_string()),
        branch_id: None,
        merge_metadata: Some(merge),
        reverted_to: None,
        changed_files: None,
        is_setup: Some(true),
    };
    assert!(commit.merge_metadata.unwrap().merged_branch_id.same(&DocumentId { bytes: [1; 16] }));
}

#[test]
fn paths_have_names() {
    assert_eq!(get_file_name("res://d/a.tar.gz").unwrap(), "a.tar.gz");
    assert_eq!(get_extension("res://d/a.tar.gz").unwrap(), "gz");
    assert_eq!(get_file_stem("res://d/a.tar.gz").unwrap(), "a.tar");
    assert_eq!(get_file_name("d/./").unwrap(), "d");
    assert!(get_file_name("d/..").is_none());
    assert!(get_file_name("/").is_none());
    assert!(get_file_name(".").is_none());
    assert!(get_extension("d/.hidden").is_none());
    assert_eq!(get_file_stem("d/.hidden").unwrap(), ".hidden");
    assert_eq!(get_extension("d/a.").unwrap(), "");
}

#[test]
fn texts_are_taken_apart() {
    let v = chars_of("a/b/\u{e4}");
    assert_eq!(v.len(), 5);
    assert_eq!(string_of(&v), "a/b/\u{e4}");
    assert_eq!(string_between(&v, 2, 3), "b");
    assert_eq!(cut(&v, 1, 3), vec!['/', 'b']);
    assert_eq!(find_char(&v, '/', 2), 3);
    assert_eq!(find_char(&v, 'x', 0), 5);
    assert_eq!(after_last(&v, '/'), 4);
    assert_eq!(after_last(&v, 'x'), 0);
    assert_eq!(trimmed(&chars_of(" \t a b\n")), chars_of("a b"));
    assert!(white_space('\u{a0}') && !white_space('a'));
    assert!(has_text("abc", "bc") && !has_text("abc", "cb") && has_text("abc", ""));
    assert!(begins_with("abc", "ab") && !begins_with("abc", "b"));
    assert_eq!(without_first("\u{e4}bc", 1), "bc");
}

#[test]
fn texts_are_put_together() {
    assert_eq!(joined("a", "b"), "ab");
    assert_eq!(joined3("a", "", "c"), "ac");
    assert_eq!(with_replaced("a-b-c", '-', "_"), "a_b_c");
    assert_eq!(decimal_text(0), "0");
    assert_eq!(decimal_text(u64::MAX), "18446744073709551615");
    assert_eq!(signed_decimal_text(i64::MIN), "-9223372036854775808");
    assert_eq!(signed_decimal_text(12), "12");
    assert!(same_text("a", "a") && !same_text("a", "b"));
    assert!(same_optional_text(&None, &None));
    assert!(!same_optional_text(&Some("a".to_string()), &None));
    assert!(list_has(&vec!["a".to_string()], "a") && !list_has(&Vec::new(), "a"));
    assert_eq!(reversed(vec![1, 2, 3]), vec![3, 2, 1]);
}
