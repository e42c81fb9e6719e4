//! The text and ordering functions the rest of the library stands on.
use proxmoxmcp::guests::exec_output_from;
use proxmoxmcp::order::{sort_sized, sort_texts, text_at_most};
use proxmoxmcp::selector::GuestType;
use proxmoxmcp::server::read::keep_type;
use proxmoxmcp::text::{
    begins_with, decimal_text, includes_text, join_texts, lower_text, read_u32, split_text,
    split_text_once, text_after_last, trim_text, trim_text_end_char,
};

fn owned(words: &[&str]) -> Vec<String> {
    words.iter().map(|w| w.to_string()).collect()
}

#[test]
fn a_written_number_is_read_back() {
    for n in [0u32, 1, 9, 10, 255, 4096, u32::MAX] {
        assert_eq!(decimal_text(n as u64), n.to_string());
        assert_eq!(read_u32(&n.to_string()), Some(n));
    }
    assert_eq!(decimal_text(u64::MAX), u64::MAX.to_string());
}

#[test]
fn texts_sort_as_the_standard_library_sorts_them() {
    let words = owned(&["b", "", "ab", "a", "é", "z", "A", "ab", "\u{10000}", "\u{ffff}"]);
    let mut expected = words.clone();
    expected.sort();
    assert_eq!(sort_texts(&words), expected);
    let mut reversed = words.clone();
    reversed.reverse();
    assert_eq!(sort_texts(&reversed), expected);
    assert!(text_at_most("ab", "ab"));
    assert!(text_at_most("a", "ab"));
    assert!(!text_at_most("b", "ab"));
}

#[test]
fn sized_texts_sort_by_text_and_size() {
    let disks = vec![
        ("scsi1".to_string(), 2u64),
        ("scsi0".to_string(), 9),
        ("scsi1".to_string(), 1),
    ];
    let mut expected = disks.clone();
    expected.sort();
    assert_eq!(sort_sized(&disks), expected);
    let mut reversed = disks.clone();
    reversed.reverse();
    assert_eq!(sort_sized(&reversed), expected);
}

#[test]
fn texts_split_and_join() {
    assert_eq!(split_text("a;b;;c", ';'), owned(&["a", "b", "", "c"]));
    assert_eq!(split_text("", ';'), owned(&[""]));
    assert_eq!(join_texts(&owned(&["a", "b", "", "c"]), ";"), "a;b;;c");
    assert_eq!(join_texts(&Vec::new(), ";"), "");
    assert_eq!(
        split_text_once("a://b://c", "://"),
        Some(("a".to_string(), "b://c".to_string()))
    );
    assert_eq!(split_text_once("abc", "://"), None);
    assert_eq!(text_after_last("user@host@box", '@'), "box");
    assert_eq!(text_after_last("box", '@'), "box");
}

#[test]
fn texts_are_trimmed_and_lowered() {
    assert_eq!(trim_text(" \t a b \n\u{a0}"), "a b");
    assert_eq!(trim_text(" \t\n"), "");
    assert_eq!(trim_text_end_char("https://h//", '/'), "https://h");
    assert_eq!(lower_text("HookScript0É"), "hookscript0É");
    assert!(begins_with("/dev/sda", "/"));
    assert!(!begins_with("", "/"));
    assert!(includes_text("a..b", ".."));
    assert!(!includes_text("a.b", ".."));
}

#[test]
fn only_entries_of_the_type_are_kept() {
    let entries = vec![
        (Some("qemu".to_string()), "{\"vmid\":1}".to_string()),
        (Some("lxc".to_string()), "{\"vmid\":2}".to_string()),
        (None, "{\"vmid\":3}".to_string()),
        (Some("qemu".to_string()), "{\"vmid\":4}".to_string()),
    ];
    assert_eq!(keep_type(&entries, GuestType::Qemu), "[{\"vmid\":1},{\"vmid\":4}]");
    assert_eq!(keep_type(&entries, GuestType::Lxc), "[{\"vmid\":2}]");
    assert_eq!(keep_type(&Vec::new(), GuestType::Lxc), "[]");
}

#[test]
fn absent_status_fields_are_empty_and_unset() {
    let absent = exec_output_from(None, None, None, None, None, None);
    assert!(!absent.exited);
    assert_eq!(absent.exit_code, None);
    assert_eq!(absent.stdout, "");
    assert_eq!(absent.stderr, "");
    assert!(!absent.truncated);
    let given = exec_output_from(
        Some(true),
        Some(3),
        Some("out".to_string()),
        Some("err".to_string()),
        Some(false),
        Some(true),
    );
    assert!(given.exited);
    assert_eq!(given.exit_code, Some(3));
    assert_eq!(given.stdout, "out");
    assert_eq!(given.stderr, "err");
    assert!(given.truncated);
}
