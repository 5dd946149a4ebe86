//! Texts, paths, maps and dialogues.

use openshell_vm::dialogue::Dialogue;
use openshell_vm::order::sorted_texts;
use openshell_vm::paths::{file_name, join_path, parent, with_extension, with_file_name};
use openshell_vm::sysfs::{SysfsDialogue, SysfsReply, SysfsRequest, SysfsRoot};
use openshell_vm::text::{
    contains, decimal_text, ends_with, join, parse_unsigned, replace_char, signed_decimal_text,
    split, stands_before, starts_with, trim,
};
use openshell_vm::text_map::TextMap;

#[test]
fn numbers_are_shown_and_read_back() {
    for n in [0, 7, 10, 4294967295, u64::MAX] {
        assert_eq!(decimal_text(n), n.to_string());
        assert_eq!(parse_unsigned(&n.to_string(), u64::MAX), Some(n));
    }
    assert_eq!(signed_decimal_text(i32::MIN), "-2147483648");
    assert_eq!(signed_decimal_text(0), "0");
    assert_eq!(parse_unsigned("+12", 100), Some(12));
    for bad in ["", "+", "-1", "1a", " 1", "101"] {
        assert_eq!(parse_unsigned(bad, 100), None);
    }
}

#[test]
fn texts_are_taken_apart_and_put_together() {
    assert_eq!(trim(" \t a b\n\u{a0}"), "a b");
    assert_eq!(trim("\u{2003}"), "");
    let blank: Vec<u32> = (0..=0x10_ffff)
        .filter(|code| char::from_u32(*code).is_some_and(|c| trim(&c.to_string()).is_empty()))
        .collect();
    let expected = vec![
        0x9, 0xa, 0xb, 0xc, 0xd, 0x20, 0x85, 0xa0, 0x1680, 0x2000, 0x2001, 0x2002, 0x2003, 0x2004,
        0x2005, 0x2006, 0x2007, 0x2008, 0x2009, 0x200a, 0x2028, 0x2029, 0x202f, 0x205f, 0x3000,
    ];
    assert_eq!(blank, expected);
    let spaces = "\u{9}\u{a}\u{b}\u{c}\u{d} \u{85}\u{a0}\u{1680}\u{2000}\u{200a}\u{2028}\u{2029}\
                  \u{202f}\u{205f}\u{3000}";
    assert_eq!(trim(&format!("{spaces}\u{200b}{spaces}")), "\u{200b}");
    assert_eq!(split("a::b", ':'), vec!["a", "", "b"]);
    assert_eq!(split("", ':'), vec![""]);
    for text in ["", ":", "a::b", "80:8080", ":a:"] {
        assert_eq!(join(&split(text, ':'), ":"), text);
    }
    assert_eq!(join(&vec!["a".to_string(), "b".to_string()], ", "), "a, b");
    assert_eq!(replace_char("a'b'", '\'', "''"), "a''b''");
    assert!(contains("abcabd", "abd") && !contains("abc", "abd") && contains("a", ""));
    assert!(starts_with("cärd0", "cä") && !starts_with("c", "card"));
    assert!(ends_with("a/b", "/b") && !ends_with("b", "/b"));
}

#[test]
fn order_is_that_of_the_standard_library() {
    let words = ["b", "", "ab", "a", "Ä", "\u{1f600}", "\u{ffff}", "b"];
    for x in words {
        for y in words {
            assert_eq!(stands_before(x, y), x < y, "{x:?} {y:?}");
        }
    }
    let list: Vec<String> = words.iter().map(|w| w.to_string()).collect();
    let mut expected = list.clone();
    expected.sort();
    assert_eq!(sorted_texts(&list), expected);
}

#[test]
fn paths_behave_as_in_the_standard_library() {
    let paths = ["/", "", "a", "/a", "a/b", "a/b/", "/a/b.c", "a/.", "..", "/a/..", "a/.b", "a.b.c"];
    for p in paths {
        let std_path = std::path::Path::new(p);
        let name = std_path.file_name().map(|n| n.to_str().unwrap().to_string());
        assert_eq!(file_name(p), name, "file name of {p:?}");
        let up = std_path.parent().map(|n| n.to_str().unwrap().to_string());
        assert_eq!(parent(p), up, "parent of {p:?}");
        for q in ["x", "/x", "x/y"] {
            assert_eq!(join_path(p, q), std_path.join(q).to_str().unwrap(), "{p:?} {q:?}");
        }
        let renamed = std_path.with_file_name("n");
        assert_eq!(with_file_name(p, "n"), renamed.to_str().unwrap(), "renamed {p:?}");
        let extended = std_path.with_extension("v-k.sock");
        assert_eq!(with_extension(p, "v-k.sock"), extended.to_str().unwrap(), "extended {p:?}");
    }
}

#[test]
fn maps_keep_one_value_for_each_name() {
    let mut m: TextMap<u32> = TextMap::new();
    m.set("b", 1);
    m.set("a", 2);
    m.set("b", 3);
    assert_eq!(m.len(), 2);
    assert_eq!((m.name_at(0), *m.value_at(0)), ("a", 2));
    assert_eq!((m.name_at(1), *m.value_at(1)), ("b", 3));
    assert_eq!(m.get("b"), Some(&3));
    assert_eq!(m.remove("a"), Some(2));
    assert_eq!(m.remove("a"), None);
    assert_eq!(m.len(), 1);
}

#[test]
fn dialogue_goes_on_where_it_waited() {
    let mut d: SysfsDialogue = Dialogue::new();
    let ask_twice = |d: &mut SysfsDialogue| -> Option<(bool, bool)> {
        let first = d.ask(SysfsRequest::Exists { path: "a".to_string() })?;
        let yes = d.reply(first).ok;
        let second = d.ask(SysfsRequest::IsDir { path: "b".to_string() })?;
        Some((yes, d.reply(second).ok))
    };
    assert!(ask_twice(&mut d).is_none());
    assert!(matches!(d.pending(), Some(SysfsRequest::Exists { .. })));
    d.record(SysfsReply::flag(true));
    d.rewind();
    assert!(ask_twice(&mut d).is_none());
    assert!(matches!(d.pending(), Some(SysfsRequest::IsDir { .. })));
    assert_eq!(d.asked_count(), 2);
    d.record(SysfsReply::flag(false));
    d.rewind();
    assert_eq!(ask_twice(&mut d), Some((true, false)));
    assert!(d.is_live());
}

#[test]
fn roots_that_mean_the_running_kernel() {
    for root in ["/", "//", "/./"] {
        assert!(SysfsRoot::new(root.to_string()).is_real_sysfs(), "{root}");
    }
    assert!(!SysfsRoot::new("/mock".to_string()).is_real_sysfs());
    assert_eq!(SysfsRoot::default().device("0000:41:00.0"), "/sys/bus/pci/devices/0000:41:00.0");
    let root = SysfsRoot::new("/r".to_string());
    assert_eq!(root.sys_class_drm(), "/r/sys/class/drm");
    assert_eq!(root.sys_module("m"), "/r/sys/module/m");
    assert_eq!(root.sys_kernel_iommu_groups(), "/r/sys/kernel/iommu_groups");
    assert_eq!(root.sys_bus_pci_drivers("d"), "/r/sys/bus/pci/drivers/d");
}
