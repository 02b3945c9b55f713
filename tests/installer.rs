use std::collections::BTreeMap;

use grubconfigs::error::GrubError;
use grubconfigs::install::{Action, Installer, Phase};

struct Source {
    pre: Option<Vec<u8>>,
    dropins: Vec<(Vec<u8>, Vec<u8>)>,
    post: Option<Vec<u8>>,
    efi_template: Vec<u8>,
    efi_dir: Option<Vec<(Vec<u8>, bool)>>,
}

fn b(s: &str) -> Vec<u8> {
    s.as_bytes().to_vec()
}

fn source() -> Source {
    Source {
        pre: Some(b("PRE\n")),
        dropins: vec![
            (b("b.cfg"), b("menuentry b\n")),
            (b("a.cfg"), b("menuentry a\n")),
            (b("c.txt"), b("not a fragment\n")),
        ],
        post: Some(b("POST\n")),
        efi_template: b("EFI\n"),
        efi_dir: Some(vec![(b("BOOT"), true), (b("fedora"), true)]),
    }
}

/// Runs an installation against an in-memory tree; returns the final action
/// and the files written, by path under the target root.
fn run(efi: bool, src: &Source) -> (Action, BTreeMap<String, Vec<u8>>) {
    let mut files = BTreeMap::new();
    let mut inst = Installer::new(efi);
    let mut act = inst.start();
    loop {
        act = match act {
            Action::ReadPreamble => match &src.pre {
                Some(p) => inst.on_preamble(p.clone()),
                None => inst.on_failure(GrubError::Io("reading grub-static-pre.cfg".to_string())),
            },
            Action::ListDropins => {
                inst.on_dropins(src.dropins.iter().map(|(n, _)| n.clone()).collect())
            }
            Action::CopyFragment(n) => {
                let body = src.dropins.iter().find(|(m, _)| *m == n).unwrap().1.clone();
                let path = format!("boot/grub2/{}", String::from_utf8(n).unwrap());
                files.insert(path, body);
                inst.on_copied()
            }
            Action::ReadPostamble => match &src.post {
                Some(p) => inst.on_postamble(p.clone()),
                None => inst.on_failure(GrubError::Io("reading grub-static-post.cfg".to_string())),
            },
            Action::WriteConfig(c) => {
                files.insert("boot/grub2/grub.cfg".to_string(), c);
                inst.on_written()
            }
            Action::OpenEfiDir => inst.on_efi_dir(src.efi_dir.is_some()),
            Action::ListEfiDir => {
                let names = src.efi_dir.as_ref().unwrap().iter().map(|(n, _)| n.clone()).collect();
                inst.on_efi_listing(names)
            }
            Action::InspectEfiEntry(n) => {
                let entries = src.efi_dir.as_ref().unwrap();
                let is_dir = entries.iter().find(|(m, _)| *m == n).unwrap().1;
                inst.on_efi_entry_kind(is_dir)
            }
            Action::CopyEfiConfig(v) => {
                let path = format!("boot/efi/EFI/{}/grub.cfg", String::from_utf8(v).unwrap());
                files.insert(path, src.efi_template.clone());
                inst.on_efi_copied()
            }
            Action::Finished | Action::Failed(_) => {
                assert_eq!(inst.phase, Phase::Done);
                return (act, files);
            }
        };
    }
}

#[test]
fn test_install() {
    let (end, files) = run(true, &source());
    assert_eq!(end, Action::Finished);
    assert!(files.contains_key("boot/grub2/grub.cfg"));
    assert!(files.contains_key("boot/efi/EFI/fedora/grub.cfg"));
}

#[test]
fn install_writes_composed_config() {
    let (_, files) = run(true, &source());
    assert_eq!(
        files["boot/grub2/grub.cfg"],
        b("PRE\nsource $prefix/a.cfg\nsource $prefix/b.cfg\nPOST\n")
    );
    assert_eq!(files["boot/efi/EFI/fedora/grub.cfg"], b("EFI\n"));
    assert!(!files.contains_key("boot/grub2/c.txt"));
}

#[test]
fn referenced_fragments_are_copied_verbatim() {
    let src = source();
    let (_, files) = run(false, &src);
    let cfg = String::from_utf8(files["boot/grub2/grub.cfg"].clone()).unwrap();
    let mut referenced = 0;
    for line in cfg.lines() {
        if let Some(name) = line.strip_prefix("source $prefix/") {
            referenced += 1;
            let orig = &src.dropins.iter().find(|(n, _)| *n == b(name)).unwrap().1;
            assert_eq!(&files[&format!("boot/grub2/{name}")], orig);
        }
    }
    assert_eq!(referenced, 2);
}

#[test]
fn repeated_runs_are_identical() {
    let mut other = source();
    other.dropins.reverse();
    let (_, one) = run(false, &source());
    let (_, two) = run(false, &other);
    assert_eq!(one["boot/grub2/grub.cfg"], two["boot/grub2/grub.cfg"]);
}

#[test]
fn no_efi_files_without_efi() {
    let (end, files) = run(false, &source());
    assert_eq!(end, Action::Finished);
    assert!(files.keys().all(|k| !k.starts_with("boot/efi/")));
}

#[test]
fn absent_efi_dir_is_tolerated() {
    let mut src = source();
    src.efi_dir = None;
    let (end, files) = run(true, &src);
    assert_eq!(end, Action::Finished);
    assert!(files.contains_key("boot/grub2/grub.cfg"));
    assert!(files.keys().all(|k| !k.starts_with("boot/efi/")));
}

#[test]
fn efi_without_vendor_fails() {
    let mut src = source();
    src.efi_dir = Some(vec![(b("BOOT"), true), (b("startup.nsh"), false)]);
    let (end, files) = run(true, &src);
    assert_eq!(end, Action::Failed(GrubError::NotFound));
    assert!(files.contains_key("boot/grub2/grub.cfg"));
}

#[test]
fn efi_vendor_after_plain_file() {
    let mut src = source();
    src.efi_dir = Some(vec![(b("x.efi"), false), (b("BOOT"), true), (b("centos"), true)]);
    let (end, files) = run(true, &src);
    assert_eq!(end, Action::Finished);
    assert!(files.contains_key("boot/efi/EFI/centos/grub.cfg"));
}

#[test]
fn missing_preamble_writes_nothing() {
    let mut src = source();
    src.pre = None;
    let (end, files) = run(true, &src);
    assert!(matches!(end, Action::Failed(GrubError::Io(_))));
    assert!(files.is_empty());
}

#[test]
fn missing_postamble_leaves_config_unwritten() {
    let mut src = source();
    src.post = None;
    let (end, files) = run(true, &src);
    assert!(matches!(end, Action::Failed(GrubError::Io(_))));
    assert!(!files.contains_key("boot/grub2/grub.cfg"));
}

#[test]
fn bad_fragment_name_stops_install() {
    let mut src = source();
    src.dropins.push((vec![b'z', 0xffu8], b("x")));
    let (end, files) = run(false, &src);
    assert_eq!(end, Action::Failed(GrubError::Encoding(vec![b'z', 0xffu8])));
    assert!(files.is_empty());
}

#[test]
fn no_fragments_config_is_templates() {
    let mut src = source();
    src.dropins.clear();
    let (_, files) = run(false, &src);
    assert_eq!(files["boot/grub2/grub.cfg"], b("PRE\nPOST\n"));
}

#[test]
fn installer_step_order() {
    let mut inst = Installer::new(false);
    assert_eq!(inst.start(), Action::ReadPreamble);
    assert_eq!(inst.on_preamble(b("P")), Action::ListDropins);
    assert_eq!(inst.on_dropins(vec![b("b.cfg"), b("a.cfg")]), Action::CopyFragment(b("a.cfg")));
    assert_eq!(inst.on_copied(), Action::CopyFragment(b("b.cfg")));
    assert_eq!(inst.on_copied(), Action::ReadPostamble);
    assert_eq!(inst.on_postamble(b("Q")), Action::WriteConfig(b("Psource $prefix/a.cfg\nsource $prefix/b.cfg\nQ")));
    assert_eq!(inst.on_written(), Action::Finished);
}
