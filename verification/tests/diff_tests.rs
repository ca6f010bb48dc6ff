use git_access::diff::{
    diff_tree, diff_tree_args, diff_tree_fill, DiffDefect, DiffFile, DiffRecord, DiffTreeItem,
    FileMode,
};
use git_access::oid::{object_id, BlobId, CommitId, HashAlgo, ObjectId};

const X_OLD: &str = "aaaaaaaaaaaaaaaaaaaaaaaaaaaaaaaaaaaaaaaa";
const X_NEW: &str = "bbbbbbbbbbbbbbbbbbbbbbbbbbbbbbbbbbbbbbbb";
const NULL: &str = "0000000000000000000000000000000000000000";

fn slot(hex: &str) -> object_id {
    object_id::from(ObjectId::parse_hex(hex).unwrap())
}

fn blob(hex: &str) -> BlobId {
    BlobId::parse_hex(hex).unwrap()
}

fn file(hex: &str, path: &[u8], mode: u16) -> DiffFile {
    DiffFile { oid: slot(hex), path: path.to_vec(), mode }
}

fn record(a: DiffFile, b: DiffFile, status: u8) -> DiffRecord {
    DiffRecord { a, b, score: 0, status }
}

fn translate(r: &DiffRecord) -> Result<DiffTreeItem, DiffDefect> {
    DiffTreeItem::translate(HashAlgo::Sha1, r)
}

#[test]
fn modified_path() {
    let r = record(file(X_OLD, b"x", 0o100644), file(X_NEW, b"x", 0o100755), b'M');
    let items = diff_tree(HashAlgo::Sha1, &vec![r]).unwrap();
    assert_eq!(items.len(), 1);
    match &items[0] {
        DiffTreeItem::Modified { path, from_mode, from_oid, to_mode, to_oid } => {
            assert_eq!(path, &b"x".to_vec());
            assert_eq!(*from_mode, FileMode(0o100644));
            assert_eq!(*to_mode, FileMode(0o100755));
            assert_eq!(*from_oid, blob(X_OLD));
            assert_eq!(*to_oid, blob(X_NEW));
        }
        other => panic!("not a modification: {:?}", other),
    }
}

#[test]
fn type_change_is_a_modification() {
    let r = record(file(X_OLD, b"x", 0o100644), file(X_NEW, b"x", 0o120000), b'T');
    match translate(&r).unwrap() {
        DiffTreeItem::Modified { path, from_mode, to_mode, .. } => {
            assert_eq!(path, b"x".to_vec());
            assert_eq!(from_mode.0, 0o100644);
            assert_eq!(to_mode.0, 0o120000);
        }
        other => panic!("not a modification: {:?}", other),
    }
}

#[test]
fn modification_with_two_paths_is_a_defect() {
    let r = record(file(X_OLD, b"x", 0o100644), file(X_NEW, b"y", 0o100644), b'M');
    assert_eq!(translate(&r).unwrap_err(), DiffDefect::PathMismatch);
    let r = record(file(X_OLD, b"x", 0o100644), file(X_NEW, b"xx", 0o100644), b'T');
    assert_eq!(translate(&r).unwrap_err(), DiffDefect::PathMismatch);
    let r = record(file(X_OLD, b"x", 0o100644), file(X_NEW, b"y", 0o100644), b'M');
    assert_eq!(diff_tree(HashAlgo::Sha1, &vec![r]).unwrap_err(), DiffDefect::PathMismatch);
}

#[test]
fn unknown_status_is_a_defect() {
    for status in [b'X', b'U', b'm', b'a', 0u8, b' '] {
        let r = record(file(X_OLD, b"x", 0o100644), file(X_NEW, b"x", 0o100644), status);
        assert_eq!(translate(&r).unwrap_err(), DiffDefect::UnknownStatus);
    }
}

#[test]
fn added_takes_the_right_side() {
    let r = record(file(NULL, b"", 0), file(X_NEW, b"dir/new", 0o100644), b'A');
    match translate(&r).unwrap() {
        DiffTreeItem::Added { path, mode, oid } => {
            assert_eq!(path, b"dir/new".to_vec());
            assert_eq!(mode, FileMode(0o100644));
            assert_eq!(oid, blob(X_NEW));
        }
        other => panic!("not an addition: {:?}", other),
    }
}

#[test]
fn deleted_takes_the_left_side() {
    let r = record(file(X_OLD, b"gone", 0o100755), file(NULL, b"", 0), b'D');
    match translate(&r).unwrap() {
        DiffTreeItem::Deleted { path, mode, oid } => {
            assert_eq!(path, b"gone".to_vec());
            assert_eq!(mode, FileMode(0o100755));
            assert_eq!(oid, blob(X_OLD));
        }
        other => panic!("not a deletion: {:?}", other),
    }
}

fn renamed_paths(item: &DiffTreeItem) -> (Vec<u8>, Vec<u8>) {
    match item {
        DiffTreeItem::Renamed { from_path, to_path, .. } => (from_path.clone(), to_path.clone()),
        other => panic!("not a rename: {:?}", other),
    }
}

#[test]
fn rename_is_reported_as_the_store_sees_it() {
    let forth = record(file(X_OLD, b"x", 0o100644), file(X_OLD, b"y", 0o100644), b'R');
    let back = record(file(X_OLD, b"y", 0o100644), file(X_OLD, b"x", 0o100644), b'R');
    let first = diff_tree(HashAlgo::Sha1, &vec![forth]).unwrap();
    let second = diff_tree(HashAlgo::Sha1, &vec![back]).unwrap();
    assert_eq!(renamed_paths(&first[0]), (b"x".to_vec(), b"y".to_vec()));
    assert_eq!(renamed_paths(&second[0]), (b"y".to_vec(), b"x".to_vec()));
}

#[test]
fn rename_keeps_modes_and_blobs_of_both_sides() {
    let r = record(file(X_OLD, b"x", 0o100644), file(X_NEW, b"y", 0o100755), b'R');
    match translate(&r).unwrap() {
        DiffTreeItem::Renamed { to_path, to_mode, to_oid, from_path, from_mode, from_oid } => {
            assert_eq!(from_path, b"x".to_vec());
            assert_eq!(to_path, b"y".to_vec());
            assert_eq!(from_mode.0, 0o100644);
            assert_eq!(to_mode.0, 0o100755);
            assert_eq!(from_oid, blob(X_OLD));
            assert_eq!(to_oid, blob(X_NEW));
        }
        other => panic!("not a rename: {:?}", other),
    }
}

#[test]
fn copy_takes_both_sides() {
    let r = record(file(X_OLD, b"x", 0o100644), file(X_NEW, b"z", 0o100755), b'C');
    match translate(&r).unwrap() {
        DiffTreeItem::Copied { to_path, to_mode, to_oid, from_path, from_mode, from_oid } => {
            assert_eq!(from_path, b"x".to_vec());
            assert_eq!(to_path, b"z".to_vec());
            assert_eq!(from_mode.0, 0o100644);
            assert_eq!(to_mode.0, 0o100755);
            assert_eq!(from_oid, blob(X_OLD));
            assert_eq!(to_oid, blob(X_NEW));
        }
        other => panic!("not a copy: {:?}", other),
    }
}

#[test]
fn records_come_in_the_order_of_the_reports() {
    let records = vec![
        record(file(NULL, b"", 0), file(X_NEW, b"a", 0o100644), b'A'),
        record(file(X_OLD, b"b", 0o100644), file(NULL, b"", 0), b'D'),
        record(file(X_OLD, b"c", 0o100644), file(X_NEW, b"c", 0o100644), b'M'),
    ];
    let items = diff_tree(HashAlgo::Sha1, &records).unwrap();
    let keys: Vec<Vec<u8>> = items.iter().map(|i| i.borrow_key().clone()).collect();
    assert_eq!(keys, vec![b"a".to_vec(), b"b".to_vec(), b"c".to_vec()]);
    assert!(diff_tree(HashAlgo::Sha1, &Vec::new()).unwrap().is_empty());
}

#[test]
fn the_first_defect_is_reported() {
    let records = vec![
        record(file(NULL, b"", 0), file(X_NEW, b"a", 0o100644), b'A'),
        record(file(X_OLD, b"c", 0o100644), file(X_NEW, b"d", 0o100644), b'M'),
        record(file(X_OLD, b"b", 0o100644), file(NULL, b"", 0), b'?'),
    ];
    assert_eq!(diff_tree(HashAlgo::Sha1, &records).unwrap_err(), DiffDefect::PathMismatch);
}

#[test]
fn fill_appends_one_record() {
    let mut out = Vec::new();
    let a = record(file(NULL, b"", 0), file(X_NEW, b"a", 0o100644), b'A');
    let b = record(file(X_OLD, b"from", 0o100644), file(X_OLD, b"to", 0o100644), b'R');
    diff_tree_fill(&mut out, HashAlgo::Sha1, &a);
    diff_tree_fill(&mut out, HashAlgo::Sha1, &b);
    assert_eq!(out.len(), 2);
    assert_eq!(out[0].borrow_key(), &b"a".to_vec());
    assert_eq!(out[1].borrow_key(), &b"to".to_vec());
}

#[test]
fn key_is_the_path_or_the_new_path() {
    let m = record(file(X_OLD, b"m", 0), file(X_NEW, b"m", 0), b'M');
    let d = record(file(X_OLD, b"d", 0), file(NULL, b"", 0), b'D');
    let c = record(file(X_OLD, b"src", 0), file(X_OLD, b"dst", 0), b'C');
    assert_eq!(translate(&m).unwrap().borrow_key(), &b"m".to_vec());
    assert_eq!(translate(&d).unwrap().borrow_key(), &b"d".to_vec());
    assert_eq!(translate(&c).unwrap().borrow_key(), &b"dst".to_vec());
}

#[test]
fn wide_hashes_are_cut_to_the_configured_width() {
    let wide = "00112233445566778899aabbccddeeff00112233445566778899aabbccddeeff";
    let r = record(file(NULL, b"", 0), file(wide, b"w", 0o100644), b'A');
    match DiffTreeItem::translate(HashAlgo::Sha256, &r).unwrap() {
        DiffTreeItem::Added { oid, .. } => assert_eq!(oid.display(), wide),
        other => panic!("not an addition: {:?}", other),
    }
    match DiffTreeItem::translate(HashAlgo::Sha1, &r).unwrap() {
        DiffTreeItem::Added { oid, .. } => assert_eq!(oid.display(), &wide[..40]),
        other => panic!("not an addition: {:?}", other),
    }
}

#[test]
fn file_mode_is_six_octal_digits() {
    assert_eq!(FileMode(0o100644).display(), "100644");
    assert_eq!(FileMode(0o100755).display(), "100755");
    assert_eq!(FileMode(0o040000).display(), "040000");
    assert_eq!(FileMode(0o120000).display(), "120000");
    assert_eq!(FileMode(0o160000).display(), "160000");
    assert_eq!(FileMode(0).display(), "000000");
    assert_eq!(FileMode(7).display(), "000007");
    assert_eq!(FileMode(8).display(), "000010");
    assert_eq!(FileMode(u16::MAX).display(), "177777");
}

#[test]
fn arguments_of_a_comparison() {
    let a = CommitId::parse_hex(X_OLD).unwrap();
    let b = CommitId::parse_hex(&X_NEW.to_uppercase()).unwrap();
    assert_eq!(
        diff_tree_args(&a, &b),
        vec![
            String::new(),
            X_OLD.to_string(),
            X_NEW.to_string(),
            "--ignore-submodules=dirty".to_string(),
            "--".to_string(),
        ]
    );
}
