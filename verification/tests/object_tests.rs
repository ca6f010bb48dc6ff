use git_access::object::{object_type, RawBlob, RawCommit, RawObject, RawTree};

#[test]
fn kind_codes() {
    assert_eq!(object_type::OBJ_BAD.code(), -1);
    assert_eq!(object_type::OBJ_NONE.code(), 0);
    assert_eq!(object_type::OBJ_COMMIT.code(), 1);
    assert_eq!(object_type::OBJ_TREE.code(), 2);
    assert_eq!(object_type::OBJ_BLOB.code(), 3);
    assert_eq!(object_type::OBJ_TAG.code(), 4);
    assert_eq!(object_type::OBJ_OFS_DELTA.code(), 6);
    assert_eq!(object_type::OBJ_REF_DELTA.code(), 7);
    assert_eq!(object_type::OBJ_ANY.code(), 8);
    assert_eq!(object_type::OBJ_MAX.code(), 9);
}

#[test]
fn kinds_from_codes() {
    for c in -1..=9 {
        match object_type::from_code(c) {
            Some(t) => assert_eq!(t.code(), c),
            None => assert_eq!(c, 5),
        }
    }
    assert_eq!(object_type::from_code(10), None);
    assert_eq!(object_type::from_code(-2), None);
    assert_eq!(object_type::from_code(3), Some(object_type::OBJ_BLOB));
}

#[test]
fn raw_object_keeps_kind_and_bytes() {
    let o = RawObject::new(object_type::OBJ_BLOB, b"hello".to_vec());
    assert_eq!(o.kind(), object_type::OBJ_BLOB);
    assert_eq!(o.as_bytes(), b"hello");
    let (kind, o) = RawObject::read(Some(o)).unwrap();
    assert_eq!(kind, object_type::OBJ_BLOB);
    assert_eq!(o.as_bytes(), b"hello");
    assert!(RawObject::read(None).is_none());
}

#[test]
fn blob_read_of_a_tree_yields_nothing() {
    let tree = RawObject::new(object_type::OBJ_TREE, b"100644 x\0".to_vec());
    assert!(RawBlob::read(Some(tree)).is_none());
}

#[test]
fn read_of_the_right_kind_yields_the_payload() {
    let blob = RawObject::new(object_type::OBJ_BLOB, b"content".to_vec());
    assert_eq!(RawBlob::read(Some(blob)).unwrap().as_bytes(), b"content");
    let tree = RawObject::new(object_type::OBJ_TREE, vec![1, 2, 3]);
    assert_eq!(RawTree::read(Some(tree)).unwrap().as_bytes(), &[1, 2, 3]);
    let commit = RawObject::new(object_type::OBJ_COMMIT, Vec::new());
    assert_eq!(RawCommit::read(Some(commit)).unwrap().as_bytes(), b"");
}

#[test]
fn read_of_a_missing_object_yields_nothing() {
    assert!(RawCommit::read(None).is_none());
    assert!(RawTree::read(None).is_none());
    assert!(RawBlob::read(None).is_none());
}

#[test]
fn read_of_another_kind_yields_nothing() {
    let tag = RawObject::new(object_type::OBJ_TAG, b"tag".to_vec());
    assert!(RawCommit::read(Some(tag)).is_none());
    let commit = RawObject::new(object_type::OBJ_COMMIT, b"c".to_vec());
    assert!(RawTree::read(Some(commit)).is_none());
    let bad = RawObject::new(object_type::OBJ_BAD, b"c".to_vec());
    assert!(RawBlob::read(Some(bad)).is_none());
}
