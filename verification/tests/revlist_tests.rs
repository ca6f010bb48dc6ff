use git_access::oid::{object_id, CommitId, HashAlgo, ObjectId};
use git_access::revlist::{
    check_rev_args, get_oid_committish, is_nul_free, prepare_arg, rev_list, MAX_REV_ARGS,
};

fn slot(n: u8) -> object_id {
    let mut raw = [0u8; 32];
    for b in raw.iter_mut().take(20) {
        *b = n;
    }
    object_id(raw)
}

fn id(n: u8) -> CommitId {
    CommitId::from_oid(ObjectId::from_native_bytes(HashAlgo::Sha1, &[n; 20]).unwrap())
}

#[test]
fn empty_range_gives_nothing() {
    let mut walk = rev_list(HashAlgo::Sha1, &vec![b"HEAD..HEAD".to_vec()]);
    assert!(!walk.is_done());
    assert_eq!(walk.next(None), None);
    assert!(walk.is_done());
}

#[test]
fn linear_chain_gives_each_commit_once() {
    let mut walk = rev_list(HashAlgo::Sha1, &vec![b"HEAD".to_vec()]);
    let chain = [slot(5), slot(4), slot(3), slot(2), slot(1)];
    let mut seen = Vec::new();
    for s in chain.iter() {
        assert!(!walk.is_done());
        seen.push(walk.next(Some(s)).unwrap());
    }
    assert_eq!(seen, vec![id(5), id(4), id(3), id(2), id(1)]);
    assert!(!walk.is_done());
    assert_eq!(walk.next(None), None);
    assert!(walk.is_done());
}

#[test]
fn an_ended_walk_stays_ended() {
    let mut walk = rev_list(HashAlgo::Sha1, &Vec::new());
    assert_eq!(walk.next(Some(&slot(1))), Some(id(1)));
    assert_eq!(walk.next(None), None);
    assert_eq!(walk.next(Some(&slot(2))), None);
    assert_eq!(walk.next(None), None);
    assert!(walk.is_done());
}

#[test]
fn walk_arguments() {
    let walk = rev_list(
        HashAlgo::Sha1,
        &vec![b"--topo-order".to_vec(), b"a..b".to_vec(), b"".to_vec()],
    );
    assert_eq!(
        walk.argv(),
        &vec![b"\0".to_vec(), b"--topo-order\0".to_vec(), b"a..b\0".to_vec(), b"\0".to_vec()]
    );
    let none = rev_list(HashAlgo::Sha256, &Vec::new());
    assert_eq!(none.argv(), &vec![b"\0".to_vec()]);
}

#[test]
fn wide_walk_takes_the_whole_slot() {
    let mut raw = [0u8; 32];
    for (i, b) in raw.iter_mut().enumerate() {
        *b = i as u8;
    }
    let mut walk = rev_list(HashAlgo::Sha256, &Vec::new());
    let got = walk.next(Some(&object_id(raw))).unwrap();
    assert_eq!(got.oid().to_native_bytes(), raw.to_vec());
}

#[test]
fn prepared_argument_ends_in_zero() {
    assert_eq!(prepare_arg(b"HEAD"), b"HEAD\0".to_vec());
    assert_eq!(prepare_arg(b""), b"\0".to_vec());
}

#[test]
fn zero_bytes_are_found() {
    assert!(is_nul_free(b"HEAD"));
    assert!(is_nul_free(b""));
    assert!(!is_nul_free(b"HE\0AD"));
    assert!(!is_nul_free(b"\0"));
    assert!(check_rev_args(&vec![b"a".to_vec(), b"b".to_vec()]));
    assert!(check_rev_args(&Vec::new()));
    assert!(!check_rev_args(&vec![b"a".to_vec(), b"b\0".to_vec()]));
    assert_eq!(MAX_REV_ARGS, i32::MAX as usize - 1);
}

#[test]
fn resolved_revision() {
    assert_eq!(get_oid_committish(HashAlgo::Sha1, 0, &slot(9)), Some(id(9)));
    assert_eq!(get_oid_committish(HashAlgo::Sha1, -1, &slot(9)), None);
    assert_eq!(get_oid_committish(HashAlgo::Sha1, 1, &slot(9)), None);
}
