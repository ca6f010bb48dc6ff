use git_access::string_list::string_list;

#[test]
fn empty_list() {
    let list = string_list::new(Vec::new());
    assert!(list.is_empty());
    let mut it = list.iter();
    assert_eq!(it.next(), None);
    assert_eq!(it.next(), None);
}

#[test]
fn strings_come_front_to_back() {
    let list = string_list::new(vec![b"one".to_vec(), b"".to_vec(), b"three".to_vec()]);
    assert!(!list.is_empty());
    let mut it = list.iter();
    assert_eq!(it.next(), Some(&b"one"[..]));
    assert_eq!(it.next(), Some(&b""[..]));
    assert_eq!(it.next(), Some(&b"three"[..]));
    assert_eq!(it.next(), None);
    assert_eq!(it.next(), None);
}

#[test]
fn each_walk_starts_at_the_front() {
    let list = string_list::new(vec![b"only".to_vec()]);
    let mut first = list.iter();
    assert_eq!(first.next(), Some(&b"only"[..]));
    assert_eq!(first.next(), None);
    let mut second = list.iter();
    assert_eq!(second.next(), Some(&b"only"[..]));
}
