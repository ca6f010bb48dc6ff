use git_access::oid::{
    object_id, BlobId, CommitId, HashAlgo, ObjectId, OidError, TreeId, GIT_MAX_RAWSZ,
};

const SHA1_HEX: &str = "0123456789abcdef0123456789abcdef01234567";
const SHA256_HEX: &str = "00112233445566778899aabbccddeeff00112233445566778899aabbccddeeff";

fn sha1_bytes() -> Vec<u8> {
    (0u8..20).map(|i| i.wrapping_mul(13).wrapping_add(7)).collect()
}

#[test]
fn native_bytes_round_trip_sha1() {
    let b = sha1_bytes();
    let id = ObjectId::from_native_bytes(HashAlgo::Sha1, &b).unwrap();
    assert_eq!(id.to_native_bytes(), b);
    assert_eq!(id.algo(), HashAlgo::Sha1);
}

#[test]
fn native_bytes_round_trip_sha256() {
    let b: Vec<u8> = (0u8..32).map(|i| 255 - i).collect();
    let id = ObjectId::from_native_bytes(HashAlgo::Sha256, &b).unwrap();
    assert_eq!(id.to_native_bytes(), b);
    assert_eq!(id.algo(), HashAlgo::Sha256);
}

#[test]
fn native_bytes_of_wrong_width_are_refused() {
    let b = sha1_bytes();
    assert_eq!(
        ObjectId::from_native_bytes(HashAlgo::Sha256, &b),
        Err(OidError::WidthMismatch)
    );
    assert_eq!(
        ObjectId::from_native_bytes(HashAlgo::Sha1, &b[..19]),
        Err(OidError::WidthMismatch)
    );
    assert_eq!(
        ObjectId::from_native_bytes(HashAlgo::Sha1, &[]),
        Err(OidError::WidthMismatch)
    );
}

#[test]
fn widths() {
    assert_eq!(HashAlgo::Sha1.width(), 20);
    assert_eq!(HashAlgo::Sha256.width(), 32);
    assert_eq!(GIT_MAX_RAWSZ, 32);
}

#[test]
fn null_is_all_zero() {
    assert_eq!(ObjectId::null(HashAlgo::Sha1).to_native_bytes(), vec![0u8; 20]);
    assert_eq!(ObjectId::null(HashAlgo::Sha256).to_native_bytes(), vec![0u8; 32]);
    assert_eq!(
        ObjectId::null(HashAlgo::Sha1).display(),
        "0000000000000000000000000000000000000000"
    );
}

#[test]
fn parse_hex_gives_the_bytes() {
    let id = ObjectId::parse_hex(SHA1_HEX).unwrap();
    assert_eq!(
        id.to_native_bytes(),
        vec![
            0x01, 0x23, 0x45, 0x67, 0x89, 0xab, 0xcd, 0xef, 0x01, 0x23, 0x45, 0x67, 0x89, 0xab,
            0xcd, 0xef, 0x01, 0x23, 0x45, 0x67
        ]
    );
    assert_eq!(id.algo(), HashAlgo::Sha1);
    let wide = ObjectId::parse_hex(SHA256_HEX).unwrap();
    assert_eq!(wide.algo(), HashAlgo::Sha256);
    assert_eq!(wide.to_native_bytes()[10], 0xaa);
}

#[test]
fn display_after_parse_is_lower_case() {
    let upper = SHA1_HEX.to_uppercase();
    let id = ObjectId::parse_hex(&upper).unwrap();
    assert_eq!(id.display(), SHA1_HEX);
    let mixed = "00112233445566778899AaBbCcDdEeFf00112233445566778899aABbcCDdeEFf";
    assert_eq!(ObjectId::parse_hex(mixed).unwrap().display(), SHA256_HEX);
    assert_eq!(ObjectId::parse_hex(SHA1_HEX).unwrap().display(), SHA1_HEX);
}

#[test]
fn to_hex_is_the_text_of_display() {
    let id = ObjectId::parse_hex(SHA1_HEX).unwrap();
    assert_eq!(id.to_hex(), SHA1_HEX.as_bytes().to_vec());
}

#[test]
fn malformed_hashes_are_refused() {
    assert_eq!(ObjectId::parse_hex(""), Err(OidError::MalformedHash));
    assert_eq!(ObjectId::parse_hex(&SHA1_HEX[..39]), Err(OidError::MalformedHash));
    let long = format!("{}0", SHA1_HEX);
    assert_eq!(ObjectId::parse_hex(&long), Err(OidError::MalformedHash));
    let bad = "0123456789abcdef0123456789abcdef0123456g";
    assert_eq!(ObjectId::parse_hex(bad), Err(OidError::MalformedHash));
    let space = "0123456789abcdef0123456789abcdef0123456 ";
    assert_eq!(ObjectId::parse_hex(space), Err(OidError::MalformedHash));
    let wide = "0123456789abcdef0123456789abcdef01234\u{e9}5";
    assert_eq!(wide.len(), 40);
    assert_eq!(ObjectId::parse_hex(wide), Err(OidError::MalformedHash));
    assert_eq!(ObjectId::from_hex(b"xyz"), Err(OidError::MalformedHash));
}

#[test]
fn equality_is_bytewise() {
    let a = ObjectId::parse_hex(SHA1_HEX).unwrap();
    let b = ObjectId::parse_hex(&SHA1_HEX.to_uppercase()).unwrap();
    let c = ObjectId::parse_hex("1123456789abcdef0123456789abcdef01234567").unwrap();
    assert_eq!(a, b);
    assert_ne!(a, c);
    assert!(a < c);
    let sha1_null = ObjectId::null(HashAlgo::Sha1);
    let sha256_null = ObjectId::null(HashAlgo::Sha256);
    assert_ne!(sha1_null, sha256_null);
}

#[test]
fn slot_holds_the_hash_and_zeros() {
    let id = ObjectId::parse_hex(SHA1_HEX).unwrap();
    let slot = object_id::from(id);
    assert_eq!(&slot.0[..20], &id.to_native_bytes()[..]);
    assert_eq!(&slot.0[20..], &[0u8; 12][..]);
    assert_eq!(ObjectId::from_raw(HashAlgo::Sha1, &slot), id);
}

#[test]
fn from_raw_cuts_to_the_width() {
    let mut raw = [0u8; 32];
    for (i, b) in raw.iter_mut().enumerate() {
        *b = i as u8 + 1;
    }
    let slot = object_id(raw);
    let narrow = ObjectId::from_raw(HashAlgo::Sha1, &slot);
    assert_eq!(narrow.to_native_bytes(), raw[..20].to_vec());
    let again = object_id::from(narrow);
    assert_eq!(&again.0[20..], &[0u8; 12][..]);
    let wide = ObjectId::from_raw(HashAlgo::Sha256, &slot);
    assert_eq!(wide.to_native_bytes(), raw.to_vec());
}

#[test]
fn typed_ids_wrap_and_unwrap() {
    let id = ObjectId::parse_hex(SHA1_HEX).unwrap();
    let commit = CommitId::from_oid(id);
    let tree = TreeId::from_oid(id);
    let blob = BlobId::from_oid(id);
    assert_eq!(commit.oid(), id);
    assert_eq!(tree.oid(), id);
    assert_eq!(blob.oid(), id);
    assert_eq!(commit.display(), SHA1_HEX);
    assert_eq!(CommitId::parse_hex(SHA1_HEX), Ok(commit));
    assert_eq!(TreeId::from_bytes(SHA1_HEX.as_bytes()), Ok(tree));
    assert_eq!(BlobId::parse_hex("nope"), Err(OidError::MalformedHash));
}

#[test]
fn order_is_bytewise() {
    let low = ObjectId::parse_hex("00ffffffffffffffffffffffffffffffffffffff").unwrap();
    let mid = ObjectId::parse_hex("0100000000000000000000000000000000000000").unwrap();
    let high = ObjectId::parse_hex("0100000000000000000000000000000000000001").unwrap();
    assert!(low < mid);
    assert!(mid < high);
    assert!(low < high);
    assert!(high > low);
    assert!(mid <= mid);
    assert!(mid >= mid);
    assert_eq!(low.partial_cmp(&mid), Some(std::cmp::Ordering::Less));
    assert_eq!(mid.partial_cmp(&mid), Some(std::cmp::Ordering::Equal));
    assert_eq!(high.partial_cmp(&mid), Some(std::cmp::Ordering::Greater));
    assert_eq!(low.cmp(&mid), std::cmp::Ordering::Less);
    assert_eq!(high.cmp(&mid), std::cmp::Ordering::Greater);
    let mut ids = vec![high, low, mid];
    ids.sort();
    assert_eq!(ids, vec![low, mid, high]);
}

#[test]
fn narrow_ids_come_before_wide_ones() {
    let narrow = ObjectId::parse_hex("ffffffffffffffffffffffffffffffffffffffff").unwrap();
    let wide = ObjectId::null(HashAlgo::Sha256);
    assert!(narrow < wide);
    assert!(wide > narrow);
    assert_eq!(narrow.cmp(&wide), std::cmp::Ordering::Less);
}

#[test]
fn typed_ids_order_as_their_hashes() {
    let low = CommitId::parse_hex("00ffffffffffffffffffffffffffffffffffffff").unwrap();
    let high = CommitId::parse_hex("0100000000000000000000000000000000000000").unwrap();
    assert!(low < high);
    assert!(!(high < low));
    assert_eq!(low.cmp(&high), std::cmp::Ordering::Less);
}

#[test]
fn raw_bytes_are_the_native_bytes() {
    let id = ObjectId::parse_hex(SHA1_HEX).unwrap();
    assert_eq!(id.as_raw_bytes(), &id.to_native_bytes()[..]);
    assert_eq!(id.as_raw_bytes().len(), 20);
}
