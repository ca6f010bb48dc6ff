//! Object identifiers: a hash value that carries its own width, and
//! identifiers typed by the kind of object they name.

use std::cmp::Ordering;
use vstd::prelude::*;
use vstd::slice::{slice_subrange, slice_to_vec};
use vstd::std_specs::cmp::PartialEqSpecImpl;
use vstd::std_specs::cmp::PartialOrdSpecImpl;
use vstd::std_specs::convert::FromSpecImpl;
use vstd::string::StringSliceAdditionalSpecFns;
use crate::bytes::{lex_compare, lex_sign, Sign};
use crate::text::{ascii_chars, ascii_string};

verus! {

/// Width in bytes of the widest hash the store can be configured for.
pub const GIT_MAX_RAWSZ: usize = 32;

/// Width in bytes of the narrow (SHA-1) hash.
pub const GIT_SHA1_RAWSZ: usize = 20;

/// The hash function a store is configured for.
#[derive(Clone, Copy, Debug, PartialEq, Eq, Structural, PartialOrd, Ord, Hash)]
pub enum HashAlgo {
    Sha1,
    Sha256,
}

impl HashAlgo {
    /// Number of bytes in a hash of this algorithm.
    pub open spec fn spec_width(self) -> nat {
        match self {
            HashAlgo::Sha1 => 20,
            HashAlgo::Sha256 => 32,
        }
    }

    pub fn width(self) -> (w: usize)
        ensures
            w == self.spec_width(),
            w <= GIT_MAX_RAWSZ,
    {
        match self {
            HashAlgo::Sha1 => GIT_SHA1_RAWSZ,
            HashAlgo::Sha256 => GIT_MAX_RAWSZ,
        }
    }
}

/// Why an identifier could not be built from its input.
#[derive(Clone, Copy, Debug, PartialEq, Eq, Structural)]
pub enum OidError {
    /// The native bytes do not have the width of the configured hash.
    WidthMismatch,
    /// The text is not a hexadecimal hash of a known width.
    MalformedHash,
}

/// The ASCII digit, in lower case, of a value below sixteen.
pub open spec fn hex_digit(n: u8) -> u8 {
    if n < 10 {
        (48 + n) as u8
    } else {
        (87 + n) as u8
    }
}

/// The value of an ASCII hexadecimal digit of either case.
pub open spec fn hex_value(c: u8) -> Option<u8> {
    if 48 <= c <= 57 {
        Some((c - 48) as u8)
    } else if 97 <= c <= 102 {
        Some((c - 87) as u8)
    } else if 65 <= c <= 70 {
        Some((c - 55) as u8)
    } else {
        None
    }
}

/// Every byte is a hexadecimal digit.
pub open spec fn is_hex(h: Seq<u8>) -> bool {
    forall|i: int| 0 <= i < h.len() ==> hex_value(#[trigger] h[i]) is Some
}

/// An ASCII byte with upper-case letters folded to lower case.
pub open spec fn to_lower(c: u8) -> u8 {
    if 65 <= c <= 90 {
        (c + 32) as u8
    } else {
        c
    }
}

pub open spec fn lowercase(h: Seq<u8>) -> Seq<u8> {
    Seq::new(h.len(), |i: int| to_lower(h[i]))
}

/// Two lower-case hexadecimal digits per byte, high nibble first.
pub open spec fn hex_encode(b: Seq<u8>) -> Seq<u8> {
    Seq::new(
        2 * b.len(),
        |i: int|
            if i % 2 == 0 {
                hex_digit(b[i / 2] / 16)
            } else {
                hex_digit(b[i / 2] % 16)
            },
    )
}

/// The bytes that pairs of hexadecimal digits stand for.
pub open spec fn hex_decode(h: Seq<u8>) -> Seq<u8> {
    Seq::new(
        h.len() / 2,
        |i: int| (hex_value(h[2 * i]).unwrap() * 16 + hex_value(h[2 * i + 1]).unwrap()) as u8,
    )
}

/// A hash in hexadecimal is forty or sixty-four digits; anything else is
/// malformed.
pub open spec fn spec_parse_hex(h: Seq<u8>) -> Result<Seq<u8>, OidError> {
    if (h.len() == 40 || h.len() == 64) && is_hex(h) {
        Ok(hex_decode(h))
    } else {
        Err(OidError::MalformedHash)
    }
}

/// What reading native bytes under a configured algorithm gives.
pub open spec fn spec_from_native_bytes(algo: HashAlgo, bytes: Seq<u8>) -> Result<
    Seq<u8>,
    OidError,
> {
    if bytes.len() == algo.spec_width() {
        Ok(bytes)
    } else {
        Err(OidError::WidthMismatch)
    }
}

fn hex_nibble(c: u8) -> (r: Option<u8>)
    ensures
        r == hex_value(c),
        r matches Some(v) ==> v < 16,
{
    if 48 <= c && c <= 57 {
        Some(c - 48)
    } else if 97 <= c && c <= 102 {
        Some(c - 87)
    } else if 65 <= c && c <= 70 {
        Some(c - 55)
    } else {
        None
    }
}

fn hex_char(n: u8) -> (r: u8)
    requires
        n < 16,
    ensures
        r == hex_digit(n),
{
    if n < 10 {
        48 + n
    } else {
        87 + n
    }
}

/// A hash value naming an object of any kind.
#[derive(Clone, Copy, Debug, Eq, Ord, Hash)]
pub struct ObjectId {
    algo: HashAlgo,
    raw: [u8; GIT_MAX_RAWSZ],
}

impl View for ObjectId {
    type V = Seq<u8>;

    /// The hash bytes, exactly as wide as the algorithm says.
    closed spec fn view(&self) -> Seq<u8> {
        self.raw@.subrange(0, self.algo.spec_width() as int)
    }
}

impl ObjectId {
    /// The bytes behind the hash are zero.
    pub closed spec fn wf(&self) -> bool {
        forall|i: int| self.algo.spec_width() <= i < GIT_MAX_RAWSZ ==> self.raw@[i] == 0u8
    }

    pub closed spec fn spec_algo(&self) -> HashAlgo {
        self.algo
    }

    pub fn algo(&self) -> (a: HashAlgo)
        ensures
            a == self.spec_algo(),
    {
        self.algo
    }

    /// The null identifier: every byte zero.
    pub fn null(algo: HashAlgo) -> (r: ObjectId)
        ensures
            r.wf(),
            r.spec_algo() == algo,
            r@ == Seq::new(algo.spec_width(), |i: int| 0u8),
    {
        let r = ObjectId { algo, raw: [0u8; GIT_MAX_RAWSZ] };
        assert(r@ =~= Seq::new(algo.spec_width(), |i: int| 0u8));
        r
    }

    /// An identifier is as wide as its algorithm says.
    pub proof fn lemma_width(&self)
        ensures
            self@.len() == self.spec_algo().spec_width(),
    {
    }

    /// Among well-formed identifiers, equality is equality of the hash bytes.
    pub proof fn lemma_eq_bytewise(&self, other: &ObjectId)
        requires
            self.wf(),
            other.wf(),
        ensures
            (*self == *other) <==> (self@ == other@),
    {
        if self@ == other@ {
            assert(self@.len() == self.algo.spec_width());
            assert(other@.len() == other.algo.spec_width());
            assert(self.algo == other.algo);
            assert forall|i: int| 0 <= i < GIT_MAX_RAWSZ implies self.raw@[i] == other.raw@[i] by {
                if i < self.algo.spec_width() {
                    assert(self@[i] == other@[i]);
                }
            }
            assert(self.raw =~= other.raw);
        }
    }

    /// Copies a hash out of the store's native bytes, which must be exactly
    /// as wide as the configured algorithm.
    pub fn from_native_bytes(algo: HashAlgo, bytes: &[u8]) -> (r: Result<ObjectId, OidError>)
        ensures
            match spec_from_native_bytes(algo, bytes@) {
                Ok(b) => r matches Ok(o) && o@ == b && o.wf() && o.spec_algo() == algo,
                Err(e) => r matches Err(x) && x == e,
            },
    {
        let w = algo.width();
        if bytes.len() != w {
            return Err(OidError::WidthMismatch);
        }
        let mut raw = [0u8; GIT_MAX_RAWSZ];
        let mut i: usize = 0;
        while i < w
            invariant
                i <= w <= GIT_MAX_RAWSZ,
                w == bytes@.len(),
                forall|k: int| 0 <= k < i ==> raw@[k] == bytes@[k],
                forall|k: int| i <= k < GIT_MAX_RAWSZ ==> raw@[k] == 0u8,
            decreases w - i,
        {
            raw[i] = bytes[i];
            i += 1;
        }
        let o = ObjectId { algo, raw };
        assert(o@ =~= bytes@);
        Ok(o)
    }

    /// The hash bytes, borrowed.
    pub fn as_raw_bytes(&self) -> (r: &[u8])
        ensures
            r@ == self@,
    {
        slice_subrange(self.raw.as_slice(), 0, self.algo.width())
    }

    /// The hash as the store's native bytes.
    pub fn to_native_bytes(&self) -> (r: Vec<u8>)
        ensures
            r@ == self@,
    {
        slice_to_vec(self.as_raw_bytes())
    }

    /// Reads a hash written as hexadecimal digits of either case.
    pub fn from_hex(hex: &[u8]) -> (r: Result<ObjectId, OidError>)
        ensures
            match spec_parse_hex(hex@) {
                Ok(b) => r matches Ok(o) && o@ == b && o.wf(),
                Err(e) => r matches Err(x) && x == e,
            },
    {
        let n = hex.len();
        let algo = if n == 40 {
            HashAlgo::Sha1
        } else if n == 64 {
            HashAlgo::Sha256
        } else {
            return Err(OidError::MalformedHash);
        };
        let w = algo.width();
        let mut raw = [0u8; GIT_MAX_RAWSZ];
        let mut i: usize = 0;
        while i < w
            invariant
                i <= w <= GIT_MAX_RAWSZ,
                w == algo.spec_width(),
                hex@.len() == 2 * w,
                forall|k: int| 0 <= k < 2 * i ==> hex_value(#[trigger] hex@[k]) is Some,
                forall|k: int| 0 <= k < i ==> raw@[k] == hex_decode(hex@)[k],
                forall|k: int| i <= k < GIT_MAX_RAWSZ ==> raw@[k] == 0u8,
            decreases w - i,
        {
            let hi = match hex_nibble(hex[2 * i]) {
                Some(v) => v,
                None => {
                    return Err(OidError::MalformedHash);
                },
            };
            let lo = match hex_nibble(hex[2 * i + 1]) {
                Some(v) => v,
                None => {
                    return Err(OidError::MalformedHash);
                },
            };
            raw[i] = hi * 16 + lo;
            i += 1;
        }
        let o = ObjectId { algo, raw };
        assert(o@ =~= hex_decode(hex@));
        Ok(o)
    }

    /// Reads a hash from its textual form.
    pub fn parse_hex(s: &str) -> (r: Result<ObjectId, OidError>)
        ensures
            match spec_parse_hex(s.spec_bytes()) {
                Ok(b) => r matches Ok(o) && o@ == b && o.wf(),
                Err(e) => r matches Err(x) && x == e,
            },
    {
        ObjectId::from_hex(s.as_bytes())
    }

    /// The hash as lower-case hexadecimal digits.
    pub fn to_hex(&self) -> (r: Vec<u8>)
        ensures
            r@ == hex_encode(self@),
    {
        let w = self.algo.width();
        let mut r: Vec<u8> = Vec::new();
        let mut i: usize = 0;
        while i < w
            invariant
                i <= w <= GIT_MAX_RAWSZ,
                w == self.algo.spec_width(),
                r@ == hex_encode(self@.subrange(0, i as int)),
            decreases w - i,
        {
            let b = self.raw[i];
            r.push(hex_char(b / 16));
            r.push(hex_char(b % 16));
            i += 1;
            assert(r@ =~= hex_encode(self@.subrange(0, i as int)));
        }
        assert(self@.subrange(0, w as int) =~= self@);
        r
    }

    /// The hash as text: lower-case hexadecimal.
    pub fn display(&self) -> (r: String)
        ensures
            r@ == ascii_chars(hex_encode(self@)),
    {
        let hex = self.to_hex();
        ascii_string(hex.as_slice())
    }
}

impl PartialEq for ObjectId {
    fn eq(&self, other: &ObjectId) -> (r: bool) {
        if self.algo != other.algo {
            return false;
        }
        let mut i: usize = 0;
        while i < GIT_MAX_RAWSZ
            invariant
                i <= GIT_MAX_RAWSZ,
                forall|k: int| 0 <= k < i ==> self.raw@[k] == other.raw@[k],
            decreases GIT_MAX_RAWSZ - i,
        {
            if self.raw[i] != other.raw[i] {
                return false;
            }
            i += 1;
        }
        assert(self.raw =~= other.raw);
        true
    }
}

/// The order of identifiers. Those of the narrow hash come before those of
/// the wide one; among identifiers of one width the order is byte-wise.
pub open spec fn id_order(a: ObjectId, b: ObjectId) -> Ordering {
    if a.spec_algo() != b.spec_algo() {
        if a.spec_algo() == HashAlgo::Sha1 {
            Ordering::Less
        } else {
            Ordering::Greater
        }
    } else {
        match lex_sign(a@, b@) {
            Sign::Less => Ordering::Less,
            Sign::Equal => Ordering::Equal,
            Sign::Greater => Ordering::Greater,
        }
    }
}

impl PartialOrd for ObjectId {
    fn partial_cmp(&self, other: &ObjectId) -> (r: Option<Ordering>) {
        match (self.algo, other.algo) {
            (HashAlgo::Sha1, HashAlgo::Sha256) => Some(Ordering::Less),
            (HashAlgo::Sha256, HashAlgo::Sha1) => Some(Ordering::Greater),
            _ => match lex_compare(self.as_raw_bytes(), other.as_raw_bytes()) {
                Sign::Less => Some(Ordering::Less),
                Sign::Equal => Some(Ordering::Equal),
                Sign::Greater => Some(Ordering::Greater),
            },
        }
    }
}

impl PartialOrdSpecImpl for ObjectId {
    open spec fn obeys_partial_cmp_spec() -> bool {
        true
    }

    open spec fn partial_cmp_spec(&self, other: &ObjectId) -> Option<Ordering> {
        Some(id_order(*self, *other))
    }
}

impl PartialEqSpecImpl for ObjectId {
    open spec fn obeys_eq_spec() -> bool {
        true
    }

    open spec fn eq_spec(&self, other: &ObjectId) -> bool {
        *self == *other
    }
}

/// The store's own fixed-size slot for a hash: the hash bytes first, zeros
/// behind them.
#[allow(non_camel_case_types)]
#[derive(Clone, Copy, Debug)]
pub struct object_id(pub [u8; GIT_MAX_RAWSZ]);

/// A hash laid out in a slot of the widest hash, padded with zeros.
pub open spec fn padded(hash: Seq<u8>) -> Seq<u8> {
    Seq::new(
        GIT_MAX_RAWSZ as nat,
        |i: int|
            if i < hash.len() {
                hash[i]
            } else {
                0u8
            },
    )
}

impl From<ObjectId> for object_id {
    fn from(oid: ObjectId) -> (r: object_id) {
        object_id(oid.raw)
    }
}

impl FromSpecImpl<ObjectId> for object_id {
    open spec fn obeys_from_spec() -> bool {
        true
    }

    open spec fn from_spec(oid: ObjectId) -> object_id {
        oid.spec_slot()
    }
}

impl ObjectId {
    /// The store slot that holds this identifier.
    pub closed spec fn spec_slot(&self) -> object_id {
        object_id(self.raw)
    }

    /// The slot of an identifier holds its hash, padded with zeros.
    pub proof fn lemma_slot(&self)
        requires
            self.wf(),
        ensures
            self.spec_slot().0@ == padded(self@),
    {
        assert(self.raw@ =~= padded(self@));
    }

    /// Takes the hash of the configured algorithm out of a store slot.
    pub fn from_raw(algo: HashAlgo, slot: &object_id) -> (r: ObjectId)
        ensures
            r@ == slot.0@.subrange(0, algo.spec_width() as int),
            r.spec_algo() == algo,
            r.wf(),
    {
        let w = algo.width();
        let mut raw = [0u8; GIT_MAX_RAWSZ];
        let mut i: usize = 0;
        while i < w
            invariant
                i <= w <= GIT_MAX_RAWSZ,
                forall|k: int| 0 <= k < i ==> raw@[k] == slot.0@[k],
                forall|k: int| i <= k < GIT_MAX_RAWSZ ==> raw@[k] == 0u8,
            decreases w - i,
        {
            raw[i] = slot.0[i];
            i += 1;
        }
        let r = ObjectId { algo, raw };
        assert(r@ =~= slot.0@.subrange(0, algo.spec_width() as int));
        r
    }
}

/// An identifier put into a store slot and taken out again under its own
/// algorithm is the same identifier: `back` stands for what was taken out.
pub proof fn lemma_slot_round_trip(o: ObjectId, back: ObjectId)
    requires
        o.wf(),
        back.wf(),
        back.spec_algo() == o.spec_algo(),
        back@ == o.spec_slot().0@.subrange(0, o.spec_algo().spec_width() as int),
    ensures
        back == o,
{
    o.lemma_slot();
    o.lemma_width();
    assert(back@ =~= o@);
    back.lemma_eq_bytewise(&o);
}

/// Reading native bytes of the configured width and writing them back gives
/// the same bytes: `o` stands for the identifier read from `b`.
pub proof fn lemma_native_bytes_round_trip(algo: HashAlgo, b: Seq<u8>, o: ObjectId)
    requires
        b.len() == algo.spec_width(),
        spec_from_native_bytes(algo, b) == Ok::<Seq<u8>, OidError>(o@),
    ensures
        spec_from_native_bytes(algo, b) is Ok,
        o@ == b,
{
}

/// A hexadecimal digit read and written again is the same digit in lower
/// case.
pub proof fn lemma_hex_digit_round_trip(c: u8)
    requires
        hex_value(c) is Some,
    ensures
        hex_value(c).unwrap() < 16,
        hex_digit(hex_value(c).unwrap()) == to_lower(c),
{
}

/// Parsing a hexadecimal hash of forty or sixty-four digits and rendering the
/// result gives the input in lower case.
pub proof fn lemma_hex_round_trip(h: Seq<u8>)
    requires
        h.len() == 40 || h.len() == 64,
        is_hex(h),
    ensures
        spec_parse_hex(h) matches Ok(b) && hex_encode(b) == lowercase(h),
{
    let b = hex_decode(h);
    assert forall|i: int| 0 <= i < h.len() implies hex_encode(b)[i] == lowercase(h)[i] by {
        let k = i / 2;
        let hi = hex_value(h[2 * k]).unwrap();
        let lo = hex_value(h[2 * k + 1]).unwrap();
        lemma_hex_digit_round_trip(h[2 * k]);
        lemma_hex_digit_round_trip(h[2 * k + 1]);
        assert(b[k] == (hi * 16 + lo) as u8);
        assert(b[k] / 16 == hi && b[k] % 16 == lo);
    }
    assert(hex_encode(b) =~= lowercase(h));
}

/// An identifier that names an object of one kind only. `KIND` is the
/// store's code for that kind.
#[derive(Clone, Copy, Debug, Eq, Ord, Hash)]
pub struct TypedId<const KIND: u8> {
    oid: ObjectId,
}

/// Names a commit.
pub type CommitId = TypedId<1>;

/// Names a tree.
pub type TreeId = TypedId<2>;

/// Names a blob.
pub type BlobId = TypedId<3>;

impl<const KIND: u8> View for TypedId<KIND> {
    type V = Seq<u8>;

    closed spec fn view(&self) -> Seq<u8> {
        self.oid@
    }
}

impl<const KIND: u8> PartialEq for TypedId<KIND> {
    fn eq(&self, other: &TypedId<KIND>) -> (r: bool) {
        self.oid == other.oid
    }
}

impl<const KIND: u8> PartialOrd for TypedId<KIND> {
    fn partial_cmp(&self, other: &TypedId<KIND>) -> (r: Option<Ordering>) {
        self.oid.partial_cmp(&other.oid)
    }
}

impl<const KIND: u8> PartialOrdSpecImpl for TypedId<KIND> {
    open spec fn obeys_partial_cmp_spec() -> bool {
        true
    }

    open spec fn partial_cmp_spec(&self, other: &TypedId<KIND>) -> Option<Ordering> {
        Some(id_order(self.spec_oid(), other.spec_oid()))
    }
}

impl<const KIND: u8> PartialEqSpecImpl for TypedId<KIND> {
    open spec fn obeys_eq_spec() -> bool {
        true
    }

    open spec fn eq_spec(&self, other: &TypedId<KIND>) -> bool {
        *self == *other
    }
}

impl<const KIND: u8> TypedId<KIND> {
    pub closed spec fn spec_oid(&self) -> ObjectId {
        self.oid
    }

    pub open spec fn wf(&self) -> bool {
        self.spec_oid().wf()
    }

    /// An identifier and its untyped form hold the same hash.
    pub proof fn lemma_view(&self)
        ensures
            self@ == self.spec_oid()@,
    {
    }

    /// Says of an untyped identifier which kind of object it names.
    pub fn from_oid(oid: ObjectId) -> (r: TypedId<KIND>)
        ensures
            r.spec_oid() == oid,
            r@ == oid@,
    {
        TypedId { oid }
    }

    /// The identifier without its kind.
    pub fn oid(&self) -> (r: ObjectId)
        ensures
            r == self.spec_oid(),
            r@ == self@,
    {
        self.oid
    }

    /// Reads an identifier written as hexadecimal digits of either case.
    pub fn from_bytes(hex: &[u8]) -> (r: Result<TypedId<KIND>, OidError>)
        ensures
            match spec_parse_hex(hex@) {
                Ok(b) => r matches Ok(id) && id@ == b && id.wf(),
                Err(e) => r matches Err(x) && x == e,
            },
    {
        match ObjectId::from_hex(hex) {
            Ok(oid) => Ok(TypedId { oid }),
            Err(e) => Err(e),
        }
    }

    /// Reads an identifier from its textual form.
    pub fn parse_hex(s: &str) -> (r: Result<TypedId<KIND>, OidError>)
        ensures
            match spec_parse_hex(s.spec_bytes()) {
                Ok(b) => r matches Ok(id) && id@ == b && id.wf(),
                Err(e) => r matches Err(x) && x == e,
            },
    {
        TypedId::from_bytes(s.as_bytes())
    }

    /// The identifier as text: lower-case hexadecimal.
    pub fn display(&self) -> (r: String)
        ensures
            r@ == ascii_chars(hex_encode(self@)),
    {
        self.oid.display()
    }
}

} // verus!
