//! Object payloads as the store hands them out, and views of them that are
//! checked for their kind.

use vstd::prelude::*;

verus! {

/// The store's classification of an object.
#[allow(non_camel_case_types)]
#[derive(Clone, Copy, Debug, PartialEq, Eq, Structural)]
pub enum object_type {
    OBJ_BAD,
    OBJ_NONE,
    OBJ_COMMIT,
    OBJ_TREE,
    OBJ_BLOB,
    OBJ_TAG,
    OBJ_OFS_DELTA,
    OBJ_REF_DELTA,
    OBJ_ANY,
    OBJ_MAX,
}

impl object_type {
    /// The number by which the store knows this kind.
    pub open spec fn spec_code(self) -> int {
        match self {
            object_type::OBJ_BAD => -1,
            object_type::OBJ_NONE => 0,
            object_type::OBJ_COMMIT => 1,
            object_type::OBJ_TREE => 2,
            object_type::OBJ_BLOB => 3,
            object_type::OBJ_TAG => 4,
            object_type::OBJ_OFS_DELTA => 6,
            object_type::OBJ_REF_DELTA => 7,
            object_type::OBJ_ANY => 8,
            object_type::OBJ_MAX => 9,
        }
    }

    pub fn code(self) -> (c: i32)
        ensures
            c == self.spec_code(),
    {
        match self {
            object_type::OBJ_BAD => -1,
            object_type::OBJ_NONE => 0,
            object_type::OBJ_COMMIT => 1,
            object_type::OBJ_TREE => 2,
            object_type::OBJ_BLOB => 3,
            object_type::OBJ_TAG => 4,
            object_type::OBJ_OFS_DELTA => 6,
            object_type::OBJ_REF_DELTA => 7,
            object_type::OBJ_ANY => 8,
            object_type::OBJ_MAX => 9,
        }
    }

    /// The kind that the store knows by the given number, if there is one.
    pub fn from_code(c: i32) -> (r: Option<object_type>)
        ensures
            match r {
                Some(t) => t.spec_code() == c,
                None => forall|t: object_type| t.spec_code() != c,
            },
    {
        if c == -1 {
            Some(object_type::OBJ_BAD)
        } else if c == 0 {
            Some(object_type::OBJ_NONE)
        } else if c == 1 {
            Some(object_type::OBJ_COMMIT)
        } else if c == 2 {
            Some(object_type::OBJ_TREE)
        } else if c == 3 {
            Some(object_type::OBJ_BLOB)
        } else if c == 4 {
            Some(object_type::OBJ_TAG)
        } else if c == 6 {
            Some(object_type::OBJ_OFS_DELTA)
        } else if c == 7 {
            Some(object_type::OBJ_REF_DELTA)
        } else if c == 8 {
            Some(object_type::OBJ_ANY)
        } else if c == 9 {
            Some(object_type::OBJ_MAX)
        } else {
            None
        }
    }
}

/// The payload of one object, owned, with the kind the store reported for it.
/// It is moved or borrowed, never duplicated.
#[derive(Debug)]
pub struct RawObject {
    kind: object_type,
    data: Vec<u8>,
}

impl View for RawObject {
    type V = Seq<u8>;

    closed spec fn view(&self) -> Seq<u8> {
        self.data@
    }
}

impl RawObject {
    pub closed spec fn spec_kind(&self) -> object_type {
        self.kind
    }

    /// Takes ownership of a payload the store reported as being of `kind`.
    pub fn new(kind: object_type, data: Vec<u8>) -> (r: RawObject)
        ensures
            r@ == data@,
            r.spec_kind() == kind,
    {
        RawObject { kind, data }
    }

    pub fn kind(&self) -> (k: object_type)
        ensures
            k == self.spec_kind(),
    {
        self.kind
    }

    /// What a lookup in the store gave: nothing where the store had no such
    /// object, else the kind it reported and the payload.
    pub fn read(found: Option<RawObject>) -> (r: Option<(object_type, RawObject)>)
        ensures
            match found {
                Some(o) => r == Some((o.spec_kind(), o)),
                None => r is None,
            },
    {
        match found {
            Some(o) => Some((o.kind, o)),
            None => None,
        }
    }

    pub fn as_bytes(&self) -> (r: &[u8])
        ensures
            r@ == self@,
    {
        self.data.as_slice()
    }
}

/// A payload known to be of the kind whose code is `KIND`.
#[derive(Debug)]
pub struct TypedObject<const KIND: u8> {
    raw: RawObject,
}

/// The payload of a commit.
pub type RawCommit = TypedObject<1>;

/// The payload of a tree.
pub type RawTree = TypedObject<2>;

/// The payload of a blob.
pub type RawBlob = TypedObject<3>;

impl<const KIND: u8> View for TypedObject<KIND> {
    type V = Seq<u8>;

    closed spec fn view(&self) -> Seq<u8> {
        self.raw@
    }
}

impl<const KIND: u8> TypedObject<KIND> {
    /// Accepts what a lookup gave if it is an object of this kind. An object
    /// of another kind counts as not found.
    pub fn read(found: Option<RawObject>) -> (r: Option<TypedObject<KIND>>)
        ensures
            match found {
                Some(o) if o.spec_kind().spec_code() == KIND => r matches Some(t) && t@ == o@,
                _ => r is None,
            },
    {
        match RawObject::read(found) {
            Some((t, o)) => {
                if t.code() == KIND as i32 {
                    Some(TypedObject { raw: o })
                } else {
                    None
                }
            },
            None => None,
        }
    }

    pub fn as_bytes(&self) -> (r: &[u8])
        ensures
            r@ == self@,
    {
        self.raw.as_bytes()
    }
}

} // verus!
