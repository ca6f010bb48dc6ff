//! The textual format of a commit: header lines, a blank line, the message.

use bstr::ByteSlice;
use vstd::prelude::*;
use crate::bytes::{
    bytes_eq, first_match, has_match, lemma_first_match_exists, matches_at, spec_split2, split2,
};
use crate::object::RawCommit;
use crate::oid::{spec_parse_hex, CommitId, TreeId, TypedId};

verus! {

/// A line feed.
pub open spec fn line_feed() -> Seq<u8> {
    seq![10u8]
}

/// The blank line between header and message.
pub open spec fn header_end() -> Seq<u8> {
    seq![10u8, 10u8]
}

/// The space between a header keyword and its value.
pub open spec fn space() -> Seq<u8> {
    seq![32u8]
}

/// The keyword `tree`.
pub open spec fn kw_tree() -> Seq<u8> {
    seq![116u8, 114u8, 101u8, 101u8]
}

/// The keyword `parent`.
pub open spec fn kw_parent() -> Seq<u8> {
    seq![112u8, 97u8, 114u8, 101u8, 110u8, 116u8]
}

/// The keyword `author`.
pub open spec fn kw_author() -> Seq<u8> {
    seq![97u8, 117u8, 116u8, 104u8, 111u8, 114u8]
}

/// The keyword `committer`.
pub open spec fn kw_committer() -> Seq<u8> {
    seq![99u8, 111u8, 109u8, 109u8, 105u8, 116u8, 116u8, 101u8, 114u8]
}

/// A line without the carriage return that may end it.
pub open spec fn trim_cr(line: Seq<u8>) -> Seq<u8> {
    if line.len() > 0 && line.last() == 13u8 {
        line.drop_last()
    } else {
        line
    }
}

/// The lines of a text, without their terminators. A line ends at a line
/// feed; a carriage return just before that line feed belongs to the
/// terminator. The last line needs no terminator, and a text that ends in one
/// has no empty line behind it.
pub open spec fn spec_lines(s: Seq<u8>) -> Seq<Seq<u8>>
    decreases s.len(),
    via spec_lines_decreases
{
    if s.len() == 0 {
        Seq::empty()
    } else if has_match(s, line_feed()) {
        let i = first_match(s, line_feed());
        seq![trim_cr(s.subrange(0, i))] + spec_lines(s.subrange(i + 1, s.len() as int))
    } else {
        seq![s]
    }
}

#[via_fn]
proof fn spec_lines_decreases(s: Seq<u8>) {
    if s.len() != 0 && has_match(s, line_feed()) {
        let w = choose|i: int| matches_at(s, line_feed(), i);
        lemma_first_match_exists(s, line_feed(), w);
    }
}

/// `bstr::ByteSlice::lines`, collected: the lines of `text` in order, each
/// without its `\n` or `\r\n` terminator, as `spec_lines` tells them.
#[verifier::external_body]
fn lines_of<'a>(text: &'a [u8]) -> (lines: Vec<&'a [u8]>)
    ensures
        lines@.len() == spec_lines(text@).len(),
        forall|i: int| 0 <= i < lines@.len() ==> (#[trigger] lines@[i])@ == spec_lines(text@)[i],
{
    text.lines().collect()
}

/// What the header lines read so far have said.
pub struct HeaderFields {
    pub tree: Option<Seq<u8>>,
    pub parents: Seq<Seq<u8>>,
    pub author: Option<Seq<u8>>,
    pub committer: Option<Seq<u8>>,
}

/// What a commit says, as plain values.
pub struct CommitView {
    pub tree: Seq<u8>,
    pub parents: Seq<Seq<u8>>,
    pub author: Seq<u8>,
    pub committer: Seq<u8>,
    pub body: Seq<u8>,
}

/// Nothing read yet.
pub open spec fn no_fields() -> HeaderFields {
    HeaderFields { tree: None, parents: Seq::empty(), author: None, committer: None }
}

/// Takes in one header line, given as keyword and value. A later `tree`,
/// `author` or `committer` replaces an earlier one; each `parent` is added
/// behind those already there; a line with any other keyword changes
/// nothing. A `tree` or `parent` whose value is no hash fails.
pub open spec fn header_step(f: HeaderFields, key: Seq<u8>, value: Seq<u8>) -> Option<
    HeaderFields,
> {
    if key == kw_tree() {
        match spec_parse_hex(value) {
            Ok(t) => Some(HeaderFields { tree: Some(t), ..f }),
            Err(_) => None,
        }
    } else if key == kw_parent() {
        match spec_parse_hex(value) {
            Ok(p) => Some(HeaderFields { parents: f.parents.push(p), ..f }),
            Err(_) => None,
        }
    } else if key == kw_author() {
        Some(HeaderFields { author: Some(value), ..f })
    } else if key == kw_committer() {
        Some(HeaderFields { committer: Some(value), ..f })
    } else {
        Some(f)
    }
}

/// Reads header lines in order up to the first empty one. A line without a
/// space fails.
pub open spec fn scan_header(lines: Seq<Seq<u8>>, f: HeaderFields) -> Option<HeaderFields>
    decreases lines.len(),
{
    if lines.len() == 0 || lines[0].len() == 0 {
        Some(f)
    } else {
        match spec_split2(lines[0], space()) {
            None => None,
            Some((key, value)) => match header_step(f, key, value) {
                None => None,
                Some(g) => scan_header(lines.drop_first(), g),
            },
        }
    }
}

/// The commit that a payload describes: the header ends at the first blank
/// line, the message is all that follows it, and the header must name a
/// tree, an author and a committer.
pub open spec fn spec_parse_commit(payload: Seq<u8>) -> Option<CommitView> {
    match spec_split2(payload, header_end()) {
        None => None,
        Some((header, body)) => commit_of(scan_header(spec_lines(header), no_fields()), body),
    }
}

/// The commit that the fields of a header and a message make, if the header
/// was read without failure and named a tree, an author and a committer.
pub open spec fn commit_of(fields: Option<HeaderFields>, body: Seq<u8>) -> Option<CommitView> {
    match fields {
        None => None,
        Some(f) => if f.tree is Some && f.author is Some && f.committer is Some {
            Some(
                CommitView {
                    tree: f.tree.unwrap(),
                    parents: f.parents,
                    author: f.author.unwrap(),
                    committer: f.committer.unwrap(),
                    body,
                },
            )
        } else {
            None
        },
    }
}

/// A parsed commit. The byte spans borrow from the payload it was parsed
/// from.
#[derive(Debug)]
pub struct Commit<'a> {
    tree: TreeId,
    parents: Vec<CommitId>,
    author: &'a [u8],
    committer: &'a [u8],
    body: &'a [u8],
}

/// The hashes behind a sequence of commit identifiers.
pub open spec fn id_hashes(ids: Seq<CommitId>) -> Seq<Seq<u8>> {
    Seq::new(ids.len(), |i: int| ids[i]@)
}

impl<'a> View for Commit<'a> {
    type V = CommitView;

    closed spec fn view(&self) -> CommitView {
        CommitView {
            tree: self.tree@,
            parents: id_hashes(self.parents@),
            author: self.author@,
            committer: self.committer@,
            body: self.body@,
        }
    }
}

impl<'a> Commit<'a> {
    pub closed spec fn spec_tree(&self) -> TreeId {
        self.tree
    }

    pub closed spec fn spec_parents(&self) -> Seq<CommitId> {
        self.parents@
    }

    /// Every identifier in the commit is well formed.
    pub open spec fn wf(&self) -> bool {
        &&& self.spec_tree().wf()
        &&& forall|i: int|
            0 <= i < self.spec_parents().len() ==> (#[trigger] self.spec_parents()[i]).wf()
    }

    /// The view of a commit is made of the views of its parts.
    pub proof fn lemma_view(&self)
        ensures
            self@.tree == self.spec_tree()@,
            self@.parents == id_hashes(self.spec_parents()),
    {
    }

    /// The tree the commit is a snapshot of.
    pub fn tree(&self) -> (r: &TreeId)
        ensures
            *r == self.spec_tree(),
            r@ == self@.tree,
    {
        &self.tree
    }

    /// The parents, in the order of the header.
    pub fn parents(&self) -> (r: &[CommitId])
        ensures
            r@ == self.spec_parents(),
            id_hashes(r@) == self@.parents,
    {
        self.parents.as_slice()
    }

    /// The author line: name, address and time, undecoded.
    pub fn author(&self) -> (r: &'a [u8])
        ensures
            r@ == self@.author,
    {
        self.author
    }

    /// The committer line, undecoded.
    pub fn committer(&self) -> (r: &'a [u8])
        ensures
            r@ == self@.committer,
    {
        self.committer
    }

    /// The message.
    pub fn body(&self) -> (r: &'a [u8])
        ensures
            r@ == self@.body,
    {
        self.body
    }
}

spec fn opt_view<const KIND: u8>(o: Option<TypedId<KIND>>) -> Option<Seq<u8>> {
    match o {
        Some(id) => Some(id@),
        None => None,
    }
}

spec fn opt_bytes(o: Option<&[u8]>) -> Option<Seq<u8>> {
    match o {
        Some(b) => Some(b@),
        None => None,
    }
}

impl RawCommit {
    /// Parses the payload of a commit.
    pub fn parse(&self) -> (r: Option<Commit<'_>>)
        ensures
            match spec_parse_commit(self@) {
                Some(c) => r matches Some(x) && x@ == c && x.wf(),
                None => r is None,
            },
    {
        let sep = [10u8, 10u8];
        assert(sep@ =~= header_end());
        let (header, body) = match split2(self.as_bytes(), sep.as_slice()) {
            Some(parts) => parts,
            None => {
                return None;
            },
        };
        let lines = lines_of(header);
        let ghost all = spec_lines(header@);
        assert(lines@.len() == all.len());
        let sp = [32u8];
        assert(sp@ =~= space());
        let kw_t = [116u8, 114u8, 101u8, 101u8];
        assert(kw_t@ =~= kw_tree());
        let kw_p = [112u8, 97u8, 114u8, 101u8, 110u8, 116u8];
        assert(kw_p@ =~= kw_parent());
        let kw_a = [97u8, 117u8, 116u8, 104u8, 111u8, 114u8];
        assert(kw_a@ =~= kw_author());
        let kw_c = [99u8, 111u8, 109u8, 109u8, 105u8, 116u8, 116u8, 101u8, 114u8];
        assert(kw_c@ =~= kw_committer());
        let mut tree: Option<TreeId> = None;
        let mut parents: Vec<CommitId> = Vec::new();
        let mut author: Option<&[u8]> = None;
        let mut committer: Option<&[u8]> = None;
        let mut i: usize = 0;
        assert(all.subrange(0, all.len() as int) =~= all);
        assert(id_hashes(parents@) =~= Seq::<Seq<u8>>::empty());
        while i < lines.len() && lines[i].len() != 0
            invariant
                i <= lines@.len(),
                lines@.len() == all.len(),
                all == spec_lines(header@),
                spec_split2(self@, header_end()) == Some((header@, body@)),
                forall|k: int| 0 <= k < lines@.len() ==> (#[trigger] lines@[k])@ == all[k],
                sp@ == space(),
                kw_t@ == kw_tree(),
                kw_p@ == kw_parent(),
                kw_a@ == kw_author(),
                kw_c@ == kw_committer(),
                tree matches Some(t) ==> t.wf(),
                forall|k: int| 0 <= k < parents@.len() ==> (#[trigger] parents@[k]).wf(),
                scan_header(all, no_fields()) == scan_header(
                    all.subrange(i as int, all.len() as int),
                    HeaderFields {
                        tree: opt_view(tree),
                        parents: id_hashes(parents@),
                        author: opt_bytes(author),
                        committer: opt_bytes(committer),
                    },
                ),
            decreases lines@.len() - i,
        {
            let line = lines[i];
            let ghost rest = all.subrange(i as int, all.len() as int);
            assert(rest.len() > 0 && rest[0] == line@);
            assert(rest.drop_first() =~= all.subrange(i + 1, all.len() as int));
            let ghost before = id_hashes(parents@);
            let (key, value) = match split2(line, sp.as_slice()) {
                Some(parts) => parts,
                None => {
                    return None;
                },
            };
            if bytes_eq(key, kw_t.as_slice()) {
                match TreeId::from_bytes(value) {
                    Ok(t) => {
                        tree = Some(t);
                    },
                    Err(_) => {
                        return None;
                    },
                }
            } else if bytes_eq(key, kw_p.as_slice()) {
                match CommitId::from_bytes(value) {
                    Ok(p) => {
                        parents.push(p);
                        assert(id_hashes(parents@) =~= before.push(p@));
                    },
                    Err(_) => {
                        return None;
                    },
                }
            } else if bytes_eq(key, kw_a.as_slice()) {
                author = Some(value);
            } else if bytes_eq(key, kw_c.as_slice()) {
                committer = Some(value);
            }
            i += 1;
        }
        let ghost rest = all.subrange(i as int, all.len() as int);
        assert(rest.len() == 0 || rest[0].len() == 0) by {
            if i < lines@.len() {
                assert(rest[0] == lines@[i as int]@);
            }
        }
        match (tree, author, committer) {
            (Some(tree), Some(author), Some(committer)) => Some(
                Commit { tree, parents, author, committer, body },
            ),
            _ => None,
        }
    }
}

} // verus!
