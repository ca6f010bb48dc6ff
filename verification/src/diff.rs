//! Change records between two trees: what the store reports for each
//! changed path, and the typed record it becomes.

use bstr::ByteSlice;
use vstd::prelude::*;
use vstd::slice::slice_to_vec;
use vstd::string::StringExecFns;
use crate::oid::{hex_encode, object_id, BlobId, CommitId, HashAlgo, ObjectId};
use crate::text::{ascii_chars, ascii_string};

verus! {

pub const DIFF_STATUS_ADDED: u8 = 65;

pub const DIFF_STATUS_COPIED: u8 = 67;

pub const DIFF_STATUS_DELETED: u8 = 68;

pub const DIFF_STATUS_MODIFIED: u8 = 77;

pub const DIFF_STATUS_TYPE_CHANGED: u8 = 84;

pub const DIFF_STATUS_RENAMED: u8 = 82;

/// The type and permission word of a tree entry. It is shown in octal and
/// not decoded any further.
#[derive(Clone, Copy, Debug, PartialEq, Eq, Structural)]
pub struct FileMode(pub u16);

/// The ASCII digit of one octal place of a mode; `place` is what the place
/// is worth.
pub open spec fn octal_digit(mode: u16, place: int) -> u8
    recommends
        place > 0,
{
    (48 + (mode as int / place) % 8) as u8
}

/// A mode as six octal digits, leading zeros included.
pub open spec fn spec_octal6(mode: u16) -> Seq<u8> {
    seq![
        octal_digit(mode, 32768),
        octal_digit(mode, 4096),
        octal_digit(mode, 512),
        octal_digit(mode, 64),
        octal_digit(mode, 8),
        octal_digit(mode, 1),
    ]
}

impl FileMode {
    /// The mode as text: six octal digits.
    pub fn display(&self) -> (r: String)
        ensures
            r@ == ascii_chars(spec_octal6(self.0)),
    {
        let m = self.0;
        let digits = [
            48 + ((m / 32768) % 8) as u8,
            48 + ((m / 4096) % 8) as u8,
            48 + ((m / 512) % 8) as u8,
            48 + ((m / 64) % 8) as u8,
            48 + ((m / 8) % 8) as u8,
            48 + (m % 8) as u8,
        ];
        assert(digits@ =~= spec_octal6(m));
        ascii_string(digits.as_slice())
    }
}

/// One side of a change as the store reports it.
#[derive(Debug)]
pub struct DiffFile {
    pub oid: object_id,
    pub path: Vec<u8>,
    pub mode: u16,
}

/// One change as the store reports it: both sides and a status letter.
#[derive(Debug)]
pub struct DiffRecord {
    pub a: DiffFile,
    pub b: DiffFile,
    pub score: u16,
    pub status: u8,
}

/// A report the store should never make.
#[derive(Clone, Copy, Debug, PartialEq, Eq, Structural)]
pub enum DiffDefect {
    /// The status letter is none of the known ones.
    UnknownStatus,
    /// A modification was reported with two different paths.
    PathMismatch,
}

/// One changed path between two trees.
#[derive(Debug)]
pub enum DiffTreeItem {
    Added { path: Vec<u8>, mode: FileMode, oid: BlobId },
    Deleted { path: Vec<u8>, mode: FileMode, oid: BlobId },
    Modified {
        path: Vec<u8>,
        from_mode: FileMode,
        from_oid: BlobId,
        to_mode: FileMode,
        to_oid: BlobId,
    },
    Renamed {
        to_path: Vec<u8>,
        to_mode: FileMode,
        to_oid: BlobId,
        from_path: Vec<u8>,
        from_mode: FileMode,
        from_oid: BlobId,
    },
    Copied {
        to_path: Vec<u8>,
        to_mode: FileMode,
        to_oid: BlobId,
        from_path: Vec<u8>,
        from_mode: FileMode,
        from_oid: BlobId,
    },
}

/// A path with the mode and the blob found there, as plain values.
pub struct EntryView {
    pub path: Seq<u8>,
    pub mode: u16,
    pub oid: Seq<u8>,
}

/// A change record as plain values.
pub enum DiffView {
    Added(EntryView),
    Deleted(EntryView),
    Modified { path: Seq<u8>, from_mode: u16, from_oid: Seq<u8>, to_mode: u16, to_oid: Seq<u8> },
    Renamed { to: EntryView, from: EntryView },
    Copied { to: EntryView, from: EntryView },
}

impl View for DiffTreeItem {
    type V = DiffView;

    open spec fn view(&self) -> DiffView {
        match *self {
            DiffTreeItem::Added { path, mode, oid } => DiffView::Added(
                EntryView { path: path@, mode: mode.0, oid: oid@ },
            ),
            DiffTreeItem::Deleted { path, mode, oid } => DiffView::Deleted(
                EntryView { path: path@, mode: mode.0, oid: oid@ },
            ),
            DiffTreeItem::Modified { path, from_mode, from_oid, to_mode, to_oid } => {
                DiffView::Modified {
                    path: path@,
                    from_mode: from_mode.0,
                    from_oid: from_oid@,
                    to_mode: to_mode.0,
                    to_oid: to_oid@,
                }
            },
            DiffTreeItem::Renamed {
                to_path,
                to_mode,
                to_oid,
                from_path,
                from_mode,
                from_oid,
            } => DiffView::Renamed {
                to: EntryView { path: to_path@, mode: to_mode.0, oid: to_oid@ },
                from: EntryView { path: from_path@, mode: from_mode.0, oid: from_oid@ },
            },
            DiffTreeItem::Copied {
                to_path,
                to_mode,
                to_oid,
                from_path,
                from_mode,
                from_oid,
            } => DiffView::Copied {
                to: EntryView { path: to_path@, mode: to_mode.0, oid: to_oid@ },
                from: EntryView { path: from_path@, mode: from_mode.0, oid: from_oid@ },
            },
        }
    }
}

/// The path a record is filed under: the path itself, or the new path of a
/// rename or copy.
pub open spec fn key_of(v: DiffView) -> Seq<u8> {
    match v {
        DiffView::Added(e) => e.path,
        DiffView::Deleted(e) => e.path,
        DiffView::Modified { path, .. } => path,
        DiffView::Renamed { to, .. } => to.path,
        DiffView::Copied { to, .. } => to.path,
    }
}

/// One reported side as plain values, its hash cut to the width of `algo`.
pub open spec fn entry_of(algo: HashAlgo, f: DiffFile) -> EntryView {
    EntryView { path: f.path@, mode: f.mode, oid: f.oid.0@.subrange(0, algo.spec_width() as int) }
}

/// The typed record for a report. `M` and `T` are a modification, whose two
/// paths must agree; `A` takes the right side, `D` the left; `R` and `C` take
/// both. Any other letter is a defect.
pub open spec fn spec_translate(algo: HashAlgo, r: DiffRecord) -> Result<DiffView, DiffDefect> {
    let a = entry_of(algo, r.a);
    let b = entry_of(algo, r.b);
    if r.status == DIFF_STATUS_MODIFIED || r.status == DIFF_STATUS_TYPE_CHANGED {
        if a.path == b.path {
            Ok(
                DiffView::Modified {
                    path: a.path,
                    from_mode: a.mode,
                    from_oid: a.oid,
                    to_mode: b.mode,
                    to_oid: b.oid,
                },
            )
        } else {
            Err(DiffDefect::PathMismatch)
        }
    } else if r.status == DIFF_STATUS_ADDED {
        Ok(DiffView::Added(b))
    } else if r.status == DIFF_STATUS_DELETED {
        Ok(DiffView::Deleted(a))
    } else if r.status == DIFF_STATUS_RENAMED {
        Ok(DiffView::Renamed { to: b, from: a })
    } else if r.status == DIFF_STATUS_COPIED {
        Ok(DiffView::Copied { to: b, from: a })
    } else {
        Err(DiffDefect::UnknownStatus)
    }
}

/// The views of a sequence of records.
pub open spec fn item_views(items: Seq<DiffTreeItem>) -> Seq<DiffView> {
    Seq::new(items.len(), |i: int| items[i]@)
}

/// Every report up to `n` translates.
pub open spec fn all_translate(algo: HashAlgo, records: Seq<DiffRecord>, n: int) -> bool {
    forall|i: int|
        0 <= i < n && i < records.len() ==> spec_translate(algo, #[trigger] records[i]) is Ok
}

/// `bstr`'s equality of two byte strings (`as_bstr` on each side, then
/// `==`), which compares their bytes.
#[verifier::external_body]
fn same_path(a: &[u8], b: &[u8]) -> (r: bool)
    ensures
        r == (a@ == b@),
{
    a.as_bstr() == b.as_bstr()
}

fn blob_of(algo: HashAlgo, slot: &object_id) -> (r: BlobId)
    ensures
        r@ == slot.0@.subrange(0, algo.spec_width() as int),
        r.wf(),
{
    BlobId::from_oid(ObjectId::from_raw(algo, slot))
}

impl DiffTreeItem {
    /// Every identifier in the record is well formed.
    pub open spec fn wf(&self) -> bool {
        match *self {
            DiffTreeItem::Added { oid, .. } => oid.wf(),
            DiffTreeItem::Deleted { oid, .. } => oid.wf(),
            DiffTreeItem::Modified { from_oid, to_oid, .. } => from_oid.wf() && to_oid.wf(),
            DiffTreeItem::Renamed { from_oid, to_oid, .. } => from_oid.wf() && to_oid.wf(),
            DiffTreeItem::Copied { from_oid, to_oid, .. } => from_oid.wf() && to_oid.wf(),
        }
    }

    /// Turns one report of the store into a typed record, or says what is
    /// wrong with the report.
    pub fn translate(algo: HashAlgo, item: &DiffRecord) -> (r: Result<DiffTreeItem, DiffDefect>)
        ensures
            match spec_translate(algo, *item) {
                Ok(v) => r matches Ok(x) && x@ == v && x.wf(),
                Err(e) => r matches Err(x) && x == e,
            },
    {
        let status = item.status;
        if status == DIFF_STATUS_MODIFIED || status == DIFF_STATUS_TYPE_CHANGED {
            if !same_path(item.a.path.as_slice(), item.b.path.as_slice()) {
                return Err(DiffDefect::PathMismatch);
            }
            Ok(
                DiffTreeItem::Modified {
                    path: slice_to_vec(item.a.path.as_slice()),
                    from_oid: blob_of(algo, &item.a.oid),
                    from_mode: FileMode(item.a.mode),
                    to_oid: blob_of(algo, &item.b.oid),
                    to_mode: FileMode(item.b.mode),
                },
            )
        } else if status == DIFF_STATUS_ADDED {
            Ok(
                DiffTreeItem::Added {
                    path: slice_to_vec(item.b.path.as_slice()),
                    oid: blob_of(algo, &item.b.oid),
                    mode: FileMode(item.b.mode),
                },
            )
        } else if status == DIFF_STATUS_DELETED {
            Ok(
                DiffTreeItem::Deleted {
                    path: slice_to_vec(item.a.path.as_slice()),
                    oid: blob_of(algo, &item.a.oid),
                    mode: FileMode(item.a.mode),
                },
            )
        } else if status == DIFF_STATUS_RENAMED {
            Ok(
                DiffTreeItem::Renamed {
                    to_path: slice_to_vec(item.b.path.as_slice()),
                    to_oid: blob_of(algo, &item.b.oid),
                    to_mode: FileMode(item.b.mode),
                    from_path: slice_to_vec(item.a.path.as_slice()),
                    from_oid: blob_of(algo, &item.a.oid),
                    from_mode: FileMode(item.a.mode),
                },
            )
        } else if status == DIFF_STATUS_COPIED {
            Ok(
                DiffTreeItem::Copied {
                    to_path: slice_to_vec(item.b.path.as_slice()),
                    to_oid: blob_of(algo, &item.b.oid),
                    to_mode: FileMode(item.b.mode),
                    from_path: slice_to_vec(item.a.path.as_slice()),
                    from_oid: blob_of(algo, &item.a.oid),
                    from_mode: FileMode(item.a.mode),
                },
            )
        } else {
            Err(DiffDefect::UnknownStatus)
        }
    }

    /// The path the record is filed under.
    pub fn borrow_key(&self) -> (r: &Vec<u8>)
        ensures
            r@ == key_of(self@),
    {
        match self {
            DiffTreeItem::Added { path, .. } => path,
            DiffTreeItem::Deleted { path, .. } => path,
            DiffTreeItem::Modified { path, .. } => path,
            DiffTreeItem::Renamed { to_path, .. } => to_path,
            DiffTreeItem::Copied { to_path, .. } => to_path,
        }
    }
}

/// Adds the typed record for one report of the store to those collected so
/// far. The report must be one that translates.
pub fn diff_tree_fill(diff_tree: &mut Vec<DiffTreeItem>, algo: HashAlgo, item: &DiffRecord)
    requires
        spec_translate(algo, *item) is Ok,
    ensures
        final(diff_tree)@.len() == old(diff_tree)@.len() + 1,
        final(diff_tree)@.subrange(0, old(diff_tree)@.len() as int) == old(diff_tree)@,
        final(diff_tree)@.last()@ == spec_translate(algo, *item).unwrap(),
        final(diff_tree)@.last().wf(),
        item_views(final(diff_tree)@) == item_views(old(diff_tree)@).push(
            spec_translate(algo, *item).unwrap(),
        ),
{
    let ghost before = diff_tree@;
    match DiffTreeItem::translate(algo, item) {
        Ok(x) => {
            diff_tree.push(x);
            assert(diff_tree@.subrange(0, before.len() as int) =~= before);
            assert(item_views(diff_tree@) =~= item_views(before).push(
                spec_translate(algo, *item).unwrap(),
            ));
        },
        Err(_) => {},
    }
}

/// The typed records for all the reports of one comparison, in the order of
/// the reports. Where a report does not translate, nothing is returned but
/// the defect of the first such report.
pub fn diff_tree(algo: HashAlgo, records: &Vec<DiffRecord>) -> (r: Result<
    Vec<DiffTreeItem>,
    DiffDefect,
>)
    ensures
        match r {
            Ok(items) => {
                &&& all_translate(algo, records@, records@.len() as int)
                &&& items@.len() == records@.len()
                &&& forall|i: int|
                    0 <= i < items@.len() ==> (#[trigger] items@[i])@ == spec_translate(
                        algo,
                        records@[i],
                    ).unwrap() && items@[i].wf()
            },
            Err(e) => exists|i: int|
                0 <= i < records@.len() && all_translate(algo, records@, i) && spec_translate(
                    algo,
                    #[trigger] records@[i],
                ) == Err::<DiffView, DiffDefect>(e),
        },
{
    let mut result: Vec<DiffTreeItem> = Vec::new();
    let mut i: usize = 0;
    while i < records.len()
        invariant
            i <= records@.len(),
            result@.len() == i,
            all_translate(algo, records@, i as int),
            forall|k: int|
                0 <= k < i ==> (#[trigger] result@[k])@ == spec_translate(
                    algo,
                    records@[k],
                ).unwrap() && result@[k].wf(),
        decreases records@.len() - i,
    {
        match DiffTreeItem::translate(algo, &records[i]) {
            Ok(x) => {
                result.push(x);
            },
            Err(e) => {
                return Err(e);
            },
        }
        i += 1;
    }
    Ok(result)
}

/// The arguments that ask the store to compare the trees of two commits by
/// path, ignoring the dirty state of submodules: an empty program name, the
/// two commits in hexadecimal, the option, and the end of options.
pub fn diff_tree_args(a: &CommitId, b: &CommitId) -> (args: Vec<String>)
    ensures
        args@.len() == 5,
        args@[0]@ == Seq::<char>::empty(),
        args@[1]@ == ascii_chars(hex_encode(a@)),
        args@[2]@ == ascii_chars(hex_encode(b@)),
        args@[3]@ == "--ignore-submodules=dirty"@,
        args@[4]@ == "--"@,
{
    let mut args: Vec<String> = Vec::new();
    args.push(String::new());
    args.push(a.display());
    args.push(b.display());
    args.push(String::from_str("--ignore-submodules=dirty"));
    args.push(String::from_str("--"));
    args
}

} // verus!
