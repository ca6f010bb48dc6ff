//! Walking commit history: the arguments that open a walk, and the cursor
//! that turns what the store hands out into commit identifiers.

use vstd::prelude::*;
use crate::oid::{object_id, CommitId, HashAlgo, ObjectId};

verus! {

/// The most arguments a walk can be opened with: the count, with the program
/// name added, is handed to the store as a signed 32-bit number.
pub const MAX_REV_ARGS: usize = 2147483646;

/// The bytes of an argument followed by the terminating zero.
pub open spec fn c_string(arg: Seq<u8>) -> Seq<u8> {
    arg.push(0u8)
}

/// No byte of the argument is zero, so it can be handed over as a string
/// that ends at the first zero.
pub open spec fn no_nul(arg: Seq<u8>) -> bool {
    forall|i: int| 0 <= i < arg.len() ==> arg[i] != 0u8
}

/// The arguments can open a walk.
pub open spec fn valid_rev_args(args: Seq<Vec<u8>>) -> bool {
    &&& args.len() <= MAX_REV_ARGS
    &&& forall|i: int| 0 <= i < args.len() ==> no_nul((#[trigger] args[i])@)
}

/// The argument vector of a walk: an empty program name, then the
/// arguments in order, each as a terminated string.
pub open spec fn spec_rev_argv(args: Seq<Vec<u8>>) -> Seq<Seq<u8>> {
    Seq::new(
        args.len() + 1,
        |i: int|
            if i == 0 {
                c_string(Seq::empty())
            } else {
                c_string(args[i - 1]@)
            },
    )
}

/// The views of the strings of an argument vector.
pub open spec fn argv_view(argv: Seq<Vec<u8>>) -> Seq<Seq<u8>> {
    Seq::new(argv.len(), |i: int| argv[i]@)
}

/// Tells whether an argument is free of zero bytes.
pub fn is_nul_free(arg: &[u8]) -> (r: bool)
    ensures
        r == no_nul(arg@),
{
    let mut i: usize = 0;
    while i < arg.len()
        invariant
            i <= arg@.len(),
            forall|k: int| 0 <= k < i ==> arg@[k] != 0u8,
        decreases arg@.len() - i,
    {
        if arg[i] == 0 {
            return false;
        }
        i += 1;
    }
    true
}

/// Tells whether the arguments can open a walk.
pub fn check_rev_args(args: &Vec<Vec<u8>>) -> (r: bool)
    ensures
        r == valid_rev_args(args@),
{
    if args.len() > MAX_REV_ARGS {
        return false;
    }
    let mut i: usize = 0;
    while i < args.len()
        invariant
            i <= args@.len(),
            forall|k: int| 0 <= k < i ==> no_nul((#[trigger] args@[k])@),
        decreases args@.len() - i,
    {
        if !is_nul_free(args[i].as_slice()) {
            return false;
        }
        i += 1;
    }
    true
}

/// Makes a terminated string of an argument.
pub fn prepare_arg(arg: &[u8]) -> (r: Vec<u8>)
    requires
        no_nul(arg@),
    ensures
        r@ == c_string(arg@),
{
    let mut r = vstd::slice::slice_to_vec(arg);
    r.push(0u8);
    r
}

/// A walk over commit history. It hands out each commit once, in the order
/// of the store's walk, and cannot be started again once it has ended.
#[derive(Debug)]
pub struct RevList {
    algo: HashAlgo,
    argv: Vec<Vec<u8>>,
    done: bool,
}

/// Opens a walk over the history that the arguments select. What they mean
/// is for the store to say.
pub fn rev_list(algo: HashAlgo, args: &Vec<Vec<u8>>) -> (r: RevList)
    requires
        valid_rev_args(args@),
    ensures
        r.spec_algo() == algo,
        r.spec_argv() == spec_rev_argv(args@),
        !r.spec_done(),
{
    let mut argv: Vec<Vec<u8>> = Vec::new();
    argv.push(prepare_arg(&[]));
    let mut i: usize = 0;
    while i < args.len()
        invariant
            i <= args@.len(),
            valid_rev_args(args@),
            argv@.len() == i + 1,
            forall|k: int| 0 <= k <= i ==> (#[trigger] argv@[k])@ == spec_rev_argv(args@)[k],
        decreases args@.len() - i,
    {
        argv.push(prepare_arg(args[i].as_slice()));
        i += 1;
    }
    let r = RevList { algo, argv, done: false };
    assert(r.spec_argv() =~= spec_rev_argv(args@));
    r
}

impl RevList {
    pub closed spec fn spec_algo(&self) -> HashAlgo {
        self.algo
    }

    /// The argument vector the walk was opened with.
    pub closed spec fn spec_argv(&self) -> Seq<Seq<u8>> {
        argv_view(self.argv@)
    }

    /// The walk has ended.
    pub closed spec fn spec_done(&self) -> bool {
        self.done
    }

    pub fn argv(&self) -> (r: &Vec<Vec<u8>>)
        ensures
            argv_view(r@) == self.spec_argv(),
    {
        &self.argv
    }

    pub fn is_done(&self) -> (r: bool)
        ensures
            r == self.spec_done(),
    {
        self.done
    }

    /// Takes what the store's walk handed out at one step, the slot of the
    /// next commit or nothing at the end, and gives the item of the walk. A
    /// walk that has ended stays ended, whatever it is handed.
    pub fn next(&mut self, fetched: Option<&object_id>) -> (r: Option<CommitId>)
        ensures
            final(self).spec_algo() == old(self).spec_algo(),
            final(self).spec_argv() == old(self).spec_argv(),
            final(self).spec_done() == walk_step(
                old(self).spec_algo(),
                old(self).spec_done(),
                fetched_slot(fetched),
            ).0,
            match walk_step(old(self).spec_algo(), old(self).spec_done(), fetched_slot(fetched)).1 {
                Some(hash) => r matches Some(id) && id.wf() && id@ == hash,
                None => r is None,
            },
    {
        if self.done {
            return None;
        }
        match fetched {
            Some(slot) => Some(CommitId::from_oid(ObjectId::from_raw(self.algo, slot))),
            None => {
                self.done = true;
                None
            },
        }
    }
}

/// What the store handed out, without the borrow.
pub open spec fn fetched_slot(fetched: Option<&object_id>) -> Option<object_id> {
    match fetched {
        Some(slot) => Some(*slot),
        None => None,
    }
}

/// One step of a walk: from whether the walk has ended and what the store
/// handed out, to whether it has ended now and the hash of the item given.
/// An ended walk gives nothing and stays ended; a slot gives its hash, cut to
/// the width of `algo`; nothing ends the walk.
pub open spec fn walk_step(algo: HashAlgo, done: bool, fetched: Option<object_id>) -> (
    bool,
    Option<Seq<u8>>,
) {
    if done {
        (true, None)
    } else {
        match fetched {
            Some(slot) => (false, Some(slot.0@.subrange(0, algo.spec_width() as int))),
            None => (true, None),
        }
    }
}

/// A walk run over all that the store hands out, one step after the other:
/// whether it has ended, and the hashes of the items given, in order.
pub open spec fn walk_run(algo: HashAlgo, done: bool, fetched: Seq<Option<object_id>>) -> (
    bool,
    Seq<Seq<u8>>,
)
    decreases fetched.len(),
{
    if fetched.len() == 0 {
        (done, Seq::empty())
    } else {
        let step = walk_step(algo, done, fetched[0]);
        let rest = walk_run(algo, step.0, fetched.drop_first());
        match step.1 {
            Some(hash) => (rest.0, seq![hash] + rest.1),
            None => rest,
        }
    }
}

/// What the store hands out for a chain of commits: the slot of each, then
/// the end.
pub open spec fn chain_fetched(slots: Seq<object_id>) -> Seq<Option<object_id>> {
    Seq::new(
        slots.len() + 1,
        |i: int|
            if i < slots.len() {
                Some(slots[i])
            } else {
                None
            },
    )
}

/// An ended walk gives nothing more, whatever the store hands out.
pub proof fn lemma_ended_walk_gives_nothing(algo: HashAlgo, fetched: Seq<Option<object_id>>)
    ensures
        walk_run(algo, true, fetched) == (true, Seq::<Seq<u8>>::empty()),
    decreases fetched.len(),
{
    if fetched.len() > 0 {
        lemma_ended_walk_gives_nothing(algo, fetched.drop_first());
    }
}

/// A fresh walk over a chain of commits gives exactly one item for each
/// commit, in the order of the chain, and has ended after the last. Over an
/// empty chain it gives nothing.
pub proof fn lemma_walk_over_chain(algo: HashAlgo, slots: Seq<object_id>)
    ensures
        walk_run(algo, false, chain_fetched(slots)) == (
            true,
            Seq::new(slots.len(), |i: int| slots[i].0@.subrange(0, algo.spec_width() as int)),
        ),
    decreases slots.len(),
{
    let fetched = chain_fetched(slots);
    let items = Seq::new(slots.len(), |i: int| slots[i].0@.subrange(0, algo.spec_width() as int));
    if slots.len() == 0 {
        assert(fetched.drop_first() =~= Seq::<Option<object_id>>::empty());
        assert(walk_run(algo, true, fetched.drop_first()) == (true, Seq::<Seq<u8>>::empty()));
        assert(items =~= Seq::<Seq<u8>>::empty());
    } else {
        let rest = slots.drop_first();
        lemma_walk_over_chain(algo, rest);
        assert(fetched.drop_first() =~= chain_fetched(rest));
        let rest_items = Seq::new(
            rest.len(),
            |i: int| rest[i].0@.subrange(0, algo.spec_width() as int),
        );
        assert(seq![slots[0].0@.subrange(0, algo.spec_width() as int)] + rest_items =~= items);
    }
}

/// What resolving a revision to a commit gave. The store answers with a
/// status, zero for success, and has then written the commit's hash into the
/// slot; any other status means that the text names no commit.
pub fn get_oid_committish(algo: HashAlgo, status: i32, slot: &object_id) -> (r: Option<CommitId>)
    ensures
        match r {
            Some(id) => status == 0 && id.wf() && id@ == slot.0@.subrange(
                0,
                algo.spec_width() as int,
            ),
            None => status != 0,
        },
{
    if status == 0 {
        Some(CommitId::from_oid(ObjectId::from_raw(algo, slot)))
    } else {
        None
    }
}

} // verus!
