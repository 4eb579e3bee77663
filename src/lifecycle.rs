//! The draft cycle: at most one open draft, rendered to a ready page, then
//! published. The decisions are made here from what the file system shows
//! (which lock files exist, how many files the two trees hold); the caller
//! performs the file operations that an accepted step implies.
use vstd::prelude::*;

verus! {

/// In the state directory: the open draft's title and description.
pub const DRAFT_LOCK: &'static str = "new_post.lock";

/// In the state directory: a link to the open draft's markdown.
pub const CURRENT_DRAFT: &'static str = "last_post";

/// In the state directory: the rendered page that waits to be published.
pub const READY_MARKER: &'static str = "post_ready";

/// A lock file of the draft cycle.
#[derive(Clone, Copy, Debug, PartialEq, Eq)]
pub enum Lock {
    /// `new_post.lock`: a draft is open.
    Draft,
    /// `post_ready`: the open draft is rendered and waits to be published.
    Ready,
}

/// Why a lifecycle operation failed.
#[derive(Debug)]
pub enum PostError {
    /// The lock is already held: finish the pending step or remove the lock.
    Conflict(Lock),
    /// The lock that the operation needs is missing: an earlier step was skipped.
    NotFound(Lock),
    /// A file could not be read or written.
    Io(String),
    /// The template could not be read.
    Template(String),
}

/// What the file system shows when an operation starts.
pub struct Lifecycle {
    /// `new_post.lock` exists.
    pub draft_open: bool,
    /// `post_ready` exists.
    pub ready: bool,
    /// Files in the markdown source directory: two for each post.
    pub source_artifacts: usize,
}

/// The state of the draft cycle, with unbounded counts.
pub struct CycleState {
    pub draft_open: bool,
    pub ready: bool,
    pub sources: nat,
}

/// An operation of the blog.
pub enum Op {
    Create,
    Ready,
    Publish,
    /// Rewrites the page of a published post.
    Update,
    /// Deletes the page of a post.
    Delete,
}

impl View for Lifecycle {
    type V = CycleState;

    open spec fn view(&self) -> CycleState {
        CycleState {
            draft_open: self.draft_open,
            ready: self.ready,
            sources: self.source_artifacts as nat,
        }
    }
}

/// The number of posts whose two files are in the markdown source directory.
pub open spec fn post_count(artifacts: nat) -> nat {
    artifacts / 2
}

/// `create`: refused while a draft is open; otherwise the next post id.
pub open spec fn create_result(s: CycleState) -> Result<nat, PostError> {
    if s.draft_open {
        Err(PostError::Conflict(Lock::Draft))
    } else {
        Ok(post_count(s.sources) + 1)
    }
}

/// `ready`: needs an open draft that is not ready yet; gives the draft's id.
pub open spec fn ready_result(s: CycleState) -> Result<nat, PostError> {
    if !s.draft_open {
        Err(PostError::NotFound(Lock::Draft))
    } else if s.ready {
        Err(PostError::Conflict(Lock::Ready))
    } else {
        Ok(post_count(s.sources))
    }
}

/// `publish`: needs a ready page; gives the id of the draft being published,
/// the one that `create` gave it, so that publishing again after a partial
/// failure writes the same page.
pub open spec fn publish_result(s: CycleState) -> Result<nat, PostError> {
    if !s.ready {
        Err(PostError::NotFound(Lock::Ready))
    } else {
        Ok(post_count(s.sources))
    }
}

/// The state after an operation.
pub open spec fn step(s: CycleState, op: Op) -> CycleState {
    match op {
        Op::Create => if create_result(s) is Ok {
            CycleState { draft_open: true, sources: s.sources + 2, ..s }
        } else {
            s
        },
        Op::Ready => if ready_result(s) is Ok {
            CycleState { ready: true, ..s }
        } else {
            s
        },
        Op::Publish => if publish_result(s) is Ok {
            CycleState { draft_open: false, ready: false, ..s }
        } else {
            s
        },
        Op::Update => s,
        Op::Delete => s,
    }
}

/// The state after a sequence of operations.
pub open spec fn run(s: CycleState, ops: Seq<Op>) -> CycleState
    decreases ops.len(),
{
    if ops.len() == 0 {
        s
    } else {
        run(step(s, ops[0]), ops.skip(1))
    }
}

/// The ids that the successful `create` operations of a sequence give, in order.
pub open spec fn created_ids(s: CycleState, ops: Seq<Op>) -> Seq<nat>
    decreases ops.len(),
{
    if ops.len() == 0 {
        Seq::empty()
    } else if ops[0] is Create && create_result(s) is Ok {
        seq![create_result(s)->Ok_0] + created_ids(step(s, ops[0]), ops.skip(1))
    } else {
        created_ids(step(s, ops[0]), ops.skip(1))
    }
}

/// The result with its id as a natural number.
pub open spec fn result_nat(r: Result<usize, PostError>) -> Result<nat, PostError> {
    match r {
        Ok(id) => Ok(id as nat),
        Err(e) => Err(e),
    }
}

impl Lifecycle {
    /// Opens a draft: refused with `Conflict(Draft)` while one is open;
    /// otherwise the new post's id, one more than the posts in the source tree.
    pub fn create(&mut self) -> (r: Result<usize, PostError>)
        requires
            old(self).source_artifacts <= usize::MAX - 2,
        ensures
            result_nat(r) == create_result(old(self)@),
            final(self)@ == step(old(self)@, Op::Create),
    {
        if self.draft_open {
            return Err(PostError::Conflict(Lock::Draft));
        }
        let id = self.source_artifacts / 2 + 1;
        self.draft_open = true;
        self.source_artifacts = self.source_artifacts + 2;
        Ok(id)
    }

    /// Marks the open draft ready: refused with `NotFound(Draft)` when no draft
    /// is open and with `Conflict(Ready)` when it is ready already; otherwise
    /// the number of posts in the source tree, which is the open draft's id
    /// where the tree holds the two files of each post.
    pub fn ready(&mut self) -> (r: Result<usize, PostError>)
        ensures
            result_nat(r) == ready_result(old(self)@),
            final(self)@ == step(old(self)@, Op::Ready),
    {
        if !self.draft_open {
            return Err(PostError::NotFound(Lock::Draft));
        }
        if self.ready {
            return Err(PostError::Conflict(Lock::Ready));
        }
        self.ready = true;
        Ok(self.source_artifacts / 2)
    }

    /// Publishes the ready page: refused with `NotFound(Ready)` when none is
    /// ready; otherwise the id of its page, the number of posts in the source
    /// tree (the draft's own id), and the cycle is idle again.
    pub fn publish(&mut self) -> (r: Result<usize, PostError>)
        ensures
            result_nat(r) == publish_result(old(self)@),
            final(self)@ == step(old(self)@, Op::Publish),
    {
        if !self.ready {
            return Err(PostError::NotFound(Lock::Ready));
        }
        self.draft_open = false;
        self.ready = false;
        Ok(self.source_artifacts / 2)
    }
}

/// A draft stays open through any operations but `publish`.
proof fn lemma_open_without_publish(s: CycleState, ops: Seq<Op>)
    requires
        s.draft_open,
        forall|i: int| 0 <= i < ops.len() ==> !(#[trigger] ops[i] is Publish),
    ensures
        run(s, ops).draft_open,
    decreases ops.len(),
{
    if ops.len() > 0 {
        assert(!(ops[0] is Publish));
        assert forall|i: int| 0 <= i < ops.skip(1).len() implies !(#[trigger] ops.skip(1)[i] is Publish) by {
            assert(ops.skip(1)[i] == ops[i + 1]);
        }
        lemma_open_without_publish(step(s, ops[0]), ops.skip(1));
    }
}

/// Once `create` has succeeded, every later `create` fails with
/// `Conflict(Draft)` until a `publish`, whatever happens in between.
pub proof fn lemma_single_draft(s: CycleState, ops: Seq<Op>)
    requires
        create_result(s) is Ok,
        forall|i: int| 0 <= i < ops.len() ==> !(#[trigger] ops[i] is Publish),
    ensures
        create_result(run(step(s, Op::Create), ops)) == Err::<nat, PostError>(
            PostError::Conflict(Lock::Draft),
        ),
{
    lemma_open_without_publish(step(s, Op::Create), ops);
}

/// With no draft open and no `create` among the operations, `ready` fails
/// with `NotFound(Draft)` afterwards.
pub proof fn lemma_ready_needs_create(s: CycleState, ops: Seq<Op>)
    requires
        !s.draft_open,
        forall|i: int| 0 <= i < ops.len() ==> !(#[trigger] ops[i] is Create),
    ensures
        ready_result(run(s, ops)) == Err::<nat, PostError>(PostError::NotFound(Lock::Draft)),
    decreases ops.len(),
{
    if ops.len() > 0 {
        assert(!(ops[0] is Create));
        assert forall|i: int| 0 <= i < ops.skip(1).len() implies !(#[trigger] ops.skip(1)[i] is Create) by {
            assert(ops.skip(1)[i] == ops[i + 1]);
        }
        lemma_ready_needs_create(step(s, ops[0]), ops.skip(1));
    }
}

/// With no page ready and no `ready` among the operations, `publish` fails
/// with `NotFound(Ready)` afterwards.
pub proof fn lemma_publish_needs_ready(s: CycleState, ops: Seq<Op>)
    requires
        !s.ready,
        forall|i: int| 0 <= i < ops.len() ==> !(#[trigger] ops[i] is Ready),
    ensures
        publish_result(run(s, ops)) == Err::<nat, PostError>(PostError::NotFound(Lock::Ready)),
    decreases ops.len(),
{
    if ops.len() > 0 {
        assert(!(ops[0] is Ready));
        assert forall|i: int| 0 <= i < ops.skip(1).len() implies !(#[trigger] ops.skip(1)[i] is Ready) by {
            assert(ops.skip(1)[i] == ops[i + 1]);
        }
        lemma_publish_needs_ready(step(s, ops[0]), ops.skip(1));
    }
}

/// The page that `publish` writes is the one of the draft that `create` opened:
/// after `create`, any operations without `publish` and a `ready`, the
/// published id is the created id.
pub proof fn lemma_publish_created_id(s: CycleState, ops: Seq<Op>)
    requires
        create_result(s) is Ok,
        forall|i: int| 0 <= i < ops.len() ==> !(#[trigger] ops[i] is Publish),
        run(step(s, Op::Create), ops).ready,
    ensures
        publish_result(run(step(s, Op::Create), ops)) == create_result(s),
{
    lemma_sources_without_publish(step(s, Op::Create), ops);
}

/// Only `create` adds to the source tree, and not while a draft is open.
proof fn lemma_sources_without_publish(s: CycleState, ops: Seq<Op>)
    requires
        s.draft_open,
        forall|i: int| 0 <= i < ops.len() ==> !(#[trigger] ops[i] is Publish),
    ensures
        run(s, ops).sources == s.sources,
    decreases ops.len(),
{
    if ops.len() > 0 {
        assert(!(ops[0] is Publish));
        assert forall|i: int| 0 <= i < ops.skip(1).len() implies !(#[trigger] ops.skip(1)[i] is Publish) by {
            assert(ops.skip(1)[i] == ops[i + 1]);
        }
        lemma_sources_without_publish(step(s, ops[0]), ops.skip(1));
    }
}

/// Over any operations, starting from a source tree that holds whole posts,
/// the successful `create`s give consecutive ids after the posts already there.
pub proof fn lemma_dense_ids(s: CycleState, ops: Seq<Op>)
    requires
        s.sources % 2 == 0,
    ensures
        forall|i: int|
            0 <= i < created_ids(s, ops).len() ==> #[trigger] created_ids(s, ops)[i]
                == post_count(s.sources) + i + 1,
    decreases ops.len(),
{
    if ops.len() > 0 {
        let s1 = step(s, ops[0]);
        lemma_dense_ids(s1, ops.skip(1));
        let rest = created_ids(s1, ops.skip(1));
        if ops[0] is Create && create_result(s) is Ok {
            assert(s1.sources == s.sources + 2);
            assert(post_count(s1.sources) == post_count(s.sources) + 1);
            assert forall|i: int|
                0 <= i < created_ids(s, ops).len() implies #[trigger] created_ids(s, ops)[i]
                    == post_count(s.sources) + i + 1 by {
                if i > 0 {
                    assert(created_ids(s, ops)[i] == rest[i - 1]);
                }
            }
        } else {
            assert(s1.sources == s.sources || s1.sources == s.sources + 2);
            if ops[0] is Create {
                assert(s1 == s);
            }
            assert(s1.sources == s.sources);
        }
    }
}

/// From an empty source tree, the n-th successful `create` gives id n.
pub proof fn lemma_ids_from_one(s: CycleState, ops: Seq<Op>)
    requires
        s.sources == 0,
    ensures
        forall|i: int|
            0 <= i < created_ids(s, ops).len() ==> #[trigger] created_ids(s, ops)[i] == i + 1,
{
    lemma_dense_ids(s, ops);
}

} // verus!
