//! The commit history as a tree: each first-parent commit, and under it the
//! commits that its other parents bring in, down to the next first-parent
//! commit.
use vstd::prelude::*;
use vstd::string::StringExecFns;
use crate::oid::{Oid, oid_hex};
use crate::upload_pack::oid_views;

verus! {

/// A commit and the reference it was reached by, if any.
#[derive(Debug)]
pub struct ReferencedCommit {
    pub commit: Oid,
    /// The reference's short name, when it has one.
    pub reference: Option<String>,
}

impl ReferencedCommit {
    /// The reference's short name, or else the commit's id.
    pub fn shorthand_or_id(&self) -> (r: String)
        ensures
            r@ == match self.reference {
                Some(s) => s@,
                None => oid_hex(self.commit.bytes@),
            },
    {
        match &self.reference {
            Some(s) => s.clone(),
            None => self.commit.to_string(),
        }
    }

    /// The address of the tree a file of this commit sits in, for the
    /// repository at `requested_path`.
    pub fn tree_parent(&self, requested_path: &str) -> (r: String)
        ensures
            r@ == "/"@ + requested_path@ + "/tree/"@ + match self.reference {
                Some(s) => s@,
                None => oid_hex(self.commit.bytes@),
            },
    {
        let mut parent = "/".to_owned();
        parent.append(requested_path);
        parent.append("/tree/");
        parent.append(self.shorthand_or_id().as_str());
        parent
    }
}

/// The commits of one level of the tree, read one at a time.
pub struct CommitTree {
    next_after: Option<Oid>,
    commits: Vec<Oid>,
    pos: usize,
    ignored: Vec<Oid>,
    len: usize,
}

impl CommitTree {
    /// The commits not read yet.
    pub closed spec fn remaining(&self) -> Seq<Seq<u8>> {
        oid_views(self.commits@).skip(self.pos as int)
    }

    /// The commits that the sub-trees stop at.
    pub closed spec fn ignored(&self) -> Seq<Seq<u8>> {
        oid_views(self.ignored@)
    }

    /// The number of commits not read yet.
    pub closed spec fn count(&self) -> nat {
        self.len as nat
    }

    pub closed spec fn after(&self) -> Option<Seq<u8>> {
        match self.next_after {
            Some(o) => Some(o.bytes@),
            None => None,
        }
    }

    pub closed spec fn well_formed(&self) -> bool {
        &&& self.pos <= self.commits@.len()
        &&& self.len == self.commits@.len() - self.pos
    }

    /// A level of `commits`, which stop at `ignored`, with `next_after` the
    /// commit that follows them, if the history was cut short.
    pub fn create(commits: Vec<Oid>, next_after: Option<Oid>, ignored: Vec<Oid>) -> (r: CommitTree)
        ensures
            r.well_formed(),
            r.remaining() == oid_views(commits@),
            r.ignored() == oid_views(ignored@),
            r.count() == commits@.len(),
            r.after() == match next_after {
                Some(o) => Some(o.bytes@),
                None => None::<Seq<u8>>,
            },
    {
        let len = commits.len();
        let r = CommitTree { next_after, commits, pos: 0, ignored, len };
        assert(oid_views(r.commits@).skip(0) =~= oid_views(r.commits@));
        r
    }

    /// The first-parent history cut after `limit` commits: `walk` is the
    /// history in order (it may go on past the cut); the level holds its
    /// first `limit` commits, and the commit after them, if there is one,
    /// follows the level.
    pub fn from_walk(walk: Vec<Oid>, limit: usize) -> (r: CommitTree)
        ensures
            r.well_formed(),
            r.remaining() == oid_views(walk@).take(if walk@.len() < limit { walk@.len() as int } else { limit as int }),
            r.ignored() == Seq::<Seq<u8>>::empty(),
            r.count() == r.remaining().len(),
            r.after() == if walk@.len() > limit {
                Some(walk@[limit as int].bytes@)
            } else {
                None::<Seq<u8>>
            },
    {
        let mut commits: Vec<Oid> = Vec::new();
        let mut i: usize = 0;
        while i < walk.len() && i < limit
            invariant
                i <= walk@.len(),
                i <= limit,
                commits@ == walk@.take(i as int),
            decreases walk@.len() - i,
        {
            commits.push(walk[i]);
            i = i + 1;
            assert(commits@ =~= walk@.take(i as int));
        }
        let next_after = if walk.len() > limit {
            Some(walk[limit])
        } else {
            None
        };
        let r = CommitTree::create(commits, next_after, Vec::new());
        proof {
            assert(oid_views(walk@.take(i as int)) =~= oid_views(walk@).take(i as int));
            assert(oid_views(Seq::<Oid>::empty()) =~= Seq::<Seq<u8>>::empty());
        }
        r
    }

    /// Whether every commit has been read.
    pub fn is_empty(&self) -> (r: bool)
        requires
            self.well_formed(),
        ensures
            r == (self.remaining().len() == 0),
    {
        self.pos >= self.commits.len()
    }

    /// How many commits are left.
    pub fn len(&self) -> (r: usize)
        ensures
            r == self.count(),
            self.well_formed() ==> r == self.remaining().len(),
    {
        self.len
    }

    /// The commit that follows this level, if the history was cut short.
    pub fn next_after(&self) -> (r: Option<Oid>)
        ensures
            match (r, self.after()) {
                (Some(o), Some(b)) => o.bytes@ == b,
                (None, None) => true,
                _ => false,
            },
    {
        self.next_after
    }

    /// Reads the next commit, with the commits its sub-tree stops at: those
    /// of this level, and the commit after it on this level, if any.
    pub fn next(&mut self) -> (r: Option<(Oid, Vec<Oid>)>)
        requires
            old(self).well_formed(),
        ensures
            final(self).well_formed(),
            final(self).ignored() == old(self).ignored(),
            final(self).after() == old(self).after(),
            old(self).remaining().len() == 0 ==> r is None && final(self).remaining() == old(self).remaining(),
            old(self).remaining().len() > 0 ==> {
                &&& r matches Some(p)
                &&& p.0.bytes@ == old(self).remaining()[0]
                &&& oid_views(p.1@) == old(self).ignored() + if old(self).remaining().len() > 1 {
                    seq![old(self).remaining()[1]]
                } else {
                    Seq::<Seq<u8>>::empty()
                }
                &&& final(self).remaining() == old(self).remaining().drop_first()
                &&& final(self).count() == old(self).count() - 1
            },
    {
        if self.pos >= self.commits.len() {
            return None;
        }
        let commit = self.commits[self.pos];
        self.pos = self.pos + 1;
        let mut ignored: Vec<Oid> = Vec::new();
        let mut k: usize = 0;
        while k < self.ignored.len()
            invariant
                k <= self.ignored@.len(),
                ignored@ == self.ignored@.take(k as int),
            decreases self.ignored@.len() - k,
        {
            ignored.push(self.ignored[k]);
            k = k + 1;
            assert(ignored@ =~= self.ignored@.take(k as int));
        }
        assert(ignored@ =~= self.ignored@);
        let ghost base = oid_views(ignored@);
        if self.pos < self.commits.len() {
            ignored.push(self.commits[self.pos]);
            assert(oid_views(ignored@) =~= base + seq![self.commits@[self.pos as int].bytes@]);
        } else {
            assert(oid_views(ignored@) =~= base + Seq::<Seq<u8>>::empty());
        }
        self.len = self.len - 1;
        assert(oid_views(self.commits@).skip(self.pos as int) =~= oid_views(self.commits@).skip(self.pos - 1).drop_first());
        Some((commit, ignored))
    }
}

/// A level's count is the number of commits it still yields: empty exactly
/// when the count is zero.
pub proof fn law_count_is_remaining(t: CommitTree)
    requires
        t.well_formed(),
    ensures
        t.count() == t.remaining().len(),
        (t.remaining().len() == 0) == (t.count() == 0),
{
}

} // verus!
