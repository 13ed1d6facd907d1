//! Identifiers for commits and changes.
//!
//! A *change* is a stable logical unit of work: its identifier survives
//! rebases and amendments. A *commit* (or *head*) is one concrete snapshot
//! of a change: its identifier moves whenever content or ancestry moves.
//! Several simultaneously visible commits may share one change identifier
//! when the change has diverged.

use vstd::prelude::*;

verus! {

/// Compare two byte vectors for equality of contents.
fn bytes_eq(a: &Vec<u8>, b: &Vec<u8>) -> (r: bool)
    ensures
        r == (a@ == b@),
{
    if a.len() != b.len() {
        return false;
    }
    let mut i: usize = 0;
    while i < a.len()
        invariant
            a@.len() == b@.len(),
            0 <= i <= a@.len(),
            forall|j: int| 0 <= j < i ==> a@[j] == b@[j],
        decreases a@.len() - i,
    {
        if a[i] != b[i] {
            return false;
        }
        i += 1;
    }
    proof {
        assert(a@ =~= b@);
    }
    true
}

/// Copy a byte vector.
fn bytes_clone(v: &Vec<u8>) -> (r: Vec<u8>)
    ensures
        r@ == v@,
{
    let mut r: Vec<u8> = Vec::new();
    let mut i: usize = 0;
    while i < v.len()
        invariant
            0 <= i <= v@.len(),
            r@ == v@.subrange(0, i as int),
        decreases v@.len() - i,
    {
        r.push(v[i]);
        proof {
            assert(r@ =~= v@.subrange(0, i + 1));
        }
        i += 1;
    }
    proof {
        assert(r@ =~= v@);
    }
    r
}

/// Stable identifier of a logical change; survives rebases and amendments.
#[derive(Debug)]
pub struct ChangeId {
    bytes: Vec<u8>,
}

impl View for ChangeId {
    type V = Seq<u8>;

    closed spec fn view(&self) -> Seq<u8> {
        self.bytes@
    }
}

impl ChangeId {
    pub fn new(bytes: Vec<u8>) -> (r: Self)
        ensures
            r@ == bytes@,
    {
        ChangeId { bytes }
    }
}

impl Clone for ChangeId {
    fn clone(&self) -> (r: Self)
        ensures
            r@ == self@,
    {
        ChangeId { bytes: bytes_clone(&self.bytes) }
    }
}

impl PartialEq for ChangeId {
    fn eq(&self, other: &Self) -> bool {
        bytes_eq(&self.bytes, &other.bytes)
    }
}

impl vstd::std_specs::cmp::PartialEqSpecImpl for ChangeId {
    open spec fn obeys_eq_spec() -> bool {
        true
    }

    open spec fn eq_spec(&self, other: &Self) -> bool {
        self@ == other@
    }
}

/// Content-addressed identifier of one snapshot of a change.
#[derive(Debug)]
pub struct CommitId {
    bytes: Vec<u8>,
}

impl View for CommitId {
    type V = Seq<u8>;

    closed spec fn view(&self) -> Seq<u8> {
        self.bytes@
    }
}

impl CommitId {
    pub fn new(bytes: Vec<u8>) -> (r: Self)
        ensures
            r@ == bytes@,
    {
        CommitId { bytes }
    }
}

impl Clone for CommitId {
    fn clone(&self) -> (r: Self)
        ensures
            r@ == self@,
    {
        CommitId { bytes: bytes_clone(&self.bytes) }
    }
}

impl PartialEq for CommitId {
    fn eq(&self, other: &Self) -> bool {
        bytes_eq(&self.bytes, &other.bytes)
    }
}

impl vstd::std_specs::cmp::PartialEqSpecImpl for CommitId {
    open spec fn obeys_eq_spec() -> bool {
        true
    }

    open spec fn eq_spec(&self, other: &Self) -> bool {
        self@ == other@
    }
}

/// Mathematical value of a [`Head`]: the pair of commit and change bytes.
#[verifier::ext_equal]
pub ghost struct HeadView {
    pub commit: Seq<u8>,
    pub change: Seq<u8>,
}

/// One visible commit: its own identifier together with the identifier of
/// the change it is a snapshot of.
#[derive(Debug)]
pub struct Head {
    pub commit_id: CommitId,
    pub change_id: ChangeId,
}

impl View for Head {
    type V = HeadView;

    open spec fn view(&self) -> HeadView {
        HeadView { commit: self.commit_id@, change: self.change_id@ }
    }
}

impl Head {
    pub fn new(commit_id: CommitId, change_id: ChangeId) -> (r: Self)
        ensures
            r@.commit == commit_id@,
            r@.change == change_id@,
    {
        Head { commit_id, change_id }
    }
}

impl Clone for Head {
    fn clone(&self) -> (r: Self)
        ensures
            r@ == self@,
    {
        Head { commit_id: self.commit_id.clone(), change_id: self.change_id.clone() }
    }
}

impl PartialEq for Head {
    fn eq(&self, other: &Self) -> bool {
        self.commit_id == other.commit_id && self.change_id == other.change_id
    }
}

impl vstd::std_specs::cmp::PartialEqSpecImpl for Head {
    open spec fn obeys_eq_spec() -> bool {
        true
    }

    open spec fn eq_spec(&self, other: &Self) -> bool {
        self@ == other@
    }
}

} // verus!
