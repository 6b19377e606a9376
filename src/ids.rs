use vstd::prelude::*;

verus! {

/// Returns whether two byte vectors hold the same bytes.
fn same_bytes(a: &Vec<u8>, b: &Vec<u8>) -> (r: bool)
    ensures
        r == (a@ == b@),
{
    if a.len() != b.len() {
        return false;
    }
    let mut i: usize = 0;
    while i < a.len()
        invariant
            a@.len() == b@.len(),
            0 <= i <= a@.len(),
            a@.subrange(0, i as int) == b@.subrange(0, i as int),
        decreases a@.len() - i,
    {
        if a[i] != b[i] {
            assert(a@[i as int] != b@[i as int]);
            return false;
        }
        assert(a@.subrange(0, i + 1) =~= a@.subrange(0, i as int).push(a@[i as int]));
        assert(b@.subrange(0, i + 1) =~= b@.subrange(0, i as int).push(b@[i as int]));
        i += 1;
    }
    assert(a@ =~= a@.subrange(0, i as int));
    assert(b@ =~= b@.subrange(0, i as int));
    true
}

/// Copies a byte vector.
fn copy_bytes(a: &Vec<u8>) -> (r: Vec<u8>)
    ensures
        r@ == a@,
{
    let mut r: Vec<u8> = Vec::with_capacity(a.len());
    let mut i: usize = 0;
    while i < a.len()
        invariant
            0 <= i <= a@.len(),
            r@ == a@.subrange(0, i as int),
        decreases a@.len() - i,
    {
        r.push(a[i]);
        assert(a@.subrange(0, i + 1) =~= a@.subrange(0, i as int).push(a@[i as int]));
        i += 1;
    }
    assert(a@ =~= a@.subrange(0, i as int));
    r
}

/// The public identity of a participant, as the raw bytes of its key.
#[derive(Clone, Debug)]
pub struct AgentKey {
    pub bytes: Vec<u8>,
}

impl View for AgentKey {
    type V = Seq<u8>;

    open spec fn view(&self) -> Seq<u8> {
        self.bytes@
    }
}

impl AgentKey {
    pub fn new(bytes: Vec<u8>) -> (r: AgentKey)
        ensures
            r@ == bytes@,
    {
        AgentKey { bytes }
    }

    /// Returns whether both keys name the same participant.
    pub fn same_as(&self, other: &AgentKey) -> (r: bool)
        ensures
            r == (self@ == other@),
    {
        same_bytes(&self.bytes, &other.bytes)
    }

    /// A copy of this key.
    pub fn duplicate(&self) -> (r: AgentKey)
        ensures
            r@ == self@,
    {
        AgentKey { bytes: copy_bytes(&self.bytes) }
    }
}

/// A reference to a record of the ledger: the raw bytes of its content hash.
#[derive(Clone, Debug)]
pub struct EntryRef {
    pub bytes: Vec<u8>,
}

impl View for EntryRef {
    type V = Seq<u8>;

    open spec fn view(&self) -> Seq<u8> {
        self.bytes@
    }
}

impl EntryRef {
    pub fn new(bytes: Vec<u8>) -> (r: EntryRef)
        ensures
            r@ == bytes@,
    {
        EntryRef { bytes }
    }

    /// Returns whether both references name the same record.
    pub fn same_as(&self, other: &EntryRef) -> (r: bool)
        ensures
            r == (self@ == other@),
    {
        same_bytes(&self.bytes, &other.bytes)
    }

    /// A copy of this reference.
    pub fn duplicate(&self) -> (r: EntryRef)
        ensures
            r@ == self@,
    {
        EntryRef { bytes: copy_bytes(&self.bytes) }
    }
}

} // verus!
