use vstd::prelude::*;
use crate::bytes::Identity;
use crate::digest::{blake3_of, blake3_hash};

verus! {

/// The outcome of a caller's most recent draw.
#[derive(Clone, Copy, Debug, PartialEq, Eq, Structural)]
pub struct LotteryResult {
    /// The drawn value, in `[1, 100000]`.
    pub value: u32,
    /// Wall-clock seconds at the start of the draw.
    pub timestamp: i64,
}

/// The fixed seed that prefixes every record key: `b"lottery_result"`.
pub open spec fn record_seed() -> Seq<u8> {
    seq![0x6cu8, 0x6f, 0x74, 0x74, 0x65, 0x72, 0x79, 0x5f, 0x72, 0x65, 0x73, 0x75, 0x6c, 0x74]
}

/// The key of the record of `caller` under `namespace`.
pub open spec fn record_key(namespace: Seq<u8>, caller: Seq<u8>) -> Seq<u8> {
    blake3_of(record_seed() + namespace + caller)
}

/// Derives the key of a caller's record: the digest of the seed, the
/// namespace and the caller, in that order.
pub fn derive_key(namespace: &Identity, caller: &Identity) -> (r: Identity)
    ensures
        r@ == record_key(namespace@, caller@),
{
    let mut input: Vec<u8> = vec![
        0x6cu8, 0x6f, 0x74, 0x74, 0x65, 0x72, 0x79, 0x5f, 0x72, 0x65, 0x73, 0x75, 0x6c, 0x74
    ];
    assert(input@ =~= record_seed());
    let mut ns = namespace.to_vec();
    let mut id = caller.to_vec();
    input.append(&mut ns);
    input.append(&mut id);
    Identity { bytes: blake3_hash(input.as_slice()) }
}

/// Deriving a key twice from the same namespace and caller gives the same
/// key: every draw of one caller targets one record.
pub proof fn lemma_key_stable(namespace: Seq<u8>, a: Seq<u8>, b: Seq<u8>)
    requires
        a == b,
    ensures
        record_key(namespace, a) == record_key(namespace, b),
{
}

/// The map that a list of entries stands for; a later entry wins.
pub open spec fn map_of(s: Seq<(Identity, LotteryResult)>) -> Map<Seq<u8>, LotteryResult>
    decreases s.len(),
{
    if s.len() == 0 {
        Map::empty()
    } else {
        map_of(s.drop_last()).insert(s.last().0@, s.last().1)
    }
}

/// No key occurs twice in a list of entries.
pub open spec fn keys_unique(s: Seq<(Identity, LotteryResult)>) -> bool {
    forall|i: int, j: int| 0 <= i < j < s.len() ==> s[i].0@ != s[j].0@
}

proof fn lemma_absent(s: Seq<(Identity, LotteryResult)>, k: Seq<u8>)
    requires
        forall|j: int| 0 <= j < s.len() ==> s[j].0@ != k,
    ensures
        !map_of(s).contains_key(k),
    decreases s.len(),
{
    if s.len() > 0 {
        lemma_absent(s.drop_last(), k);
    }
}

proof fn lemma_found(s: Seq<(Identity, LotteryResult)>, i: int)
    requires
        keys_unique(s),
        0 <= i < s.len(),
    ensures
        map_of(s).contains_key(s[i].0@),
        map_of(s)[s[i].0@] == s[i].1,
    decreases s.len(),
{
    if i < s.len() - 1 {
        lemma_found(s.drop_last(), i);
    }
}

proof fn lemma_replace(s: Seq<(Identity, LotteryResult)>, i: int, e: (Identity, LotteryResult))
    requires
        keys_unique(s),
        0 <= i < s.len(),
        e.0@ == s[i].0@,
    ensures
        map_of(s.update(i, e)) == map_of(s).insert(e.0@, e.1),
    decreases s.len(),
{
    let t = s.update(i, e);
    if i == s.len() - 1 {
        assert(t.drop_last() =~= s.drop_last());
        assert(map_of(t) =~= map_of(s).insert(e.0@, e.1));
    } else {
        assert(t.drop_last() =~= s.drop_last().update(i, e));
        lemma_replace(s.drop_last(), i, e);
        assert(s.last().0@ != e.0@);
        assert(map_of(t) =~= map_of(s).insert(e.0@, e.1));
    }
}

/// The per-caller records, at most one under each key.
pub struct ResultStore {
    entries: Vec<(Identity, LotteryResult)>,
}

impl View for ResultStore {
    type V = Map<Seq<u8>, LotteryResult>;

    closed spec fn view(&self) -> Map<Seq<u8>, LotteryResult> {
        map_of(self.entries@)
    }
}

impl ResultStore {
    /// Each key occurs in one entry at most.
    pub closed spec fn wf(&self) -> bool {
        keys_unique(self.entries@)
    }

    /// A store without records.
    pub fn new() -> (r: ResultStore)
        ensures
            r.wf(),
            r@ == Map::<Seq<u8>, LotteryResult>::empty(),
    {
        ResultStore { entries: Vec::new() }
    }

    fn find(&self, key: &Identity) -> (r: Option<usize>)
        ensures
            match r {
                Some(i) => i < self.entries@.len() && self.entries@[i as int].0@ == key@,
                None => forall|j: int|
                    0 <= j < self.entries@.len() ==> self.entries@[j].0@ != key@,
            },
    {
        let mut i: usize = 0;
        while i < self.entries.len()
            invariant
                0 <= i <= self.entries@.len(),
                forall|j: int| 0 <= j < i ==> self.entries@[j].0@ != key@,
            decreases self.entries@.len() - i,
        {
            if self.entries[i].0.same(key) {
                return Some(i);
            }
            i = i + 1;
        }
        None
    }

    /// The record stored under `key`, if any.
    pub fn get(&self, key: &Identity) -> (r: Option<LotteryResult>)
        requires
            self.wf(),
        ensures
            r == (if self@.contains_key(key@) {
                Some(self@[key@])
            } else {
                None
            }),
    {
        match self.find(key) {
            Some(i) => {
                proof {
                    lemma_found(self.entries@, i as int);
                }
                Some(self.entries[i].1)
            },
            None => {
                proof {
                    lemma_absent(self.entries@, key@);
                }
                None
            },
        }
    }

    /// Writes `result` under `key`: creates the record if it is absent,
    /// otherwise replaces it whole.
    pub fn upsert(&mut self, key: Identity, result: LotteryResult)
        requires
            old(self).wf(),
        ensures
            final(self).wf(),
            final(self)@ == old(self)@.insert(key@, result),
    {
        match self.find(&key) {
            Some(i) => {
                proof {
                    lemma_replace(self.entries@, i as int, (key, result));
                }
                self.entries.set(i, (key, result));
            },
            None => {
                self.entries.push((key, result));
                assert(self.entries@.drop_last() =~= old(self).entries@);
            },
        }
    }
}

/// A second write under the same key replaces the first: the earlier result
/// is no longer in the store.
pub proof fn lemma_overwrite(
    m: Map<Seq<u8>, LotteryResult>,
    key: Seq<u8>,
    first: LotteryResult,
    second: LotteryResult,
)
    ensures
        m.insert(key, first).insert(key, second) == m.insert(key, second),
        m.insert(key, first).insert(key, second)[key] == second,
{
    assert(m.insert(key, first).insert(key, second) =~= m.insert(key, second));
}

} // verus!
