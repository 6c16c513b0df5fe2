use vstd::prelude::*;
use vstd::utf8::encode_utf8;
use vstd::string::StringSliceAdditionalSpecFns;
use crate::bytes::{Identity, le_bytes, i64_bits, push_le_u64, bits_of_i64};
use crate::digest::{blake3_of, blake3_hash, first_round, mixed};
use crate::reduce::{RANGE, reduce_spec, reduce_digest};
use crate::store::{LotteryResult, ResultStore, record_key, derive_key, lemma_overwrite};

verus! {

broadcast use vstd::array::group_array_axioms;

/// The longest uid accepted, in bytes.
pub const MAX_UID_LEN: usize = 12;

/// Why a draw was refused.
#[derive(Clone, Copy, Debug, PartialEq, Eq, Structural)]
pub enum Error {
    /// The uid is longer than `MAX_UID_LEN` bytes.
    UidTooLong,
    /// The caller is not the configured owner.
    InvalidOwner,
    /// The caller did not sign the request.
    InvalidSigner,
    /// The clock or the store could not be read or written.
    StorageError,
}

/// The one identity allowed to draw; fixed for the life of the service.
#[derive(Clone, Copy, Debug, PartialEq, Eq)]
pub struct AccessPolicy {
    pub owner: Identity,
}

/// The parties of a draw request.
#[derive(Clone, Copy, Debug, PartialEq, Eq)]
pub struct Random {
    /// The caller.
    pub signer: Identity,
    /// Whether the caller signed the request.
    pub is_signer: bool,
    /// An extra participant whose identity is mixed in; not trusted.
    pub random_account: Identity,
}

/// One reading of the clock.
#[derive(Clone, Copy, Debug, PartialEq, Eq, Structural)]
pub struct TimeReading {
    pub slot: u64,
    pub unix_timestamp: i64,
}

/// The access decision: the owner is checked first, then the signature.
pub open spec fn authorize_spec(owner: Seq<u8>, ctx: Random) -> Result<(), Error> {
    if ctx.signer@ != owner {
        Err(Error::InvalidOwner)
    } else if !ctx.is_signer {
        Err(Error::InvalidSigner)
    } else {
        Ok(())
    }
}

/// Decides whether the request may draw at all.
pub fn authorize(policy: &AccessPolicy, ctx: &Random) -> (r: Result<(), Error>)
    ensures
        r == authorize_spec(policy.owner@, *ctx),
{
    if !ctx.signer.same(&policy.owner) {
        Err(Error::InvalidOwner)
    } else if !ctx.is_signer {
        Err(Error::InvalidSigner)
    } else {
        Ok(())
    }
}

/// The bytes of a clock reading: the slot, then the timestamp.
pub open spec fn time_bytes(time: TimeReading) -> Seq<u8> {
    le_bytes(time.slot) + le_bytes(i64_bits(time.unix_timestamp))
}

/// The entropy bundle, segment by segment in its fixed order.
pub open spec fn bundle_of(
    namespace: Seq<u8>,
    ctx: Random,
    time: TimeReading,
    uid: Seq<u8>,
    key: Seq<u8>,
    oracle: Seq<u8>,
) -> Seq<u8> {
    namespace + ctx.signer@ + time_bytes(time) + uid + key + ctx.random_account@ + oracle
}

fn push_time(out: &mut Vec<u8>, time: TimeReading)
    ensures
        final(out)@ == old(out)@ + time_bytes(time),
{
    push_le_u64(out, time.slot);
    push_le_u64(out, bits_of_i64(time.unix_timestamp));
    assert(out@ =~= old(out)@ + time_bytes(time));
}

fn push_all(out: &mut Vec<u8>, s: &[u8])
    ensures
        final(out)@ == old(out)@ + s@,
{
    let mut i: usize = 0;
    while i < s.len()
        invariant
            0 <= i <= s@.len(),
            out@ == old(out)@ + s@.subrange(0, i as int),
        decreases s@.len() - i,
    {
        out.push(s[i]);
        i = i + 1;
        assert(out@ =~= old(out)@ + s@.subrange(0, i as int));
    }
    assert(s@.subrange(0, s@.len() as int) =~= s@);
}

fn assemble(
    namespace: &Identity,
    ctx: &Random,
    ub: &[u8],
    time: TimeReading,
    oracle: &[u8],
    key: &Identity,
) -> (r: Vec<u8>)
    ensures
        r@ == bundle_of(namespace@, *ctx, time, ub@, key@, oracle@),
{
    let mut out = namespace.to_vec();
    push_all(&mut out, &ctx.signer.bytes);
    push_time(&mut out, time);
    push_all(&mut out, ub);
    push_all(&mut out, &key.bytes);
    push_all(&mut out, &ctx.random_account.bytes);
    push_all(&mut out, oracle);
    out
}

/// Builds the entropy bundle of a request; refuses a uid longer than
/// `MAX_UID_LEN` bytes before anything is assembled.
pub fn collect(
    namespace: &Identity,
    ctx: &Random,
    uid: &str,
    time: TimeReading,
    oracle: &[u8],
    key: &Identity,
) -> (r: Result<Vec<u8>, Error>)
    ensures
        uid.spec_bytes().len() > MAX_UID_LEN ==> r == Err::<Vec<u8>, Error>(Error::UidTooLong),
        uid.spec_bytes().len() <= MAX_UID_LEN ==> (r matches Ok(b) && b@ == bundle_of(
            namespace@,
            *ctx,
            time,
            uid.spec_bytes(),
            key@,
            oracle@,
        )),
{
    let ub = uid.as_bytes();
    if ub.len() > MAX_UID_LEN {
        return Err(Error::UidTooLong);
    }
    Ok(assemble(namespace, ctx, ub, time, oracle, key))
}

/// A draw that has passed its checks and awaits an accepted digest.
pub struct Draw {
    /// Key of the record the value goes to.
    pub key: Identity,
    /// Everything hashed so far in the second round.
    pub input: Vec<u8>,
    /// How many times fresh entropy has been appended.
    pub attempts: u64,
    /// Timestamp recorded with the result.
    pub timestamp: i64,
}

/// Where a draw stands after a digest was tried.
pub enum Outcome {
    /// The value was accepted and stored.
    Done(u32),
    /// The digest fell in the biased region: fresh entropy is needed.
    Pending(Draw),
}

/// Every stored value lies in `[1, RANGE]`.
pub open spec fn all_in_range(m: Map<Seq<u8>, LotteryResult>) -> bool {
    forall|k: Seq<u8>| #[trigger] m.contains_key(k) ==> 1 <= m[k].value <= RANGE
}

/// What trying `digest` on `draw` does to the store.
pub open spec fn settled_store(
    m: Map<Seq<u8>, LotteryResult>,
    key: Seq<u8>,
    timestamp: i64,
    digest: Seq<u8>,
) -> Map<Seq<u8>, LotteryResult> {
    match reduce_spec(digest) {
        Some(v) => m.insert(key, LotteryResult { value: v, timestamp }),
        None => m,
    }
}

/// Tries one digest on a draw: stores and returns the value when the digest
/// is accepted, hands the draw back unchanged when it is rejected.
pub fn settle(store: &mut ResultStore, draw: Draw, digest: &[u8; 32]) -> (r: Outcome)
    requires
        old(store).wf(),
    ensures
        final(store).wf(),
        final(store)@ == settled_store(old(store)@, draw.key@, draw.timestamp, digest@),
        match reduce_spec(digest@) {
            Some(v) => r == Outcome::Done(v),
            None => r == Outcome::Pending(draw),
        },
        all_in_range(old(store)@) ==> all_in_range(final(store)@),
{
    match reduce_digest(digest) {
        Some(v) => {
            store.upsert(draw.key, LotteryResult { value: v, timestamp: draw.timestamp });
            Outcome::Done(v)
        },
        None => Outcome::Pending(draw),
    }
}

/// What a retry appends to the second-round input: a fresh clock reading
/// and the new attempt number, so that every retry hashes a new input.
pub open spec fn retry_bytes(time: TimeReading, attempt: u64) -> Seq<u8> {
    time_bytes(time) + le_bytes(attempt)
}

impl Draw {
    /// Appends fresh entropy after a rejected digest.
    pub fn reseed(&mut self, time: TimeReading)
        requires
            old(self).attempts < u64::MAX,
        ensures
            final(self).attempts == old(self).attempts + 1,
            final(self).input@ == old(self).input@ + retry_bytes(time, final(self).attempts),
            final(self).key == old(self).key,
            final(self).timestamp == old(self).timestamp,
    {
        self.attempts = self.attempts + 1;
        push_time(&mut self.input, time);
        push_le_u64(&mut self.input, self.attempts);
        assert(self.input@ =~= old(self).input@ + retry_bytes(time, self.attempts));
    }

    /// One more mixing round after a rejection: appends fresh entropy,
    /// hashes the second-round input again and tries the new digest.
    pub fn retry(self, store: &mut ResultStore, time: TimeReading) -> (r: Outcome)
        requires
            self.attempts < u64::MAX,
            old(store).wf(),
        ensures
            final(store).wf(),
            ({
                let input = self.input@ + retry_bytes(time, (self.attempts + 1) as u64);
                let d = blake3_of(input);
                &&& final(store)@ == settled_store(old(store)@, self.key@, self.timestamp, d)
                &&& match reduce_spec(d) {
                    Some(v) => r == Outcome::Done(v),
                    None => (r matches Outcome::Pending(p) && p.input@ == input && p.attempts
                        == self.attempts + 1 && p.key == self.key && p.timestamp
                        == self.timestamp),
                }
            }),
            all_in_range(old(store)@) ==> all_in_range(final(store)@),
    {
        let mut draw = self;
        draw.reseed(time);
        let d = blake3_hash(draw.input.as_slice());
        settle(store, draw, &d)
    }
}

/// The observable result of a draw request: the error, the accepted value,
/// or `None` when the first digest was rejected; and the store afterwards.
pub open spec fn draw_spec(
    m: Map<Seq<u8>, LotteryResult>,
    namespace: Seq<u8>,
    owner: Seq<u8>,
    ctx: Random,
    uid: Seq<u8>,
    time: TimeReading,
    oracle: Seq<u8>,
) -> (Result<Option<u32>, Error>, Map<Seq<u8>, LotteryResult>) {
    match authorize_spec(owner, ctx) {
        Err(e) => (Err(e), m),
        Ok(_) => if uid.len() > MAX_UID_LEN {
            (Err(Error::UidTooLong), m)
        } else {
            let key = record_key(namespace, ctx.signer@);
            let d = mixed(bundle_of(namespace, ctx, time, uid, key, oracle));
            (Ok(reduce_spec(d)), settled_store(m, key, time.unix_timestamp, d))
        },
    }
}

/// The outcome of a draw, seen without the pending draw's state.
pub open spec fn outcome_view(r: Result<Outcome, Error>) -> Result<Option<u32>, Error> {
    match r {
        Ok(Outcome::Done(v)) => Ok(Some(v)),
        Ok(Outcome::Pending(_)) => Ok(None),
        Err(e) => Err(e),
    }
}

/// Runs a draw request: authorizes the caller, checks the uid, collects the
/// entropy bundle, mixes it in two rounds and reduces the digest. An accepted
/// value is written to the caller's record; a rejected digest yields a
/// pending draw whose second-round input is the first-round digest. A refused
/// request leaves the store as it was.
pub fn generate_random(
    store: &mut ResultStore,
    namespace: &Identity,
    policy: &AccessPolicy,
    ctx: &Random,
    uid: String,
    time: TimeReading,
    oracle: &Vec<u8>,
) -> (r: Result<Outcome, Error>)
    requires
        old(store).wf(),
    ensures
        final(store).wf(),
        ({
            let (res, m) = draw_spec(
                old(store)@,
                namespace@,
                policy.owner@,
                *ctx,
                encode_utf8(uid@),
                time,
                oracle@,
            );
            outcome_view(r) == res && final(store)@ == m
        }),
        r matches Ok(Outcome::Pending(p)) ==> p.attempts == 0 && p.timestamp
            == time.unix_timestamp && p.key@ == record_key(namespace@, ctx.signer@) && p.input@
            == blake3_of(
            bundle_of(
                namespace@,
                *ctx,
                time,
                encode_utf8(uid@),
                record_key(namespace@, ctx.signer@),
                oracle@,
            ),
        ),
        all_in_range(old(store)@) ==> all_in_range(final(store)@),
{
    authorize(policy, ctx)?;
    let key = derive_key(namespace, &ctx.signer);
    let bundle = collect(namespace, ctx, uid.as_str(), time, oracle.as_slice(), &key)?;
    let seed = first_round(&bundle);
    let mut input: Vec<u8> = Vec::new();
    push_all(&mut input, &seed);
    let draw = Draw { key, input, attempts: 0, timestamp: time.unix_timestamp };
    let d = blake3_hash(draw.input.as_slice());
    Ok(settle(store, draw, &d))
}

/// Every value a draw accepts lies in `[1, RANGE]`, and a store whose values
/// all lie there keeps that property.
pub proof fn lemma_draw_in_range(
    m: Map<Seq<u8>, LotteryResult>,
    namespace: Seq<u8>,
    owner: Seq<u8>,
    ctx: Random,
    uid: Seq<u8>,
    time: TimeReading,
    oracle: Seq<u8>,
)
    ensures
        draw_spec(m, namespace, owner, ctx, uid, time, oracle).0 matches Ok(Some(v)) ==> 1 <= v
            <= RANGE,
        all_in_range(m) ==> all_in_range(draw_spec(m, namespace, owner, ctx, uid, time, oracle).1),
{
}

/// A draw depends on its declared inputs alone: with the same request,
/// clock reading and oracle digest it gives the same result, whatever the
/// store held before.
pub proof fn lemma_draw_deterministic(
    m1: Map<Seq<u8>, LotteryResult>,
    m2: Map<Seq<u8>, LotteryResult>,
    namespace: Seq<u8>,
    owner: Seq<u8>,
    ctx: Random,
    uid: Seq<u8>,
    time: TimeReading,
    oracle: Seq<u8>,
)
    ensures
        draw_spec(m1, namespace, owner, ctx, uid, time, oracle).0 == draw_spec(
            m2,
            namespace,
            owner,
            ctx,
            uid,
            time,
            oracle,
        ).0,
{
}

/// A refused request, for a long uid, a caller who is not the owner or an
/// unsigned request, leaves the store exactly as it was.
pub proof fn lemma_refusal_changes_nothing(
    m: Map<Seq<u8>, LotteryResult>,
    namespace: Seq<u8>,
    owner: Seq<u8>,
    ctx: Random,
    uid: Seq<u8>,
    time: TimeReading,
    oracle: Seq<u8>,
)
    ensures
        uid.len() > MAX_UID_LEN ==> draw_spec(m, namespace, owner, ctx, uid, time, oracle).0
            is Err,
        ctx.signer@ != owner ==> draw_spec(m, namespace, owner, ctx, uid, time, oracle).0 == Err::<
            Option<u32>,
            Error,
        >(Error::InvalidOwner),
        ctx.signer@ == owner && !ctx.is_signer ==> draw_spec(
            m,
            namespace,
            owner,
            ctx,
            uid,
            time,
            oracle,
        ).0 == Err::<Option<u32>, Error>(Error::InvalidSigner),
        draw_spec(m, namespace, owner, ctx, uid, time, oracle).0 is Err ==> draw_spec(
            m,
            namespace,
            owner,
            ctx,
            uid,
            time,
            oracle,
        ).1 == m,
{
}

/// An accepted draw writes its value, with the request's timestamp, under
/// the caller's key and changes nothing else.
pub proof fn lemma_accepted_draw_writes(
    m: Map<Seq<u8>, LotteryResult>,
    namespace: Seq<u8>,
    owner: Seq<u8>,
    ctx: Random,
    uid: Seq<u8>,
    time: TimeReading,
    oracle: Seq<u8>,
)
    ensures
        draw_spec(m, namespace, owner, ctx, uid, time, oracle).0 matches Ok(Some(v)) ==> draw_spec(
            m,
            namespace,
            owner,
            ctx,
            uid,
            time,
            oracle,
        ).1 == m.insert(
            record_key(namespace, ctx.signer@),
            LotteryResult { value: v, timestamp: time.unix_timestamp },
        ),
{
}

/// Two accepted draws by the same caller write the same record, and the
/// second replaces the first: afterwards the store holds the second result
/// under the caller's key, as if the first draw had never written it.
pub proof fn lemma_second_draw_replaces(
    m: Map<Seq<u8>, LotteryResult>,
    namespace: Seq<u8>,
    owner: Seq<u8>,
    first: Random,
    uid1: Seq<u8>,
    time1: TimeReading,
    oracle1: Seq<u8>,
    second: Random,
    uid2: Seq<u8>,
    time2: TimeReading,
    oracle2: Seq<u8>,
)
    requires
        first.signer@ == second.signer@,
    ensures
        ({
            let (r1, m1) = draw_spec(m, namespace, owner, first, uid1, time1, oracle1);
            let (r2, m2) = draw_spec(m1, namespace, owner, second, uid2, time2, oracle2);
            let key = record_key(namespace, first.signer@);
            (r1 matches Ok(Some(_))) ==> (r2 matches Ok(Some(v2)) ==> (m2 == m.insert(
                key,
                LotteryResult { value: v2, timestamp: time2.unix_timestamp },
            ) && m2[key].value == v2))
        }),
{
    let key = record_key(namespace, first.signer@);
    lemma_accepted_draw_writes(m, namespace, owner, first, uid1, time1, oracle1);
    let (r1, m1) = draw_spec(m, namespace, owner, first, uid1, time1, oracle1);
    lemma_accepted_draw_writes(m1, namespace, owner, second, uid2, time2, oracle2);
    let (r2, m2) = draw_spec(m1, namespace, owner, second, uid2, time2, oracle2);
    if let (Ok(Some(v1)), Ok(Some(v2))) = (r1, r2) {
        let a = LotteryResult { value: v1, timestamp: time1.unix_timestamp };
        let b = LotteryResult { value: v2, timestamp: time2.unix_timestamp };
        assert(record_key(namespace, second.signer@) == key);
        assert(m1 == m.insert(key, a));
        assert(m2 == m1.insert(key, b));
        lemma_overwrite(m, key, a, b);
    }
}

} // verus!
