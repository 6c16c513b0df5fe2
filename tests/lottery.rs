use lottery::bytes::{bits_of_i64, le_u64_prefix, push_le_u64};
use lottery::digest::mix;
use lottery::{
    authorize, collect, derive_key, generate_random, reduce_digest, settle, AccessPolicy, Draw,
    Error, Identity, LotteryResult, Outcome, Random, ResultStore, TimeReading, MAX_SAFE, RANGE,
};

fn id(b: u8) -> Identity {
    Identity { bytes: [b; 32] }
}

fn namespace() -> Identity {
    id(0x11)
}

fn owner() -> Identity {
    id(0x22)
}

fn participant() -> Identity {
    id(0x33)
}

fn policy() -> AccessPolicy {
    AccessPolicy { owner: owner() }
}

fn ctx(signer: Identity, is_signer: bool) -> Random {
    Random { signer, is_signer, random_account: participant() }
}

fn time(slot: u64, unix_timestamp: i64) -> TimeReading {
    TimeReading { slot, unix_timestamp }
}

fn oracle() -> Vec<u8> {
    (0u8..32).collect()
}

fn digest_with_raw(raw: u64) -> [u8; 32] {
    let mut d = [0xa5u8; 32];
    d[..8].copy_from_slice(&raw.to_le_bytes());
    d
}

fn expected_key(ns: &Identity, caller: &Identity) -> [u8; 32] {
    let mut input = b"lottery_result".to_vec();
    input.extend_from_slice(&ns.bytes);
    input.extend_from_slice(&caller.bytes);
    blake3::hash(&input).into()
}

fn expected_bundle(ctx: &Random, uid: &str, t: TimeReading, oracle: &[u8]) -> Vec<u8> {
    let key = expected_key(&namespace(), &ctx.signer);
    let mut b = Vec::new();
    b.extend_from_slice(&namespace().bytes);
    b.extend_from_slice(&ctx.signer.bytes);
    b.extend_from_slice(&t.slot.to_le_bytes());
    b.extend_from_slice(&t.unix_timestamp.to_le_bytes());
    b.extend_from_slice(uid.as_bytes());
    b.extend_from_slice(&key);
    b.extend_from_slice(&ctx.random_account.bytes);
    b.extend_from_slice(oracle);
    b
}

fn expected_value(ctx: &Random, uid: &str, t: TimeReading, oracle: &[u8]) -> Option<u32> {
    let h1 = blake3::hash(&expected_bundle(ctx, uid, t, oracle));
    let d: [u8; 32] = blake3::hash(h1.as_bytes()).into();
    let raw = u64::from_le_bytes(d[..8].try_into().unwrap());
    if raw < MAX_SAFE {
        Some((raw % 100000) as u32 + 1)
    } else {
        None
    }
}

fn draw(store: &mut ResultStore, c: &Random, uid: &str, t: TimeReading, o: &Vec<u8>) -> Result<Outcome, Error> {
    generate_random(store, &namespace(), &policy(), c, uid.to_string(), t, o)
}

#[test]
fn max_safe_is_largest_multiple_of_range() {
    assert_eq!(RANGE, 100000);
    assert_eq!(MAX_SAFE, u64::MAX - (u64::MAX % 100000));
    assert_eq!(MAX_SAFE % RANGE, 0);
    assert!((1u128 << 64) - (MAX_SAFE as u128) < RANGE as u128);
}

#[test]
fn reduce_digest_edges() {
    assert_eq!(reduce_digest(&digest_with_raw(0)), Some(1));
    assert_eq!(reduce_digest(&digest_with_raw(99999)), Some(100000));
    assert_eq!(reduce_digest(&digest_with_raw(100000)), Some(1));
    assert_eq!(reduce_digest(&digest_with_raw(12345)), Some(12346));
    assert_eq!(reduce_digest(&digest_with_raw(MAX_SAFE - 1)), Some(100000));
    assert_eq!(reduce_digest(&digest_with_raw(MAX_SAFE)), None);
    assert_eq!(reduce_digest(&digest_with_raw(u64::MAX)), None);
}

#[test]
fn byte_encodings() {
    let d = digest_with_raw(0x0102_0304_0506_0708);
    assert_eq!(le_u64_prefix(&d), 0x0102_0304_0506_0708);
    let mut out = vec![9u8];
    push_le_u64(&mut out, 0x0102_0304_0506_0708);
    assert_eq!(out, vec![9, 8, 7, 6, 5, 4, 3, 2, 1]);
    assert_eq!(bits_of_i64(-1), u64::MAX);
    assert_eq!(bits_of_i64(i64::MIN), 1u64 << 63);
    assert_eq!(bits_of_i64(1000), 1000);
}

#[test]
fn identity_equality() {
    let a = id(1);
    let mut b = id(1);
    assert!(a.same(&b));
    b.bytes[31] = 2;
    assert!(!a.same(&b));
    assert_eq!(a.to_vec(), vec![1u8; 32]);
}

#[test]
fn mix_is_two_rounds_of_blake3() {
    let bundle = b"some entropy".to_vec();
    let once = blake3::hash(&bundle);
    let twice: [u8; 32] = blake3::hash(once.as_bytes()).into();
    assert_eq!(mix(&bundle), twice);
    assert_ne!(mix(&bundle), <[u8; 32]>::from(once));
}

#[test]
fn authorize_checks_owner_then_signature() {
    assert_eq!(authorize(&policy(), &ctx(owner(), true)), Ok(()));
    assert_eq!(authorize(&policy(), &ctx(id(9), true)), Err(Error::InvalidOwner));
    assert_eq!(authorize(&policy(), &ctx(id(9), false)), Err(Error::InvalidOwner));
    assert_eq!(authorize(&policy(), &ctx(owner(), false)), Err(Error::InvalidSigner));
}

#[test]
fn collect_orders_segments() {
    let c = ctx(owner(), true);
    let t = time(10, 1000);
    let key = derive_key(&namespace(), &owner());
    let b = collect(&namespace(), &c, "ABC", t, &oracle(), &key).unwrap();
    assert_eq!(b, expected_bundle(&c, "ABC", t, &oracle()));
    assert_eq!(b.len(), 32 + 32 + 16 + 3 + 32 + 32 + 32);
}

#[test]
fn collect_rejects_long_uid() {
    let c = ctx(owner(), true);
    let key = derive_key(&namespace(), &owner());
    assert_eq!(collect(&namespace(), &c, "0123456789abc", time(1, 1), &oracle(), &key), Err(Error::UidTooLong));
    assert!(collect(&namespace(), &c, "0123456789ab", time(1, 1), &oracle(), &key).is_ok());
    // the limit counts bytes, not characters
    assert!(collect(&namespace(), &c, "éééééé", time(1, 1), &oracle(), &key).is_ok());
    assert!(collect(&namespace(), &c, "ééééééé", time(1, 1), &oracle(), &key).is_err());
}

#[test]
fn key_is_stable_per_caller() {
    let a = derive_key(&namespace(), &owner());
    let b = derive_key(&namespace(), &owner());
    assert_eq!(a, b);
    assert_eq!(a.bytes, expected_key(&namespace(), &owner()));
    assert_ne!(a, derive_key(&namespace(), &id(9)));
    assert_ne!(a, derive_key(&id(0x44), &owner()));
}

#[test]
fn store_upsert_creates_then_overwrites() {
    let mut s = ResultStore::new();
    let k = id(5);
    assert_eq!(s.get(&k), None);
    s.upsert(k, LotteryResult { value: 7, timestamp: 1 });
    assert_eq!(s.get(&k), Some(LotteryResult { value: 7, timestamp: 1 }));
    s.upsert(id(6), LotteryResult { value: 8, timestamp: 2 });
    s.upsert(k, LotteryResult { value: 9, timestamp: 3 });
    assert_eq!(s.get(&k), Some(LotteryResult { value: 9, timestamp: 3 }));
    assert_eq!(s.get(&id(6)), Some(LotteryResult { value: 8, timestamp: 2 }));
}

#[test]
fn scenario_pinned_digest_gives_raw_mod_range_plus_one() {
    let mut s = ResultStore::new();
    let key = derive_key(&namespace(), &owner());
    let d = Draw { key, input: vec![1, 2, 3], attempts: 0, timestamp: 1000 };
    let raw: u64 = 0x0123_4567_89ab_cdef;
    let out = settle(&mut s, d, &digest_with_raw(raw));
    let v = (raw % 100000) as u32 + 1;
    assert!(matches!(out, Outcome::Done(x) if x == v));
    assert_eq!(s.get(&key), Some(LotteryResult { value: v, timestamp: 1000 }));
}

#[test]
fn scenario_rejected_digest_takes_one_more_round() {
    let mut s = ResultStore::new();
    let key = derive_key(&namespace(), &owner());
    let d = Draw { key, input: vec![1, 2, 3], attempts: 0, timestamp: 1000 };
    let out = settle(&mut s, d, &digest_with_raw(MAX_SAFE));
    let mut pending = match out {
        Outcome::Pending(p) => p,
        Outcome::Done(_) => panic!("a digest at MAX_SAFE must be rejected"),
    };
    assert_eq!(s.get(&key), None);
    assert_eq!(pending.input, vec![1, 2, 3]);
    pending.reseed(time(11, 1001));
    assert_eq!(pending.attempts, 1);
    let mut want = vec![1u8, 2, 3];
    want.extend_from_slice(&11u64.to_le_bytes());
    want.extend_from_slice(&1001i64.to_le_bytes());
    want.extend_from_slice(&1u64.to_le_bytes());
    assert_eq!(pending.input, want);
    let out = settle(&mut s, pending, &digest_with_raw(42));
    assert!(matches!(out, Outcome::Done(43)));
    assert_eq!(s.get(&key), Some(LotteryResult { value: 43, timestamp: 1000 }));
}

#[test]
fn retry_hashes_extended_input() {
    let mut s = ResultStore::new();
    let key = derive_key(&namespace(), &owner());
    let d = Draw { key, input: vec![7u8; 32], attempts: 4, timestamp: 5 };
    let mut input = vec![7u8; 32];
    input.extend_from_slice(&20u64.to_le_bytes());
    input.extend_from_slice(&(-3i64).to_le_bytes());
    input.extend_from_slice(&5u64.to_le_bytes());
    let digest: [u8; 32] = blake3::hash(&input).into();
    let raw = u64::from_le_bytes(digest[..8].try_into().unwrap());
    let out = d.retry(&mut s, time(20, -3));
    assert!(raw < MAX_SAFE);
    let v = (raw % 100000) as u32 + 1;
    assert!(matches!(out, Outcome::Done(x) if x == v));
    assert_eq!(s.get(&key), Some(LotteryResult { value: v, timestamp: 5 }));
}

#[test]
fn scenario_full_draw_matches_hand_computation() {
    let mut s = ResultStore::new();
    let c = ctx(owner(), true);
    let t = time(10, 1000);
    let want = expected_value(&c, "ABC", t, &oracle()).unwrap();
    let out = draw(&mut s, &c, "ABC", t, &oracle()).unwrap();
    assert!(matches!(out, Outcome::Done(v) if v == want));
    let key = derive_key(&namespace(), &owner());
    assert_eq!(s.get(&key), Some(LotteryResult { value: want, timestamp: 1000 }));
}

#[test]
fn draw_is_deterministic() {
    let c = ctx(owner(), true);
    let mut a = ResultStore::new();
    let mut b = ResultStore::new();
    b.upsert(id(3), LotteryResult { value: 5, timestamp: 5 });
    let ra = draw(&mut a, &c, "same", time(3, 4), &oracle()).unwrap();
    let rb = draw(&mut b, &c, "same", time(3, 4), &oracle()).unwrap();
    match (ra, rb) {
        (Outcome::Done(x), Outcome::Done(y)) => assert_eq!(x, y),
        _ => panic!("both draws should be accepted"),
    }
}

#[test]
fn second_draw_overwrites_first() {
    let mut s = ResultStore::new();
    let c = ctx(owner(), true);
    let key = derive_key(&namespace(), &owner());
    let v1 = match draw(&mut s, &c, "one", time(1, 100), &oracle()).unwrap() {
        Outcome::Done(v) => v,
        Outcome::Pending(_) => panic!("accepted"),
    };
    assert_eq!(s.get(&key).unwrap().value, v1);
    let v2 = match draw(&mut s, &c, "two", time(2, 200), &oracle()).unwrap() {
        Outcome::Done(v) => v,
        Outcome::Pending(_) => panic!("accepted"),
    };
    assert_eq!(v2, expected_value(&c, "two", time(2, 200), &oracle()).unwrap());
    assert_eq!(s.get(&key), Some(LotteryResult { value: v2, timestamp: 200 }));
}

#[test]
fn long_uid_is_rejected_without_change() {
    let mut s = ResultStore::new();
    let c = ctx(owner(), true);
    let key = derive_key(&namespace(), &owner());
    let r = draw(&mut s, &c, "ABCDEFGHIJKLM", time(1, 1), &oracle());
    assert!(matches!(r, Err(Error::UidTooLong)));
    assert_eq!(s.get(&key), None);
    s.upsert(key, LotteryResult { value: 77, timestamp: 7 });
    let r = draw(&mut s, &c, "ABCDEFGHIJKLM", time(1, 1), &oracle());
    assert!(matches!(r, Err(Error::UidTooLong)));
    assert_eq!(s.get(&key), Some(LotteryResult { value: 77, timestamp: 7 }));
    assert!(draw(&mut s, &c, "ABCDEFGHIJKL", time(1, 1), &oracle()).is_ok());
}

#[test]
fn other_caller_is_rejected_without_change() {
    let mut s = ResultStore::new();
    let c = ctx(id(9), true);
    let r = draw(&mut s, &c, "ABC", time(1, 1), &oracle());
    assert!(matches!(r, Err(Error::InvalidOwner)));
    assert_eq!(s.get(&derive_key(&namespace(), &id(9))), None);
    assert_eq!(s.get(&derive_key(&namespace(), &owner())), None);
}

#[test]
fn unsigned_request_is_rejected_without_change() {
    let mut s = ResultStore::new();
    let key = derive_key(&namespace(), &owner());
    s.upsert(key, LotteryResult { value: 12, timestamp: 3 });
    let r = draw(&mut s, &ctx(owner(), false), "ABC", time(1, 1), &oracle());
    assert!(matches!(r, Err(Error::InvalidSigner)));
    assert_eq!(s.get(&key), Some(LotteryResult { value: 12, timestamp: 3 }));
}

#[test]
fn values_stay_in_range() {
    let mut s = ResultStore::new();
    let c = ctx(owner(), true);
    for i in 0..500u64 {
        let out = draw(&mut s, &c, "range", time(i, i as i64 * 7 - 1000), &oracle()).unwrap();
        match out {
            Outcome::Done(v) => assert!((1..=100000).contains(&v)),
            Outcome::Pending(_) => panic!("accepted"),
        }
    }
}

#[test]
fn values_are_roughly_uniform() {
    let c = ctx(owner(), true);
    let mut counts = [0u64; 10];
    let n: u64 = 20000;
    for i in 0..n {
        let mut s = ResultStore::new();
        let o: Vec<u8> = i.to_le_bytes().to_vec();
        match draw(&mut s, &c, "chi", time(i, 1), &o).unwrap() {
            Outcome::Done(v) => counts[((v - 1) / 10000) as usize] += 1,
            Outcome::Pending(_) => panic!("accepted"),
        }
    }
    let expected = n as f64 / 10.0;
    let chi: f64 = counts.iter().map(|&k| (k as f64 - expected).powi(2) / expected).sum();
    // nine degrees of freedom: 27.88 is the 0.1% critical value
    assert!(chi < 27.88, "chi-square {chi} over {counts:?}");
}
