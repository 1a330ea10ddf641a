//! Snapshots: encrypted, gzipped point-in-time copies of a Tome database.
//!
//! A snapshot lets a new device bootstrap from one download plus the
//! journal tail, and marks how far the journal may be pruned. This module
//! holds what a snapshot is on the wire (`gzip`, then the blob cipher),
//! where it is stored, when a new one is due, and how the snapshots of many
//! Tomes are found in a shared bucket. Reading the database and talking to
//! the store is left to the caller.

use std::io::{Read, Write};
use vstd::prelude::*;

use crate::backend::ObjectInfo;
use crate::crypto::{decrypt, encrypt, open_blob, sealed_blob, CryptoError, KeyMaterial};
use crate::engine::{last_segment, last_segment_chars, strip_suffix, strip_suffix_chars};
use crate::errors::SyncError;
use crate::ids::{now_unix_ms, ulid_timestamp, ulid_timestamp_ms};
use crate::state::SyncRuntimeState;
use crate::text::{
    chars_eq, chars_of, concat, lemma_lex_asym, lemma_lex_irrefl, lemma_lex_total, lemma_lex_trans,
    lex_le, lex_lt, lex_lt_chars, split_char, split_chars, string_of, string_opt,
};

verus! {

/// Pending journal bytes at which a new snapshot is due (1 MiB).
pub const SNAPSHOT_BYTES_THRESHOLD: u64 = 1_048_576;

/// Pending journal ops at which a new snapshot is due.
pub const SNAPSHOT_OPS_THRESHOLD: usize = 5_000;

/// Age of the last snapshot, in milliseconds, at which a new one is due
/// whatever the journal holds (one week).
pub const SNAPSHOT_MAX_AGE: u64 = 604_800_000;

/// What taking a snapshot produced.
pub struct SnapshotInfo {
    /// ULID text of the snapshot.
    pub snapshot_id: String,
    /// Size of the database copy before compression.
    pub size_bytes: u64,
    pub etag: String,
}

/// The newest snapshot of one Tome in a shared store.
pub struct TomeSnapshotSummary {
    pub tome_uuid: String,
    pub snapshot_id: String,
    pub size_bytes: u64,
    /// Milliseconds since the Unix epoch.
    pub last_modified: i64,
}

// ---------------------------------------------------------------------------
// gzip
// ---------------------------------------------------------------------------

/// The gzip stream (default level, no file name, zero mtime) that `flate2`
/// writes for `data`.
pub uninterp spec fn gzip_bytes(data: Seq<u8>) -> Seq<u8>;

/// What decoding `data` as a gzip stream gives, `None` when it is not one.
pub uninterp spec fn gunzip_bytes(data: Seq<u8>) -> Option<Seq<u8>>;

/// `flate2::write::GzEncoder` into a `Vec`, which cannot fail: writing to
/// a `Vec` never errs. Decoding its output gives the input back.
#[verifier::external_body]
fn gzip_compress(data: &[u8]) -> (r: Vec<u8>)
    ensures
        r@ == gzip_bytes(data@),
        gunzip_bytes(r@) == Some(data@),
{
    let mut enc = flate2::write::GzEncoder::new(Vec::new(), flate2::Compression::default());
    let _ = enc.write_all(data);
    enc.finish().unwrap_or_default()
}

/// The text of the I/O error that decoding `data` as a gzip stream gives.
pub uninterp spec fn gunzip_error(data: Seq<u8>) -> Seq<char>;

/// `flate2::read::GzDecoder` read to the end. The displayed text of a
/// failed decode is named.
#[verifier::external_body]
fn gzip_decompress(data: &[u8]) -> (r: Result<Vec<u8>, String>)
    ensures
        match r {
            Ok(d) => gunzip_bytes(data@) == Some(d@),
            Err(e) => gunzip_bytes(data@) is None && e@ == gunzip_error(data@),
        },
{
    let mut dec = flate2::read::GzDecoder::new(data);
    let mut out = Vec::new();
    dec.read_to_end(&mut out).map_err(|e| e.to_string())?;
    Ok(out)
}

// ---------------------------------------------------------------------------
// Sealing and opening
// ---------------------------------------------------------------------------

/// What opening a stored snapshot gives: the database bytes, the crypto
/// error, or `None` when the decrypted bytes are not a gzip stream.
pub open spec fn snapshot_contents(key: Seq<u8>, blob: Seq<u8>) -> Result<Seq<u8>, Option<CryptoError>> {
    match open_blob(key, blob) {
        Err(e) => Err(Some(e)),
        Ok(compressed) => match gunzip_bytes(compressed) {
            Some(db) => Ok(db),
            None => Err(None),
        },
    }
}

/// Compress then encrypt a database copy (compressing ciphertext would gain
/// nothing). Opening the result with the same key gives the copy back; it
/// fails only where the compressed copy is beyond what one ChaCha20 stream
/// can seal.
pub fn seal_snapshot(key: &KeyMaterial, db: &[u8]) -> (r: Result<Vec<u8>, SyncError>)
    ensures
        r is Ok <==> gzip_bytes(db@).len() / 64 < 0xFFFF_FFFF,
        match r {
            Ok(blob) => sealed_blob(key@, gzip_bytes(db@), blob@)
                && snapshot_contents(key@, blob@) == Ok::<Seq<u8>, Option<CryptoError>>(db@),
            Err(e) => e == SyncError::Crypto(CryptoError::Encrypt),
        },
{
    let compressed = gzip_compress(db);
    match encrypt(key, compressed.as_slice()) {
        Ok(blob) => Ok(blob),
        Err(e) => Err(SyncError::Crypto(e)),
    }
}

/// Decrypt then decompress a stored snapshot.
pub fn open_snapshot(key: &KeyMaterial, blob: &[u8]) -> (r: Result<Vec<u8>, SyncError>)
    ensures
        match r {
            Ok(db) => snapshot_contents(key@, blob@) == Ok::<Seq<u8>, Option<CryptoError>>(db@),
            Err(SyncError::Crypto(e)) => snapshot_contents(key@, blob@) == Err::<Seq<u8>, Option<CryptoError>>(Some(e)),
            Err(SyncError::Io(m)) => snapshot_contents(key@, blob@) == Err::<Seq<u8>, Option<CryptoError>>(None)
                && (open_blob(key@, blob@) matches Ok(c) && m@ == gunzip_error(c)),
            Err(_) => false,
        },
{
    let compressed = match decrypt(key, blob) {
        Ok(c) => c,
        Err(e) => return Err(SyncError::Crypto(e)),
    };
    match gzip_decompress(compressed.as_slice()) {
        Ok(db) => Ok(db),
        Err(msg) => Err(SyncError::Io(msg)),
    }
}

// ---------------------------------------------------------------------------
// Keys
// ---------------------------------------------------------------------------

/// Key of a snapshot inside a Tome's namespace.
pub fn snapshot_object_key(snapshot_id: &str) -> (r: String)
    ensures
        r@ == "snapshots/"@ + snapshot_id@ + ".snap.enc"@,
{
    let a = chars_of("snapshots/");
    let b = chars_of(snapshot_id);
    let c = chars_of(".snap.enc");
    let ab = concat(&a, &b);
    string_of(&concat(&ab, &c))
}

/// Full key of a Tome's snapshot in the shared store.
pub fn tome_snapshot_key(tome_uuid: &str, snapshot_id: &str) -> (r: String)
    ensures
        r@ == "tomes/"@ + tome_uuid@ + "/snapshots/"@ + snapshot_id@ + ".snap.enc"@,
{
    let a = chars_of("tomes/");
    let b = chars_of(tome_uuid);
    let c = chars_of("/snapshots/");
    let d = chars_of(snapshot_id);
    let e = chars_of(".snap.enc");
    let ab = concat(&a, &b);
    let abc = concat(&ab, &c);
    let abcd = concat(&abc, &d);
    string_of(&concat(&abcd, &e))
}

// ---------------------------------------------------------------------------
// When a snapshot is due
// ---------------------------------------------------------------------------

/// A new snapshot is due: there is none yet; or the pending journal has
/// reached the byte or op threshold; or the last snapshot's ULID is at
/// least `SNAPSHOT_MAX_AGE` old at `now_ms`.
pub open spec fn snapshot_due(last_snapshot: Option<Seq<char>>, journal_bytes: u64, journal_count: usize, now_ms: u64) -> bool {
    match last_snapshot {
        None => true,
        Some(id) => {
            ||| journal_bytes >= SNAPSHOT_BYTES_THRESHOLD
            ||| journal_count >= SNAPSHOT_OPS_THRESHOLD
            ||| match ulid_timestamp(id) {
                Some(ts) => (if now_ms >= ts { now_ms - ts } else { 0 }) >= SNAPSHOT_MAX_AGE,
                None => false,
            }
        },
    }
}

/// Whether a snapshot is due at the clock reading `now_ms`.
pub fn should_snapshot_at(state: &SyncRuntimeState, journal_bytes: u64, journal_count: usize, now_ms: u64) -> (r: bool)
    ensures
        r == snapshot_due(string_opt(state.last_snapshot_id), journal_bytes, journal_count, now_ms),
{
    let id = match &state.last_snapshot_id {
        None => return true,
        Some(id) => id,
    };
    if journal_bytes >= SNAPSHOT_BYTES_THRESHOLD || journal_count >= SNAPSHOT_OPS_THRESHOLD {
        return true;
    }
    match ulid_timestamp_ms(id.as_str()) {
        Some(ts) => now_ms.saturating_sub(ts) >= SNAPSHOT_MAX_AGE,
        None => false,
    }
}

/// Whether a snapshot is due now. The clock is read only when the answer
/// depends on it; the answer is what `snapshot_due` gives at some clock
/// reading.
pub fn should_snapshot(state: &SyncRuntimeState, journal_bytes: u64, journal_count: usize) -> (r: bool)
    ensures
        exists|now_ms: u64| r == snapshot_due(string_opt(state.last_snapshot_id), journal_bytes, journal_count, now_ms),
{
    if state.last_snapshot_id.is_none() || journal_bytes >= SNAPSHOT_BYTES_THRESHOLD || journal_count >= SNAPSHOT_OPS_THRESHOLD {
        let r = should_snapshot_at(state, journal_bytes, journal_count, 0);
        return r;
    }
    let now = now_unix_ms();
    should_snapshot_at(state, journal_bytes, journal_count, now)
}

// ---------------------------------------------------------------------------
// Listing
// ---------------------------------------------------------------------------

/// Snapshot ids among `infos`, in order: the last key segment of each
/// `<id>.snap.enc` key.
pub open spec fn snapshot_ids(infos: Seq<ObjectInfo>) -> Seq<Seq<char>>
    decreases infos.len(),
{
    if infos.len() == 0 {
        Seq::empty()
    } else {
        let prev = snapshot_ids(infos.drop_last());
        match strip_suffix(last_segment(infos.last().key@), ".snap.enc"@) {
            Some(id) => prev.push(id),
            None => prev,
        }
    }
}

/// The snapshot ids in a listing of `snapshots/`, in listing order.
pub fn list_snapshots(infos: &Vec<ObjectInfo>) -> (r: Vec<String>)
    ensures
        r@.map_values(|s: String| s@) == snapshot_ids(infos@),
{
    let suffix = chars_of(".snap.enc");
    let mut out: Vec<String> = Vec::new();
    let mut i: usize = 0;
    while i < infos.len()
        invariant
            i <= infos.len(),
            suffix@ == ".snap.enc"@,
            out@.map_values(|s: String| s@) == snapshot_ids(infos@.take(i as int)),
        decreases infos.len() - i,
    {
        proof {
            assert(infos@.take(i + 1).drop_last() =~= infos@.take(i as int));
        }
        let name = last_segment_chars(&chars_of(infos[i].key.as_str()));
        let ghost pre = out@;
        match strip_suffix_chars(&name, &suffix) {
            Some(id) => {
                out.push(string_of(&id));
                proof {
                    assert(out@.map_values(|s: String| s@) =~= pre.map_values(|s: String| s@).push(id@));
                }
            },
            None => {},
        }
        i = i + 1;
    }
    proof {
        assert(infos@.take(infos.len() as int) =~= infos@);
    }
    out
}

/// The Tome uuid and snapshot id that a shared-store key
/// `tomes/<uuid>/snapshots/<id>.snap.enc` names; `None` for any other key.
pub open spec fn tome_snapshot_entry(key: Seq<char>) -> Option<(Seq<char>, Seq<char>)> {
    let parts = split_char(key, '/');
    if parts.len() == 4 && parts[0] == "tomes"@ && parts[2] == "snapshots"@ {
        match strip_suffix(parts[3], ".snap.enc"@) {
            Some(id) => Some((parts[1], id)),
            None => None,
        }
    } else {
        None
    }
}

fn parse_tome_snapshot_key(key: &str) -> (r: Option<(Vec<char>, Vec<char>)>)
    ensures
        match r {
            Some((u, id)) => tome_snapshot_entry(key@) == Some((u@, id@)),
            None => tome_snapshot_entry(key@) is None,
        },
{
    let v = chars_of(key);
    let parts = split_chars(&v, '/');
    proof {
        assert(crate::text::views(parts@).len() == parts@.len());
    }
    if parts.len() != 4 {
        return None;
    }
    let tomes = chars_of("tomes");
    let snapshots = chars_of("snapshots");
    let suffix = chars_of(".snap.enc");
    proof {
        assert(crate::text::views(parts@)[0] == parts@[0]@);
        assert(crate::text::views(parts@)[1] == parts@[1]@);
        assert(crate::text::views(parts@)[2] == parts@[2]@);
        assert(crate::text::views(parts@)[3] == parts@[3]@);
    }
    if !chars_eq(&parts[0], &tomes) || !chars_eq(&parts[2], &snapshots) {
        return None;
    }
    match strip_suffix_chars(&parts[3], &suffix) {
        Some(id) => Some((parts[1].clone(), id)),
        None => None,
    }
}

/// `infos[j]` is a Tome snapshot key.
pub open spec fn is_snap(infos: Seq<ObjectInfo>, j: int) -> bool {
    0 <= j < infos.len() && tome_snapshot_entry(infos[j].key@) is Some
}

/// The Tome uuid that `infos[j]` belongs to.
pub open spec fn uuid_of(infos: Seq<ObjectInfo>, j: int) -> Seq<char> {
    tome_snapshot_entry(infos[j].key@).unwrap().0
}

/// Among `infos[..n]`, `infos[j]` is the snapshot its Tome keeps: the
/// greatest key of that Tome (ULIDs order by time), the first one if
/// several are equal.
pub open spec fn latest_among(infos: Seq<ObjectInfo>, n: int, j: int) -> bool {
    &&& 0 <= j < n <= infos.len()
    &&& is_snap(infos, j)
    &&& forall|k: int|
        0 <= k < n && is_snap(infos, k) && #[trigger] uuid_of(infos, k) == uuid_of(infos, j) ==> {
            &&& lex_le(infos[k].key@, infos[j].key@)
            &&& (k < j ==> lex_lt(infos[k].key@, infos[j].key@))
        }
}

/// `s` summarises the snapshot `infos[j]`.
pub open spec fn summarises(s: TomeSnapshotSummary, infos: Seq<ObjectInfo>, j: int) -> bool {
    &&& s.tome_uuid@ == uuid_of(infos, j)
    &&& s.snapshot_id@ == tome_snapshot_entry(infos[j].key@).unwrap().1
    &&& s.size_bytes == infos[j].size
    &&& s.last_modified == infos[j].last_modified
}

proof fn lemma_lex_le_lt(a: Seq<char>, b: Seq<char>, c: Seq<char>)
    requires
        lex_le(a, b),
        lex_lt(b, c),
    ensures
        lex_lt(a, c),
{
    lemma_lex_trans(a, b, c);
}

/// Insert `s` into a list ordered newest first, after every entry at least
/// as new; returns where it went.
fn insert_newest_first(out: &mut Vec<TomeSnapshotSummary>, s: TomeSnapshotSummary) -> (p: usize)
    requires
        forall|i: int, k: int| 0 <= i < k < old(out)@.len() ==> old(out)@[i].last_modified >= old(out)@[k].last_modified,
        forall|i: int, k: int| 0 <= i < k < old(out)@.len() ==> old(out)@[i].tome_uuid@ != old(out)@[k].tome_uuid@,
        forall|i: int| 0 <= i < old(out)@.len() ==> old(out)@[i].tome_uuid@ != s.tome_uuid@,
    ensures
        p <= old(out)@.len(),
        final(out)@ == old(out)@.insert(p as int, s),
        forall|i: int, k: int| 0 <= i < k < final(out)@.len() ==> final(out)@[i].last_modified >= final(out)@[k].last_modified,
        forall|i: int, k: int| 0 <= i < k < final(out)@.len() ==> final(out)@[i].tome_uuid@ != final(out)@[k].tome_uuid@,
{
    let mut p: usize = 0;
    while p < out.len() && out[p].last_modified >= s.last_modified
        invariant
            p <= out@.len(),
            forall|q: int| 0 <= q < p ==> out@[q].last_modified >= s.last_modified,
        decreases out@.len() - p,
    {
        p = p + 1;
    }
    let ghost pre = out@;
    let ghost sv = s;
    out.insert(p, s);
    proof {
        assert forall|i: int, k: int| 0 <= i < k < out@.len() implies out@[i].tome_uuid@ != out@[k].tome_uuid@ by {
            if k < p {
                assert(out@[i] == pre[i] && out@[k] == pre[k]);
            } else if k == p {
                assert(out@[i] == pre[i]);
            } else if i == p {
                assert(out@[k] == pre[k - 1]);
            } else if i < p {
                assert(out@[i] == pre[i] && out@[k] == pre[k - 1]);
            } else {
                assert(out@[i] == pre[i - 1] && out@[k] == pre[k - 1]);
            }
        }
        assert forall|i: int, k: int| 0 <= i < k < out@.len() implies out@[i].last_modified >= out@[k].last_modified by {
            if k < p {
                assert(out@[i] == pre[i] && out@[k] == pre[k]);
            } else if k == p {
                assert(out@[i] == pre[i]);
            } else if i == p {
                assert(out@[k] == pre[k - 1]);
                assert(pre[p as int].last_modified < sv.last_modified);
                if k - 1 > p {
                    assert(pre[p as int].last_modified >= pre[k - 1].last_modified);
                }
            } else if i < p {
                assert(out@[i] == pre[i] && out@[k] == pre[k - 1]);
            } else {
                assert(out@[i] == pre[i - 1] && out@[k] == pre[k - 1]);
            }
        }
    }
    p
}

/// `x` is one of the first `b` kept indices.
#[verifier::opaque]
spec fn from_kept(x: int, best: Seq<usize>, b: int) -> bool {
    exists|q: int| 0 <= q < b && x == best[q] as int
}

/// The `q`-th kept index occurs in `src`.
#[verifier::opaque]
spec fn kept_listed(src: Seq<int>, best: Seq<usize>, q: int) -> bool {
    exists|i: int| 0 <= i < src.len() && src[i] == best[q] as int
}

/// Inserting index `jb` (the `b`-th kept index) into the position map keeps
/// it a map onto the first `b + 1` kept indices.
proof fn lemma_insert_tracks(pre_src: Seq<int>, src: Seq<int>, p: int, jb: int, best: Seq<usize>, b: int)
    requires
        0 <= p <= pre_src.len(),
        0 <= b < best.len(),
        jb == best[b] as int,
        src == pre_src.insert(p, jb),
        forall|i: int| 0 <= i < pre_src.len() ==> from_kept(#[trigger] pre_src[i], best, b),
        forall|q: int| 0 <= q < b ==> #[trigger] kept_listed(pre_src, best, q),
    ensures
        forall|i: int| 0 <= i < src.len() ==> from_kept(#[trigger] src[i], best, b + 1),
        forall|q: int| 0 <= q < b + 1 ==> #[trigger] kept_listed(src, best, q),
{
    reveal(from_kept);
    reveal(kept_listed);
    assert forall|i: int| 0 <= i < src.len() implies from_kept(#[trigger] src[i], best, b + 1) by {
        if i < p {
            assert(src[i] == pre_src[i]);
            assert(from_kept(pre_src[i], best, b));
            let q = choose|q: int| 0 <= q < b && pre_src[i] == best[q] as int;
            assert(0 <= q < b + 1 && src[i] == best[q] as int);
        } else if i == p {
            assert(src[i] == best[b] as int);
        } else {
            assert(src[i] == pre_src[i - 1]);
            assert(from_kept(pre_src[i - 1], best, b));
            let q = choose|q: int| 0 <= q < b && pre_src[i - 1] == best[q] as int;
            assert(0 <= q < b + 1 && src[i] == best[q] as int);
        }
    }
    assert forall|q: int| 0 <= q < b + 1 implies #[trigger] kept_listed(src, best, q) by {
        if q < b {
            assert(kept_listed(pre_src, best, q));
            let i = choose|i: int| 0 <= i < pre_src.len() && pre_src[i] == best[q] as int;
            if i < p {
                assert(src[i] == pre_src[i]);
            } else {
                assert(src[i + 1] == pre_src[i]);
            }
        } else {
            assert(src[p] == best[q] as int);
        }
    }
}

/// Pass over a listing keeping, for each Tome, the index of its newest
/// snapshot.
fn kept_snapshots(infos: &Vec<ObjectInfo>) -> (r: (Vec<Vec<char>>, Vec<usize>))
    ensures
        r.0.len() == r.1.len(),
        forall|b: int| 0 <= b < r.1.len() ==> latest_among(infos@, infos@.len() as int, #[trigger] r.1@[b] as int),
        forall|b: int| 0 <= b < r.1.len() ==> uuid_of(infos@, #[trigger] r.1@[b] as int) == r.0@[b]@,
        forall|k: int| 0 <= k < infos@.len() && is_snap(infos@, k) ==> exists|b: int|
            0 <= b < r.0.len() && (#[trigger] r.0@[b])@ == uuid_of(infos@, k),
        forall|b1: int, b2: int| 0 <= b1 < b2 < r.0.len() ==> r.0@[b1]@ != r.0@[b2]@,
{
    let mut best_uuid: Vec<Vec<char>> = Vec::new();
    let mut best_idx: Vec<usize> = Vec::new();
    let mut j: usize = 0;
    while j < infos.len()
        invariant
            j <= infos.len(),
            best_uuid.len() == best_idx.len(),
            forall|b: int| 0 <= b < best_idx.len() ==> latest_among(infos@, j as int, #[trigger] best_idx@[b] as int),
            forall|b: int| 0 <= b < best_idx.len() ==> uuid_of(infos@, #[trigger] best_idx@[b] as int) == best_uuid@[b]@,
            forall|k: int| 0 <= k < j && is_snap(infos@, k) ==> exists|b: int|
                0 <= b < best_uuid.len() && (#[trigger] best_uuid@[b])@ == uuid_of(infos@, k),
            forall|b1: int, b2: int| 0 <= b1 < b2 < best_uuid.len() ==> best_uuid@[b1]@ != best_uuid@[b2]@,
        decreases infos.len() - j,
    {
        let parsed = parse_tome_snapshot_key(infos[j].key.as_str());
        match parsed {
            None => {
                proof {
                    assert forall|b: int| 0 <= b < best_idx.len() implies latest_among(infos@, j + 1, #[trigger] best_idx@[b] as int) by {
                        assert(latest_among(infos@, j as int, best_idx@[b] as int));
                    }
                }
            },
            Some((u, _id)) => {
                let ghost jj = j as int;
                assert(uuid_of(infos@, jj) == u@);
                assert(is_snap(infos@, jj));
                let mut b: usize = 0;
                while b < best_uuid.len() && !chars_eq(&best_uuid[b], &u)
                    invariant
                        b <= best_uuid.len(),
                        forall|q: int| 0 <= q < b ==> best_uuid@[q]@ != u@,
                    decreases best_uuid.len() - b,
                {
                    b = b + 1;
                }
                if b == best_uuid.len() {
                    let ghost pre_uuid = best_uuid@;
                    let ghost pre_idx = best_idx@;
                    proof {
                        assert forall|q: int| 0 <= q < pre_idx.len() implies latest_among(infos@, j + 1, #[trigger] pre_idx[q] as int) by {
                            let jq = pre_idx[q] as int;
                            assert(latest_among(infos@, j as int, jq));
                            assert(uuid_of(infos@, jq) == pre_uuid[q]@);
                            assert(pre_uuid[q]@ != u@);
                        }
                        assert forall|k: int| 0 <= k < jj + 1 && is_snap(infos@, k) && #[trigger] uuid_of(infos@, k) == uuid_of(infos@, jj) implies {
                            &&& lex_le(infos@[k].key@, infos@[jj].key@)
                            &&& (k < jj ==> lex_lt(infos@[k].key@, infos@[jj].key@))
                        } by {
                            if k < jj {
                                let bb = choose|bb: int| 0 <= bb < pre_uuid.len() && (#[trigger] pre_uuid[bb])@ == uuid_of(infos@, k);
                                assert(pre_uuid[bb]@ != u@);
                            }
                        }
                    }
                    best_uuid.push(u);
                    best_idx.push(j);
                    proof {
                        assert forall|k: int| 0 <= k < jj + 1 && is_snap(infos@, k) implies exists|bq: int|
                            0 <= bq < best_uuid.len() && (#[trigger] best_uuid@[bq])@ == uuid_of(infos@, k) by {
                            if k < jj {
                                let bb = choose|bb: int| 0 <= bb < pre_uuid.len() && (#[trigger] pre_uuid[bb])@ == uuid_of(infos@, k);
                                assert(best_uuid@[bb] == pre_uuid[bb]);
                            } else {
                                assert(best_uuid@[pre_uuid.len() as int]@ == uuid_of(infos@, k));
                            }
                        }
                        assert forall|b1: int, b2: int| 0 <= b1 < b2 < best_uuid.len() implies best_uuid@[b1]@ != best_uuid@[b2]@ by {
                            if b2 == pre_uuid.len() {
                                assert(best_uuid@[b1] == pre_uuid[b1]);
                            } else {
                                assert(best_uuid@[b1] == pre_uuid[b1]);
                                assert(best_uuid@[b2] == pre_uuid[b2]);
                            }
                        }
                        assert forall|q: int| 0 <= q < best_idx.len() implies latest_among(infos@, j + 1, #[trigger] best_idx@[q] as int) by {
                            if q < pre_idx.len() {
                                assert(best_idx@[q] == pre_idx[q]);
                            }
                        }
                        assert forall|q: int| 0 <= q < best_idx.len() implies uuid_of(infos@, #[trigger] best_idx@[q] as int) == best_uuid@[q]@ by {
                            if q < pre_idx.len() {
                                assert(best_idx@[q] == pre_idx[q]);
                                assert(best_uuid@[q] == pre_uuid[q]);
                            }
                        }
                    }
                } else {
                    let jb = best_idx[b];
                    let ghost pre_idx = best_idx@;
                    let kb = chars_of(infos[jb].key.as_str());
                    let kj = chars_of(infos[j].key.as_str());
                    proof {
                        assert(best_uuid@[b as int]@ == u@);
                        assert(latest_among(infos@, j as int, jb as int));
                        assert(uuid_of(infos@, jb as int) == u@);
                    }
                    if lex_lt_chars(&kb, &kj) {
                        best_idx.set(b, j);
                        proof {
                            assert forall|k: int| 0 <= k < jj + 1 && is_snap(infos@, k) && #[trigger] uuid_of(infos@, k) == uuid_of(infos@, jj) implies {
                                &&& lex_le(infos@[k].key@, infos@[jj].key@)
                                &&& (k < jj ==> lex_lt(infos@[k].key@, infos@[jj].key@))
                            } by {
                                if k < jj {
                                    assert(lex_le(infos@[k].key@, infos@[jb as int].key@));
                                    lemma_lex_le_lt(infos@[k].key@, infos@[jb as int].key@, infos@[jj].key@);
                                }
                            }
                            assert forall|q: int| 0 <= q < best_idx.len() implies latest_among(infos@, j + 1, #[trigger] best_idx@[q] as int) by {
                                if q != b {
                                    let jq = pre_idx[q] as int;
                                    assert(best_idx@[q] == pre_idx[q]);
                                    assert(latest_among(infos@, j as int, jq));
                                    assert(best_uuid@[q]@ != best_uuid@[b as int]@);
                                }
                            }
                            assert forall|q: int| 0 <= q < best_idx.len() implies uuid_of(infos@, #[trigger] best_idx@[q] as int) == best_uuid@[q]@ by {
                                if q != b {
                                    assert(best_idx@[q] == pre_idx[q]);
                                }
                            }
                        }
                    } else {
                        proof {
                            lemma_lex_total(kb@, kj@);
                            assert(lex_le(infos@[jj].key@, infos@[jb as int].key@));
                            assert forall|q: int| 0 <= q < best_idx.len() implies latest_among(infos@, j + 1, #[trigger] best_idx@[q] as int) by {
                                let jq = best_idx@[q] as int;
                                assert(latest_among(infos@, j as int, jq));
                                if q != b {
                                    assert(best_uuid@[q]@ != best_uuid@[b as int]@);
                                }
                            }
                        }
                    }
                    proof {
                        assert forall|k: int| 0 <= k < jj + 1 && is_snap(infos@, k) implies exists|bq: int|
                            0 <= bq < best_uuid.len() && (#[trigger] best_uuid@[bq])@ == uuid_of(infos@, k) by {
                            if k == jj {
                                assert(best_uuid@[b as int]@ == uuid_of(infos@, k));
                            }
                        }
                    }
                }
            },
        }
        j = j + 1;
    }
    (best_uuid, best_idx)
}

/// Inserting a summary and its source index at the same place keeps each
/// summary paired with its source.
proof fn lemma_insert_summaries(
    pre: Seq<TomeSnapshotSummary>,
    out: Seq<TomeSnapshotSummary>,
    pre_src: Seq<int>,
    src: Seq<int>,
    p: int,
    s: TomeSnapshotSummary,
    jb: int,
    infos: Seq<ObjectInfo>,
)
    requires
        0 <= p <= pre.len(),
        pre.len() == pre_src.len(),
        out == pre.insert(p, s),
        src == pre_src.insert(p, jb),
        summarises(s, infos, jb),
        forall|i: int| 0 <= i < pre.len() ==> summarises(#[trigger] pre[i], infos, pre_src[i]),
    ensures
        out.len() == src.len(),
        forall|i: int| 0 <= i < out.len() ==> summarises(#[trigger] out[i], infos, src[i]),
{
    assert forall|i: int| 0 <= i < out.len() implies summarises(#[trigger] out[i], infos, src[i]) by {
        if i < p {
            assert(out[i] == pre[i] && src[i] == pre_src[i]);
        } else if i > p {
            assert(out[i] == pre[i - 1] && src[i] == pre_src[i - 1]);
        }
    }
}

/// `s` summarises one of the kept snapshots `best`.
pub open spec fn summarises_kept(s: TomeSnapshotSummary, infos: Seq<ObjectInfo>, best: Seq<usize>) -> bool {
    exists|q: int| 0 <= q < best.len() && #[trigger] summarises(s, infos, best[q] as int)
}

/// The kept snapshot `best[q]` is summarised in `out`.
pub open spec fn kept_summarised(out: Seq<TomeSnapshotSummary>, infos: Seq<ObjectInfo>, best: Seq<usize>, q: int) -> bool {
    exists|i: int| 0 <= i < out.len() && #[trigger] summarises(out[i], infos, best[q] as int)
}

/// A position map that covers every kept index turns "each output is some
/// kept snapshot" and "each kept snapshot is output" into statements about
/// the output alone.
proof fn lemma_positions_complete(out: Seq<TomeSnapshotSummary>, src: Seq<int>, best: Seq<usize>, infos: Seq<ObjectInfo>)
    requires
        src.len() == out.len(),
        forall|i: int| 0 <= i < src.len() ==> from_kept(#[trigger] src[i], best, best.len() as int),
        forall|q: int| 0 <= q < best.len() ==> #[trigger] kept_listed(src, best, q),
        forall|i: int| 0 <= i < out.len() ==> summarises(#[trigger] out[i], infos, src[i]),
    ensures
        forall|i: int| 0 <= i < out.len() ==> summarises_kept(#[trigger] out[i], infos, best),
        forall|q: int| 0 <= q < best.len() ==> #[trigger] kept_summarised(out, infos, best, q),
{
    reveal(from_kept);
    reveal(kept_listed);
    assert forall|i: int| 0 <= i < out.len() implies summarises_kept(#[trigger] out[i], infos, best) by {
        assert(from_kept(src[i], best, best.len() as int));
        let q = choose|q: int| 0 <= q < best.len() && src[i] == best[q] as int;
        assert(summarises(out[i], infos, src[i]));
        assert(summarises(out[i], infos, best[q] as int));
    }
    assert forall|q: int| 0 <= q < best.len() implies #[trigger] kept_summarised(out, infos, best, q) by {
        assert(kept_listed(src, best, q));
        let i = choose|i: int| 0 <= i < src.len() && src[i] == best[q] as int;
        assert(summarises(out[i], infos, src[i]));
        assert(summarises(out[i], infos, best[q] as int));
    }
}

/// The kept snapshots as summaries, newest first.
#[verifier::rlimit(60)]
fn summaries_newest_first(infos: &Vec<ObjectInfo>, best_uuid: &Vec<Vec<char>>, best_idx: &Vec<usize>) -> (r: Vec<TomeSnapshotSummary>)
    requires
        best_uuid.len() == best_idx.len(),
        forall|b: int| 0 <= b < best_idx.len() ==> latest_among(infos@, infos@.len() as int, #[trigger] best_idx@[b] as int),
        forall|b: int| 0 <= b < best_idx.len() ==> uuid_of(infos@, #[trigger] best_idx@[b] as int) == best_uuid@[b]@,
        forall|b1: int, b2: int| 0 <= b1 < b2 < best_uuid.len() ==> best_uuid@[b1]@ != best_uuid@[b2]@,
    ensures
        forall|i: int| 0 <= i < r@.len() ==> summarises_kept(#[trigger] r@[i], infos@, best_idx@),
        forall|q: int| 0 <= q < best_idx.len() ==> #[trigger] kept_summarised(r@, infos@, best_idx@, q),
        forall|i: int, k: int| 0 <= i < k < r@.len() ==> r@[i].tome_uuid@ != r@[k].tome_uuid@,
        forall|i: int, k: int| 0 <= i < k < r@.len() ==> r@[i].last_modified >= r@[k].last_modified,
{
    let mut out: Vec<TomeSnapshotSummary> = Vec::new();
    let ghost mut src: Seq<int> = Seq::empty();
    let mut b: usize = 0;
    while b < best_idx.len()
        invariant
            b <= best_idx.len(),
            best_uuid.len() == best_idx.len(),
            forall|q: int| 0 <= q < best_idx.len() ==> latest_among(infos@, infos@.len() as int, #[trigger] best_idx@[q] as int),
            forall|q: int| 0 <= q < best_idx.len() ==> uuid_of(infos@, #[trigger] best_idx@[q] as int) == best_uuid@[q]@,
            forall|b1: int, b2: int| 0 <= b1 < b2 < best_uuid.len() ==> best_uuid@[b1]@ != best_uuid@[b2]@,
            src.len() == out@.len(),
            forall|i: int| 0 <= i < src.len() ==> from_kept(#[trigger] src[i], best_idx@, b as int),
            forall|q: int| 0 <= q < b ==> #[trigger] kept_listed(src, best_idx@, q),
            forall|i: int| 0 <= i < out@.len() ==> summarises(#[trigger] out@[i], infos@, src[i]),
            forall|i: int, k: int| 0 <= i < k < out@.len() ==> out@[i].tome_uuid@ != out@[k].tome_uuid@,
            forall|i: int, k: int| 0 <= i < k < out@.len() ==> out@[i].last_modified >= out@[k].last_modified,
        decreases best_idx.len() - b,
    {
        let jb = best_idx[b];
        proof {
            assert(latest_among(infos@, infos@.len() as int, best_idx@[b as int] as int));
        }
        let parsed = parse_tome_snapshot_key(infos[jb].key.as_str());
        proof {
            assert(is_snap(infos@, jb as int));
        }
        let (u, id) = parsed.unwrap();
        let s = TomeSnapshotSummary {
            tome_uuid: string_of(&u),
            snapshot_id: string_of(&id),
            size_bytes: infos[jb].size,
            last_modified: infos[jb].last_modified,
        };
        let ghost sv = s;
        let ghost pre = out@;
        let ghost pre_src = src;
        proof {
            assert(summarises(sv, infos@, jb as int));
            assert forall|i: int| 0 <= i < pre.len() implies pre[i].tome_uuid@ != sv.tome_uuid@ by {
                assert(from_kept(pre_src[i], best_idx@, b as int));
                reveal(from_kept);
                let q = choose|q: int| 0 <= q < b && pre_src[i] == best_idx@[q] as int;
                assert(summarises(pre[i], infos@, pre_src[i]));
                assert(uuid_of(infos@, best_idx@[q] as int) == best_uuid@[q]@);
                assert(best_uuid@[q]@ != best_uuid@[b as int]@);
            }
        }
        let p = insert_newest_first(&mut out, s);
        proof {
            src = pre_src.insert(p as int, jb as int);
            lemma_insert_tracks(pre_src, src, p as int, jb as int, best_idx@, b as int);
            lemma_insert_summaries(pre, out@, pre_src, src, p as int, sv, jb as int, infos@);
        }
        b = b + 1;
    }
    proof {
        lemma_positions_complete(out@, src, best_idx@, infos@);
    }
    out
}

/// `s` summarises the snapshot that some Tome keeps in `infos`.
pub open spec fn summarises_latest(s: TomeSnapshotSummary, infos: Seq<ObjectInfo>) -> bool {
    exists|j: int| latest_among(infos, infos.len() as int, j) && #[trigger] summarises(s, infos, j)
}

/// The newest snapshot of every Tome in a listing of a shared store's
/// `tomes/` tree, newest first. Keys other than
/// `tomes/<uuid>/snapshots/<id>.snap.enc` are ignored.
pub fn list_tome_snapshots(infos: &Vec<ObjectInfo>) -> (r: Vec<TomeSnapshotSummary>)
    ensures
        forall|i: int| 0 <= i < r@.len() ==> summarises_latest(#[trigger] r@[i], infos@),
        forall|j: int| latest_among(infos@, infos@.len() as int, j) ==> exists|i: int|
            0 <= i < r@.len() && #[trigger] summarises(r@[i], infos@, j),
        forall|i: int, k: int| 0 <= i < k < r@.len() ==> r@[i].tome_uuid@ != r@[k].tome_uuid@,
        forall|i: int, k: int| 0 <= i < k < r@.len() ==> r@[i].last_modified >= r@[k].last_modified,
{
    let (best_uuid, best_idx) = kept_snapshots(infos);
    let out = summaries_newest_first(infos, &best_uuid, &best_idx);
    proof {
        assert forall|jl: int| latest_among(infos@, infos@.len() as int, jl) implies exists|i: int|
            0 <= i < out@.len() && #[trigger] summarises(out@[i], infos@, jl) by {
            let bb = choose|bb: int| 0 <= bb < best_uuid.len() && (#[trigger] best_uuid@[bb])@ == uuid_of(infos@, jl);
            let jq = best_idx@[bb] as int;
            assert(latest_among(infos@, infos@.len() as int, jq));
            assert(uuid_of(infos@, jq) == uuid_of(infos@, jl));
            if jq != jl {
                if jq < jl {
                    assert(lex_lt(infos@[jq].key@, infos@[jl].key@));
                    assert(lex_le(infos@[jl].key@, infos@[jq].key@));
                    lemma_lex_asym(infos@[jq].key@, infos@[jl].key@);
                    lemma_lex_irrefl(infos@[jq].key@);
                } else {
                    assert(lex_lt(infos@[jl].key@, infos@[jq].key@));
                    assert(lex_le(infos@[jq].key@, infos@[jl].key@));
                    lemma_lex_asym(infos@[jl].key@, infos@[jq].key@);
                    lemma_lex_irrefl(infos@[jl].key@);
                }
            }
            assert(kept_summarised(out@, infos@, best_idx@, bb));
            let i = choose|i: int| 0 <= i < out@.len() && #[trigger] summarises(out@[i], infos@, best_idx@[bb] as int);
            assert(summarises(out@[i], infos@, jl));
        }
        assert forall|i: int| 0 <= i < out@.len() implies summarises_latest(#[trigger] out@[i], infos@) by {
            assert(summarises_kept(out@[i], infos@, best_idx@));
            let q = choose|q: int| 0 <= q < best_idx@.len() && #[trigger] summarises(out@[i], infos@, best_idx@[q] as int);
            assert(latest_among(infos@, infos@.len() as int, best_idx@[q] as int));
        }
    }
    out
}

/// A snapshot stored with `tome_snapshot_key` is found again by the
/// listing of the shared store, under its Tome and id, for every uuid and
/// id without a `/`.
pub proof fn lemma_tome_snapshot_key_roundtrip(tome_uuid: Seq<char>, snapshot_id: Seq<char>)
    requires
        crate::engine::no_slash(tome_uuid),
        crate::engine::no_slash(snapshot_id),
    ensures
        tome_snapshot_entry("tomes/"@ + tome_uuid + "/snapshots/"@ + snapshot_id + ".snap.enc"@)
            == Some((tome_uuid, snapshot_id)),
{
    reveal_strlit("tomes/");
    reveal_strlit("/snapshots/");
    reveal_strlit(".snap.enc");
    reveal_strlit("tomes");
    reveal_strlit("snapshots");
    let file = snapshot_id + ".snap.enc"@;
    let key = "tomes/"@ + tome_uuid + "/snapshots/"@ + snapshot_id + ".snap.enc"@;
    let t = "tomes"@;
    let sn = "snapshots"@;
    assert(key =~= t + seq!['/'] + (tome_uuid + seq!['/'] + (sn + seq!['/'] + file)));
    crate::text::lemma_split_char_concat(t, tome_uuid + seq!['/'] + (sn + seq!['/'] + file), '/');
    crate::text::lemma_split_char_concat(tome_uuid, sn + seq!['/'] + file, '/');
    crate::text::lemma_split_char_concat(sn, file, '/');
    crate::text::lemma_split_char_none(t, '/');
    crate::text::lemma_split_char_none(tome_uuid, '/');
    crate::text::lemma_split_char_none(sn, '/');
    crate::text::lemma_split_char_none(file, '/');
    let parts = split_char(key, '/');
    assert(parts =~= seq![t, tome_uuid, sn, file]);
    assert(crate::text::ends_with(file, ".snap.enc"@)) by {
        assert(file.subrange(file.len() - 9, file.len() as int) =~= ".snap.enc"@);
    }
    assert(file.subrange(0, file.len() - 9) =~= snapshot_id);
}

/// A path inside single quotes as SQL writes it: each `'` doubled.
pub open spec fn sql_quoted(path: Seq<char>) -> Seq<char>
    decreases path.len(),
{
    if path.len() == 0 {
        Seq::empty()
    } else {
        sql_quoted(path.drop_last()) + if path.last() == '\'' {
            seq!['\'', '\'']
        } else {
            seq![path.last()]
        }
    }
}

/// The statement that copies the open database into the file at `path`
/// for a snapshot.
pub fn vacuum_into_sql(path: &str) -> (r: String)
    ensures
        r@ == "VACUUM INTO '"@ + sql_quoted(path@) + "'"@,
{
    let v = chars_of(path);
    let mut q: Vec<char> = Vec::new();
    let mut i: usize = 0;
    assert(v@.take(0) =~= Seq::<char>::empty());
    while i < v.len()
        invariant
            i <= v.len(),
            q@ == sql_quoted(v@.take(i as int)),
        decreases v.len() - i,
    {
        let c = v[i];
        assert(v@.take(i + 1).drop_last() =~= v@.take(i as int));
        let ghost before = q@;
        if c == '\'' {
            q.push('\'');
            q.push('\'');
            assert(q@ =~= before + seq!['\'', '\'']);
        } else {
            q.push(c);
            assert(q@ =~= before + seq![c]);
        }
        i = i + 1;
    }
    assert(v@.take(i as int) =~= v@);
    let head = chars_of("VACUUM INTO '");
    let tail = chars_of("'");
    string_of(&concat(&concat(&head, &q), &tail))
}

} // verus!
