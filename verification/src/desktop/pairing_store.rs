//! Per-device pairing keys: the secret that a USB peer presents in `AUTH`,
//! kept per UDID with the time it was issued. On disk this is TOML:
//!
//! ```toml
//! [pairings."UDID-1"]
//! pairing_key_b64 = "..."
//! paired_at = "2026-05-28T20:00:00Z"
//! ```
//!
//! This module holds the table and the key codec; reading and writing the
//! file is left to the caller.

use vstd::prelude::*;
use base64::engine::general_purpose::STANDARD_NO_PAD;
use base64::Engine;
use crate::desktop::b64::{b64_nopad, b64_nopad_len, law_b64_nopad_injective};
use crate::desktop::token::random_bytes;
use crate::session::keepalive::epoch_nanos_now;

verus! {

/// `toml::de::Error`, carried through opaquely.
#[verifier::external_type_specification]
#[verifier::external_body]
pub struct ExTomlDeError(toml::de::Error);

/// `toml::ser::Error`, carried through opaquely.
#[verifier::external_type_specification]
#[verifier::external_body]
pub struct ExTomlSerError(toml::ser::Error);

/// Why base64 text was refused (the variants of `base64::DecodeError`).
#[derive(Debug, Clone, Copy, PartialEq, Eq)]
pub enum B64DecodeError {
    /// A symbol outside the alphabet, at this offset.
    InvalidByte(usize, u8),
    /// A length that no encoding has.
    InvalidLength(usize),
    /// A last symbol with nonzero bits that decoding would drop.
    InvalidLastSymbol(usize, u8),
    /// Padding where none is allowed.
    InvalidPadding,
}

/// Errors of the pairing store.
#[derive(Debug)]
pub enum PairingStoreError {
    Io(std::io::Error),
    TomlDe(toml::de::Error),
    TomlSer(toml::ser::Error),
    B64(B64DecodeError),
    NoConfigDir,
}

/// The bytes that some unpadded standard-alphabet base64 text stands for,
/// if it is the encoding of any.
pub open spec fn b64_decode_std(s: Seq<char>) -> Option<Seq<u8>> {
    if exists|v: Seq<u8>| b64_nopad(false, v) == s {
        Some(choose|v: Seq<u8>| b64_nopad(false, v) == s)
    } else {
        None
    }
}

/// Law: decoding the encoding of `b` gives back `b`.
pub proof fn law_b64_decode_encode(b: Seq<u8>)
    ensures
        b64_decode_std(b64_nopad(false, b)) == Some(b),
{
    let s = b64_nopad(false, b);
    assert(exists|v: Seq<u8>| b64_nopad(false, v) == s);
    let v = choose|v: Seq<u8>| b64_nopad(false, v) == s;
    law_b64_nopad_injective(false, v, b);
}

/// `STANDARD_NO_PAD.encode`: the standard-alphabet base64 of the bytes
/// without `=` padding. The crate panics when the encoded length overflows
/// `usize`, which `requires` rules out.
#[verifier::external_body]
fn b64_std_encode(bytes: &[u8]) -> (s: String)
    requires
        b64_nopad_len(bytes@.len() as int) <= usize::MAX,
    ensures
        s@ == b64_nopad(false, bytes@),
{
    STANDARD_NO_PAD.encode(bytes)
}

/// `STANDARD_NO_PAD.decode`: with this engine's configuration (no padding
/// accepted, no stray trailing bits) the crate accepts exactly the canonical
/// unpadded encodings; the decoded bytes are those whose encoding is the
/// input, and that encoding is the in-memory input, so its length fits in
/// `usize`. Which error variant comes back is not stated.
#[verifier::external_body]
fn b64_std_decode(s: &str) -> (r: Result<Vec<u8>, B64DecodeError>)
    ensures
        match r {
            Ok(v) => b64_nopad(false, v@) == s@ && b64_nopad_len(v@.len() as int) <= usize::MAX,
            Err(_) => !exists|v: Seq<u8>| b64_nopad(false, v) == s@,
        },
{
    match STANDARD_NO_PAD.decode(s) {
        Ok(v) => Ok(v),
        Err(base64::DecodeError::InvalidByte(i, b)) => Err(B64DecodeError::InvalidByte(i, b)),
        Err(base64::DecodeError::InvalidLength(n)) => Err(B64DecodeError::InvalidLength(n)),
        Err(base64::DecodeError::InvalidLastSymbol(i, b)) => Err(B64DecodeError::InvalidLastSymbol(i, b)),
        Err(base64::DecodeError::InvalidPadding) => Err(B64DecodeError::InvalidPadding),
    }
}

/// The RFC 3339 text (UTC) of the instant `secs` seconds and `nsecs`
/// nanoseconds after the Unix epoch, or `None` where no such date exists in
/// the calendar's range.
pub uninterp spec fn rfc3339_of_timestamp(secs: i64, nsecs: u32) -> Option<Seq<char>>;

/// `DateTime::<Utc>::from_timestamp(secs, nsecs)`, rendered with
/// `to_rfc3339()` when it exists: a function of `secs` and `nsecs` alone.
/// `from_timestamp` answers `None` out of range and does not fail;
/// `to_rfc3339` writes to a `String`, which does not fail.
#[verifier::external_body]
fn rfc3339_at(secs: i64, nsecs: u32) -> (r: Option<String>)
    ensures
        (match r {
            Some(s) => Some(s@),
            None => None,
        }) == rfc3339_of_timestamp(secs, nsecs),
{
    match chrono::DateTime::<chrono::Utc>::from_timestamp(secs, nsecs) {
        Some(d) => Some(d.to_rfc3339()),
        None => None,
    }
}

/// The RFC 3339 text of a clock reading of `ns` nanoseconds since the
/// epoch, where its whole seconds fit an `i64` and the date exists.
pub open spec fn spec_rfc3339_of_reading(ns: u128) -> Option<Seq<char>> {
    if ns / 1_000_000_000 <= i64::MAX {
        rfc3339_of_timestamp((ns / 1_000_000_000) as i64, (ns % 1_000_000_000) as u32)
    } else {
        None
    }
}

/// The `paired_at` text of a clock reading (nanoseconds since the Unix
/// epoch): its RFC 3339 text, or empty when the clock is before the epoch
/// or the instant has no calendar date.
pub fn pairing_timestamp(reading: Option<u128>) -> (s: String)
    ensures
        match reading {
            Some(ns) => match spec_rfc3339_of_reading(ns) {
                Some(t) => s@ == t,
                None => s@ == Seq::<char>::empty(),
            },
            None => s@ == Seq::<char>::empty(),
        },
{
    match reading {
        Some(ns) => {
            let secs: u128 = ns / 1_000_000_000;
            if secs <= i64::MAX as u128 {
                let nsecs: u32 = (ns % 1_000_000_000) as u32;
                match rfc3339_at(secs as i64, nsecs) {
                    Some(t) => t,
                    None => String::new(),
                }
            } else {
                String::new()
            }
        },
        None => String::new(),
    }
}

/// What `put` stamps a record with: RFC 3339 text of some instant since the
/// epoch, or empty when the clock could not be rendered.
pub open spec fn is_pairing_timestamp(s: Seq<char>) -> bool {
    s == Seq::<char>::empty() || exists|ns: u128| spec_rfc3339_of_reading(ns) == Some(s)
}

/// The length of a freshly issued pairing key.
pub const PAIRING_KEY_BYTES: usize = 32;

/// A device's pairing key (secret bytes).
#[derive(PartialEq, Eq)]
pub struct PairingMaterial(Vec<u8>);

impl View for PairingMaterial {
    type V = Seq<u8>;

    closed spec fn view(&self) -> Seq<u8> {
        self.0@
    }
}

impl PairingMaterial {
    /// Every key can be written as base64 in memory.
    #[verifier::type_invariant]
    closed spec fn encodable(self) -> bool {
        b64_nopad_len(self.0@.len() as int) <= usize::MAX
    }

    /// A fresh random key of 32 bytes; `None` when the operating system's
    /// random source fails.
    pub fn new_random() -> (r: Option<PairingMaterial>)
        ensures
            r matches Some(m) ==> m@.len() == PAIRING_KEY_BYTES,
    {
        match random_bytes(PAIRING_KEY_BYTES) {
            Some(v) => Some(PairingMaterial(v)),
            None => None,
        }
    }

    /// The key's bytes.
    pub fn bytes(&self) -> (b: &[u8])
        ensures
            b@ == self@,
    {
        self.0.as_slice()
    }

    /// The key as unpadded standard base64.
    pub fn as_b64(&self) -> (s: String)
        ensures
            s@ == b64_nopad(false, self@),
    {
        proof {
            use_type_invariant(self);
        }
        b64_std_encode(self.0.as_slice())
    }

    /// The key that unpadded standard base64 text stands for; text that is
    /// not such an encoding is a `B64` error.
    pub fn from_b64(s: &str) -> (r: Result<PairingMaterial, PairingStoreError>)
        ensures
            match b64_decode_std(s@) {
                Some(v) => r matches Ok(m) && m@ == v,
                None => r matches Err(PairingStoreError::B64(_)),
            },
    {
        match b64_std_decode(s) {
            Ok(v) => {
                proof {
                    law_b64_decode_encode(v@);
                }
                Ok(PairingMaterial(v))
            },
            Err(e) => Err(PairingStoreError::B64(e)),
        }
    }
}

impl Clone for PairingMaterial {
    fn clone(&self) -> (c: Self)
        ensures
            c@ == self@,
    {
        proof {
            use_type_invariant(self);
        }
        PairingMaterial(self.0.clone())
    }
}

/// What the store keeps for one device.
#[derive(Debug)]
pub struct PairingRecord {
    pub udid: String,
    pub pairing_key_b64: String,
    /// RFC 3339 time at which the key was stored.
    pub paired_at: String,
}

/// What a record stores under its UDID: the key text and the time.
pub open spec fn record_value(r: PairingRecord) -> (Seq<char>, Seq<char>) {
    (r.pairing_key_b64@, r.paired_at@)
}

/// The map of a list of records.
pub open spec fn records_map(rs: Seq<PairingRecord>) -> Map<Seq<char>, (Seq<char>, Seq<char>)>
    decreases rs.len(),
{
    if rs.len() == 0 {
        Map::empty()
    } else {
        records_map(rs.drop_last()).insert(rs.last().udid@, record_value(rs.last()))
    }
}

/// No two records share a UDID.
pub open spec fn udids_unique(rs: Seq<PairingRecord>) -> bool {
    forall|i: int, j: int| 0 <= i < j < rs.len() ==> (#[trigger] rs[i]).udid@ != (#[trigger] rs[j]).udid@
}

proof fn lemma_records_map_dom(rs: Seq<PairingRecord>)
    requires
        udids_unique(rs),
    ensures
        forall|k: Seq<char>| #[trigger] records_map(rs).contains_key(k) <==> exists|i: int|
            0 <= i < rs.len() && rs[i].udid@ == k,
        forall|i: int| 0 <= i < rs.len() ==> #[trigger] records_map(rs)[rs[i].udid@] == record_value(rs[i]),
    decreases rs.len(),
{
    if rs.len() > 0 {
        let d = rs.drop_last();
        let n = rs.len() - 1;
        assert forall|i: int| 0 <= i < d.len() implies #[trigger] d[i] == rs[i] by {}
        assert(udids_unique(d)) by {
            assert forall|i: int, j: int| 0 <= i < j < d.len() implies (#[trigger] d[i]).udid@ != (
            #[trigger] d[j]).udid@ by {
                assert(d[i] == rs[i] && d[j] == rs[j]);
            }
        }
        lemma_records_map_dom(d);
        assert forall|k: Seq<char>| #[trigger] records_map(rs).contains_key(k) implies exists|i: int|
            0 <= i < rs.len() && rs[i].udid@ == k by {
            if k != rs[n].udid@ {
                assert(records_map(d).contains_key(k));
                let i = choose|i: int| 0 <= i < d.len() && d[i].udid@ == k;
                assert(rs[i] == d[i]);
            }
        }
        assert forall|k: Seq<char>| (exists|i: int| 0 <= i < rs.len() && rs[i].udid@ == k) implies
            #[trigger] records_map(rs).contains_key(k) by {
            let i = choose|i: int| 0 <= i < rs.len() && rs[i].udid@ == k;
            if i < n {
                assert(rs[i] == d[i]);
                assert(records_map(d).contains_key(k));
            }
        }
        assert forall|i: int| 0 <= i < rs.len() implies #[trigger] records_map(rs)[rs[i].udid@] == record_value(
            rs[i]) by {
            if i < n {
                assert(rs[i] == d[i]);
                assert(rs[i].udid@ != rs[n].udid@);
                assert(records_map(d)[d[i].udid@] == record_value(d[i]));
            }
        }
    }
}

proof fn lemma_records_map_update(rs: Seq<PairingRecord>, idx: int, r: PairingRecord)
    requires
        udids_unique(rs),
        0 <= idx < rs.len(),
        rs[idx].udid@ == r.udid@,
    ensures
        udids_unique(rs.update(idx, r)),
        records_map(rs.update(idx, r)) =~= records_map(rs).insert(r.udid@, record_value(r)),
{
    let u = rs.update(idx, r);
    assert(udids_unique(u)) by {
        assert forall|i: int, j: int| 0 <= i < j < u.len() implies (#[trigger] u[i]).udid@ != (
        #[trigger] u[j]).udid@ by {
            assert(u[i].udid@ == rs[i].udid@ && u[j].udid@ == rs[j].udid@);
        }
    }
    lemma_records_map_dom(rs);
    lemma_records_map_dom(u);
    let k0 = r.udid@;
    assert forall|k: Seq<char>| #[trigger] records_map(u).contains_key(k) <==> records_map(rs).insert(
        k0,
        record_value(r),
    ).contains_key(k) by {
        if records_map(u).contains_key(k) {
            let i = choose|i: int| 0 <= i < u.len() && u[i].udid@ == k;
            assert(rs[i].udid@ == k);
        }
        if records_map(rs).contains_key(k) {
            let i = choose|i: int| 0 <= i < rs.len() && rs[i].udid@ == k;
            assert(u[i].udid@ == k);
        }
        if k == k0 {
            assert(u[idx].udid@ == k);
        }
    }
    assert forall|k: Seq<char>| #[trigger] records_map(u).contains_key(k) implies records_map(u)[k]
        == records_map(rs).insert(k0, record_value(r))[k] by {
        let i = choose|i: int| 0 <= i < u.len() && u[i].udid@ == k;
        if i == idx {
        } else {
            assert(u[i] == rs[i]);
            assert(rs[i].udid@ != k0);
        }
    }
}

proof fn lemma_records_map_remove(rs: Seq<PairingRecord>, idx: int)
    requires
        udids_unique(rs),
        0 <= idx < rs.len(),
    ensures
        udids_unique(rs.remove(idx)),
        records_map(rs.remove(idx)) =~= records_map(rs).remove(rs[idx].udid@),
{
    let r = rs.remove(idx);
    assert(udids_unique(r)) by {
        assert forall|i: int, j: int| 0 <= i < j < r.len() implies (#[trigger] r[i]).udid@ != (
        #[trigger] r[j]).udid@ by {
            let ii = if i < idx { i } else { i + 1 };
            let jj = if j < idx { j } else { j + 1 };
            assert(r[i] == rs[ii] && r[j] == rs[jj]);
        }
    }
    lemma_records_map_dom(rs);
    lemma_records_map_dom(r);
    let k0 = rs[idx].udid@;
    assert forall|k: Seq<char>| #[trigger] records_map(r).contains_key(k) <==> records_map(rs).remove(
        k0,
    ).contains_key(k) by {
        if records_map(r).contains_key(k) {
            let i = choose|i: int| 0 <= i < r.len() && r[i].udid@ == k;
            let ii = if i < idx { i } else { i + 1 };
            assert(r[i] == rs[ii]);
        }
        if records_map(rs).remove(k0).contains_key(k) {
            let i = choose|i: int| 0 <= i < rs.len() && rs[i].udid@ == k;
            assert(i != idx);
            let ri = if i < idx { i } else { i - 1 };
            assert(r[ri] == rs[i]);
        }
    }
    assert forall|k: Seq<char>| #[trigger] records_map(r).contains_key(k) implies records_map(r)[k]
        == records_map(rs).remove(k0)[k] by {
        let i = choose|i: int| 0 <= i < r.len() && r[i].udid@ == k;
        let ii = if i < idx { i } else { i + 1 };
        assert(r[i] == rs[ii]);
    }
}

proof fn lemma_records_map_push(rs: Seq<PairingRecord>, r: PairingRecord)
    requires
        udids_unique(rs),
        !records_map(rs).contains_key(r.udid@),
    ensures
        udids_unique(rs.push(r)),
        records_map(rs.push(r)) == records_map(rs).insert(r.udid@, record_value(r)),
{
    let p = rs.push(r);
    assert(p.drop_last() =~= rs);
    lemma_records_map_dom(rs);
    assert forall|i: int, j: int| 0 <= i < j < p.len() implies (#[trigger] p[i]).udid@ != (
    #[trigger] p[j]).udid@ by {
        if j == p.len() - 1 {
            assert(p[i] == rs[i]);
            assert(records_map(rs).contains_key(rs[i].udid@));
        } else {
            assert(p[i] == rs[i] && p[j] == rs[j]);
        }
    }
}

/// The pairing table: at most one record per UDID.
pub struct PairingBook {
    records: Vec<PairingRecord>,
}

impl View for PairingBook {
    type V = Map<Seq<char>, (Seq<char>, Seq<char>)>;

    closed spec fn view(&self) -> Map<Seq<char>, (Seq<char>, Seq<char>)> {
        records_map(self.records@)
    }
}

impl PairingBook {
    /// Invariant: no two records share a UDID.
    pub closed spec fn wf(&self) -> bool {
        udids_unique(self.records@)
    }

    /// An empty table.
    pub fn new() -> (b: PairingBook)
        ensures
            b.wf(),
            b@ == Map::<Seq<char>, (Seq<char>, Seq<char>)>::empty(),
    {
        PairingBook { records: Vec::new() }
    }

    /// The index of the record for `udid`, if there is one.
    fn find(&self, udid: &String) -> (r: Option<usize>)
        requires
            self.wf(),
        ensures
            match r {
                Some(i) => i < self.records@.len() && self.records@[i as int].udid@ == udid@,
                None => !self@.contains_key(udid@),
            },
    {
        let mut i: usize = 0;
        while i < self.records.len()
            invariant
                i <= self.records@.len(),
                forall|j: int| 0 <= j < i ==> (#[trigger] self.records@[j]).udid@ != udid@,
            decreases self.records@.len() - i,
        {
            if self.records[i].udid == *udid {
                return Some(i);
            }
            i = i + 1;
        }
        proof {
            lemma_records_map_dom(self.records@);
            if self@.contains_key(udid@) {
                let j = choose|j: int| 0 <= j < self.records@.len() && self.records@[j].udid@ == udid@;
                assert(self.records@[j].udid@ != udid@);
            }
        }
        None
    }

    /// The key stored for `udid`: `None` when there is none, a `B64` error
    /// when the stored text is not base64 of any bytes.
    pub fn get(&self, udid: &str) -> (r: Result<Option<PairingMaterial>, PairingStoreError>)
        requires
            self.wf(),
        ensures
            !self@.contains_key(udid@) ==> r matches Ok(None),
            self@.contains_key(udid@) ==> match b64_decode_std(self@[udid@].0) {
                Some(v) => r matches Ok(Some(m)) && m@ == v,
                None => r matches Err(PairingStoreError::B64(_)),
            },
    {
        let key: String = udid.to_owned();
        match self.find(&key) {
            None => Ok(None),
            Some(i) => {
                proof {
                    lemma_records_map_dom(self.records@);
                }
                match PairingMaterial::from_b64(self.records[i].pairing_key_b64.as_str()) {
                    Ok(m) => Ok(Some(m)),
                    Err(e) => Err(e),
                }
            },
        }
    }

    /// Store `rec`, replacing any record for the same UDID.
    pub fn insert_record(&mut self, rec: PairingRecord)
        requires
            old(self).wf(),
        ensures
            final(self).wf(),
            final(self)@ == old(self)@.insert(rec.udid@, record_value(rec)),
    {
        let ghost old_rs = self.records@;
        match self.find(&rec.udid) {
            Some(i) => {
                proof {
                    lemma_records_map_update(old_rs, i as int, rec);
                }
                self.records.set(i, rec);
            },
            None => {
                proof {
                    lemma_records_map_push(old_rs, rec);
                }
                self.records.push(rec);
            },
        }
    }

    /// Store `mat` as the key of `udid`, stamped with the current time,
    /// replacing any earlier key.
    pub fn put(&mut self, udid: &str, mat: PairingMaterial)
        requires
            old(self).wf(),
        ensures
            final(self).wf(),
            final(self)@ == old(self)@.insert(udid@, (b64_nopad(false, mat@), final(self)@[udid@].1)),
            is_pairing_timestamp(final(self)@[udid@].1),
    {
        let paired_at = pairing_timestamp(epoch_nanos_now());
        let rec = PairingRecord { udid: udid.to_owned(), pairing_key_b64: mat.as_b64(), paired_at };
        self.insert_record(rec);
    }

    /// Drop the record of `udid`, if any.
    pub fn forget(&mut self, udid: &str)
        requires
            old(self).wf(),
        ensures
            final(self).wf(),
            final(self)@ == old(self)@.remove(udid@),
    {
        let ghost old_rs = self.records@;
        let key: String = udid.to_owned();
        match self.find(&key) {
            Some(i) => {
                proof {
                    lemma_records_map_remove(old_rs, i as int);
                }
                self.records.remove(i);
            },
            None => {
                assert(self@.remove(udid@) =~= self@);
            },
        }
    }

    /// The UDIDs that have a key, each once.
    pub fn list(&self) -> (r: Vec<String>)
        requires
            self.wf(),
        ensures
            forall|k: Seq<char>| self@.contains_key(k) <==> exists|i: int| 0 <= i < r@.len() && (#[trigger] r@[i])@ == k,
            forall|i: int, j: int| 0 <= i < j < r@.len() ==> (#[trigger] r@[i])@ != (#[trigger] r@[j])@,
    {
        let mut out: Vec<String> = Vec::new();
        let mut i: usize = 0;
        while i < self.records.len()
            invariant
                i <= self.records@.len(),
                out@.len() == i,
                forall|j: int| 0 <= j < i ==> (#[trigger] out@[j])@ == self.records@[j].udid@,
            decreases self.records@.len() - i,
        {
            out.push(self.records[i].udid.clone());
            i = i + 1;
        }
        proof {
            lemma_records_map_dom(self.records@);
            assert forall|k: Seq<char>| self@.contains_key(k) implies exists|i: int| 0 <= i < out@.len() && (#[trigger] out@[i])@ == k by {
                let j = choose|j: int| 0 <= j < self.records@.len() && self.records@[j].udid@ == k;
                assert(out@[j]@ == k);
            }
            assert forall|k: Seq<char>| (exists|i: int| 0 <= i < out@.len() && (#[trigger] out@[i])@ == k) implies self@.contains_key(k) by {
                let j = choose|j: int| 0 <= j < out@.len() && (#[trigger] out@[j])@ == k;
                assert(self.records@[j].udid@ == k);
            }
        }
        out
    }

    /// A copy of every record, for writing the table out.
    pub fn records(&self) -> (r: Vec<PairingRecord>)
        requires
            self.wf(),
        ensures
            udids_unique(r@),
            records_map(r@) == self@,
    {
        let mut out: Vec<PairingRecord> = Vec::new();
        let mut i: usize = 0;
        while i < self.records.len()
            invariant
                i <= self.records@.len(),
                out@.len() == i,
                forall|j: int| 0 <= j < i ==> (#[trigger] out@[j]).udid@ == self.records@[j].udid@
                    && record_value(out@[j]) == record_value(self.records@[j]),
            decreases self.records@.len() - i,
        {
            let r = &self.records[i];
            out.push(PairingRecord {
                udid: r.udid.clone(),
                pairing_key_b64: r.pairing_key_b64.clone(),
                paired_at: r.paired_at.clone(),
            });
            i = i + 1;
        }
        proof {
            lemma_records_map_same(out@, self.records@);
        }
        out
    }
}

/// Law: a key stored with `put` reads back unchanged. Whatever the table
/// held and whatever time was stamped, after `put(udid, m)` the text stored
/// for `udid` decodes to exactly `m`.
pub proof fn law_get_after_put(
    before: Map<Seq<char>, (Seq<char>, Seq<char>)>,
    udid: Seq<char>,
    m: Seq<u8>,
    paired_at: Seq<char>,
)
    ensures
        before.insert(udid, (b64_nopad(false, m), paired_at)).contains_key(udid),
        b64_decode_std(before.insert(udid, (b64_nopad(false, m), paired_at))[udid].0) == Some(m),
{
    law_b64_decode_encode(m);
}

/// Law: after `forget(udid)` the table has no record for `udid`, so `get`
/// answers `Ok(None)`; the other records are untouched.
pub proof fn law_get_after_forget(before: Map<Seq<char>, (Seq<char>, Seq<char>)>, udid: Seq<char>)
    ensures
        !before.remove(udid).contains_key(udid),
        forall|k: Seq<char>| k != udid && before.contains_key(k) ==> #[trigger] before.remove(udid)[k] == before[k],
{
}

/// Two record lists that agree on every UDID and value have the same map.
proof fn lemma_records_map_same(a: Seq<PairingRecord>, b: Seq<PairingRecord>)
    requires
        a.len() == b.len(),
        forall|j: int| 0 <= j < a.len() ==> (#[trigger] a[j]).udid@ == b[j].udid@ && record_value(a[j]) == record_value(b[j]),
    ensures
        records_map(a) == records_map(b),
        udids_unique(b) ==> udids_unique(a),
    decreases a.len(),
{
    if a.len() > 0 {
        let da = a.drop_last();
        let db = b.drop_last();
        assert forall|j: int| 0 <= j < da.len() implies (#[trigger] da[j]).udid@ == db[j].udid@ && record_value(da[j]) == record_value(db[j]) by {
            assert(da[j] == a[j] && db[j] == b[j]);
        }
        lemma_records_map_same(da, db);
    }
    if udids_unique(b) {
        assert forall|i: int, j: int| 0 <= i < j < a.len() implies (#[trigger] a[i]).udid@ != (#[trigger] a[j]).udid@ by {
            assert(a[i].udid@ == b[i].udid@ && a[j].udid@ == b[j].udid@);
        }
    }
}

} // verus!
