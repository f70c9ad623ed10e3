//! Pairing an incoming media socket with the control session that already
//! completed `AUTH_OK`: the socket's first frame is `MEDIA_HELLO { sessionId,
//! token }`, looked up in a table of pending bindings.

use vstd::prelude::*;
use crate::protocol::messages::MediaHello;
use crate::protocol::wire::{be_u32_at, be_u32_bytes, lemma_be_u32_round_trip};
use crate::session::error::SessionError;

verus! {

/// The session id and credential a media socket presents.
#[derive(Debug, Clone, PartialEq, Eq)]
pub struct MediaBinding {
    pub session_id: String,
    pub token: String,
}

/// The first frame of a media socket, as far as binding cares.
#[derive(Debug)]
pub enum MediaInbound {
    MediaHello(MediaHello),
    Other,
}

/// The binding a media socket's first frame presents; anything but
/// `MEDIA_HELLO` is an unexpected message.
pub fn binding_from_first_frame(body: MediaInbound) -> (r: Result<MediaBinding, SessionError>)
    ensures
        match body {
            MediaInbound::MediaHello(m) => r matches Ok(b) && b.session_id == m.session_id && b.token == m.token,
            MediaInbound::Other => r matches Err(SessionError::UnexpectedMessage(s)) && s@ == "expected MEDIA_HELLO"@,
        },
{
    match body {
        MediaInbound::MediaHello(m) => Ok(MediaBinding { session_id: m.session_id, token: m.token }),
        MediaInbound::Other => Err(SessionError::UnexpectedMessage("expected MEDIA_HELLO")),
    }
}

/// The payload length a media socket's first prefix announces (no cap).
pub fn media_hello_len(prefix: &[u8; 4]) -> (n: u32)
    ensures
        n == be_u32_at(prefix@, 0),
{
    ((prefix[0] as u32) << 24u32) | ((prefix[1] as u32) << 16u32) | ((prefix[2] as u32) << 8u32) | (
    prefix[3] as u32)
}

/// The prefix written before a `MEDIA_HELLO` of `json_len` bytes: the length
/// truncated to `u32`, big-endian.
pub fn media_hello_prefix(json_len: usize) -> (p: [u8; 4])
    ensures
        p@ == be_u32_bytes(json_len as u32),
{
    let len: u32 = #[verifier::truncate] (json_len as u32);
    let p: [u8; 4] = [
        #[verifier::truncate] ((len >> 24u32) as u8),
        #[verifier::truncate] ((len >> 16u32) as u8),
        #[verifier::truncate] ((len >> 8u32) as u8),
        #[verifier::truncate] (len as u8),
    ];
    assert(p@ =~= be_u32_bytes(len));
    p
}

/// The key of a pending binding: session id and credential.
pub type BindingKey = (Seq<char>, Seq<char>);

/// Pending bindings: `(sessionId, token)` to the receiver of the media stream.
pub struct PendingMediaBindings<V> {
    entries: Vec<(String, String, V)>,
}

/// The key of an entry.
pub open spec fn entry_key<V>(e: (String, String, V)) -> BindingKey {
    (e.0@, e.1@)
}

/// The map of a list of entries (a later entry wins; keys are unique anyway).
pub open spec fn entries_map<V>(es: Seq<(String, String, V)>) -> Map<BindingKey, V>
    decreases es.len(),
{
    if es.len() == 0 {
        Map::empty()
    } else {
        entries_map(es.drop_last()).insert(entry_key(es.last()), es.last().2)
    }
}

/// No two entries share a key.
pub open spec fn keys_unique<V>(es: Seq<(String, String, V)>) -> bool {
    forall|i: int, j: int| 0 <= i < j < es.len() ==> entry_key(#[trigger] es[i]) != entry_key(#[trigger] es[j])
}

proof fn lemma_entries_map_dom<V>(es: Seq<(String, String, V)>)
    requires
        keys_unique(es),
    ensures
        forall|k: BindingKey| #[trigger] entries_map(es).contains_key(k) <==> exists|i: int| 0 <= i < es.len()
            && entry_key(es[i]) == k,
        forall|i: int| 0 <= i < es.len() ==> #[trigger] entries_map(es)[entry_key(es[i])] == es[i].2,
    decreases es.len(),
{
    if es.len() > 0 {
        let d = es.drop_last();
        let n = es.len() - 1;
        assert forall|i: int| 0 <= i < d.len() implies #[trigger] d[i] == es[i] by {}
        assert(keys_unique(d)) by {
            assert forall|i: int, j: int| 0 <= i < j < d.len() implies entry_key(#[trigger] d[i]) != entry_key(
                #[trigger] d[j]) by {
                assert(d[i] == es[i] && d[j] == es[j]);
            }
        }
        lemma_entries_map_dom(d);
        assert forall|k: BindingKey| #[trigger] entries_map(es).contains_key(k) implies exists|i: int|
            0 <= i < es.len() && entry_key(es[i]) == k by {
            if k == entry_key(es[n]) {
            } else {
                assert(entries_map(d).contains_key(k));
                let i = choose|i: int| 0 <= i < d.len() && entry_key(d[i]) == k;
                assert(es[i] == d[i]);
            }
        }
        assert forall|k: BindingKey| (exists|i: int| 0 <= i < es.len() && entry_key(es[i]) == k) implies
            #[trigger] entries_map(es).contains_key(k) by {
            let i = choose|i: int| 0 <= i < es.len() && entry_key(es[i]) == k;
            if i < n {
                assert(es[i] == d[i]);
                assert(entries_map(d).contains_key(k));
            }
        }
        assert forall|i: int| 0 <= i < es.len() implies #[trigger] entries_map(es)[entry_key(es[i])] == es[i].2 by {
            if i < n {
                assert(es[i] == d[i]);
                assert(entry_key(es[i]) != entry_key(es[n]));
                assert(entries_map(d)[entry_key(d[i])] == d[i].2);
            }
        }
    }
}

proof fn lemma_entries_map_remove<V>(es: Seq<(String, String, V)>, idx: int)
    requires
        keys_unique(es),
        0 <= idx < es.len(),
    ensures
        keys_unique(es.remove(idx)),
        entries_map(es.remove(idx)) =~= entries_map(es).remove(entry_key(es[idx])),
{
    let r = es.remove(idx);
    assert(keys_unique(r)) by {
        assert forall|i: int, j: int| 0 <= i < j < r.len() implies entry_key(#[trigger] r[i]) != entry_key(
            #[trigger] r[j]) by {
            let ii = if i < idx { i } else { i + 1 };
            let jj = if j < idx { j } else { j + 1 };
            assert(r[i] == es[ii] && r[j] == es[jj]);
        }
    }
    lemma_entries_map_dom(es);
    lemma_entries_map_dom(r);
    let k0 = entry_key(es[idx]);
    assert forall|k: BindingKey| #[trigger] entries_map(r).contains_key(k) <==> entries_map(es).remove(k0).contains_key(k) by {
        if entries_map(r).contains_key(k) {
            let i = choose|i: int| 0 <= i < r.len() && entry_key(r[i]) == k;
            let ii = if i < idx { i } else { i + 1 };
            assert(r[i] == es[ii]);
        }
        if entries_map(es).remove(k0).contains_key(k) {
            let i = choose|i: int| 0 <= i < es.len() && entry_key(es[i]) == k;
            assert(i != idx);
            let ri = if i < idx { i } else { i - 1 };
            assert(r[ri] == es[i]);
        }
    }
    assert forall|k: BindingKey| #[trigger] entries_map(r).contains_key(k) implies entries_map(r)[k] == entries_map(es).remove(k0)[k] by {
        let i = choose|i: int| 0 <= i < r.len() && entry_key(r[i]) == k;
        let ii = if i < idx { i } else { i + 1 };
        assert(r[i] == es[ii]);
    }
}

impl<V> PendingMediaBindings<V> {
    /// Invariant: no two pending entries share a key.
    pub closed spec fn wf(&self) -> bool {
        keys_unique(self.entries@)
    }

    /// The pending bindings as a map.
    pub closed spec fn pending(&self) -> Map<BindingKey, V> {
        entries_map(self.entries@)
    }

    /// An empty table.
    pub fn new() -> (t: PendingMediaBindings<V>)
        ensures
            t.wf(),
            t.pending() == Map::<BindingKey, V>::empty(),
    {
        PendingMediaBindings { entries: Vec::new() }
    }

    /// Register (or replace) the receiver for `(session_id, token)`.
    pub fn insert(&mut self, session_id: String, token: String, tx: V)
        requires
            old(self).wf(),
        ensures
            final(self).wf(),
            final(self).pending() == old(self).pending().insert((session_id@, token@), tx),
    {
        let ghost key = (session_id@, token@);
        let ghost old_es = self.entries@;
        proof {
            lemma_entries_map_dom(old_es);
        }
        let mut i: usize = 0;
        while i < self.entries.len()
            invariant
                i <= self.entries@.len(),
                self.entries@ == old_es,
                old_es == old(self).entries@,
                old(self).pending() == entries_map(old_es),
                keys_unique(old_es),
                key == (session_id@, token@),
                forall|j: int| 0 <= j < i ==> entry_key(#[trigger] old_es[j]) != key,
            decreases self.entries@.len() - i,
        {
            if self.entries[i].0 == session_id && self.entries[i].1 == token {
                let removed = self.entries.remove(i);
                proof {
                    lemma_entries_map_remove(old_es, i as int);
                    assert(entry_key(old_es[i as int]) == key);
                }
                let ghost mid = self.entries@;
                self.entries.push((session_id, token, tx));
                proof {
                    let es = self.entries@;
                    assert(es.drop_last() == mid);
                    assert forall|a: int, b: int| 0 <= a < b < es.len() implies entry_key(#[trigger] es[a]) != entry_key(
                        #[trigger] es[b]) by {
                        if b == es.len() - 1 {
                            lemma_entries_map_dom(mid);
                            assert(es[a] == mid[a]);
                            assert(entries_map(mid).contains_key(entry_key(mid[a])));
                        } else {
                            assert(es[a] == mid[a] && es[b] == mid[b]);
                        }
                    }
                    assert(entry_key(es.last()) == key);
                    assert(entries_map(es) == entries_map(mid).insert(key, tx));
                    assert(entries_map(mid) =~= entries_map(old_es).remove(key));
                    assert(entries_map(es) =~= old(self).pending().insert(key, tx));
                }
                return ;
            }
            i = i + 1;
        }
        let ghost before = self.entries@;
        self.entries.push((session_id, token, tx));
        proof {
            let es = self.entries@;
            assert(es.drop_last() == before);
            assert forall|a: int, b: int| 0 <= a < b < es.len() implies entry_key(#[trigger] es[a]) != entry_key(
                #[trigger] es[b]) by {
                if b == es.len() - 1 {
                    assert(es[a] == old_es[a]);
                } else {
                    assert(es[a] == old_es[a] && es[b] == old_es[b]);
                }
            }
        }
    }

    /// Remove and return the receiver registered for `(session_id, token)`.
    pub fn take(&mut self, session_id: &str, token: &str) -> (r: Option<V>)
        requires
            old(self).wf(),
        ensures
            final(self).wf(),
            r == (if old(self).pending().contains_key((session_id@, token@)) {
                Some(old(self).pending()[(session_id@, token@)])
            } else {
                None
            }),
            final(self).pending() == old(self).pending().remove((session_id@, token@)),
    {
        let ghost key = (session_id@, token@);
        let ghost old_es = self.entries@;
        let ghost m0 = self.pending();
        let sid: String = session_id.to_owned();
        let tok: String = token.to_owned();
        let mut found: Option<usize> = None;
        let mut i: usize = 0;
        while i < self.entries.len()
            invariant
                i <= self.entries@.len(),
                self.entries@ == old_es,
                sid@ == session_id@,
                tok@ == token@,
                key == (session_id@, token@),
                found matches Some(f) ==> f < old_es.len() && entry_key(old_es[f as int]) == key,
                found is None ==> forall|j: int| 0 <= j < i ==> entry_key(#[trigger] old_es[j]) != key,
            decreases self.entries@.len() - i,
        {
            if found.is_none() && self.entries[i].0 == sid && self.entries[i].1 == tok {
                found = Some(i);
            }
            i = i + 1;
        }
        proof {
            lemma_entries_map_dom(old_es);
        }
        match found {
            Some(f) => {
                proof {
                    lemma_entries_map_remove(old_es, f as int);
                    assert(entries_map(old_es)[entry_key(old_es[f as int])] == old_es[f as int].2);
                }
                let removed = self.entries.remove(f);
                Some(removed.2)
            },
            None => {
                proof {
                    if entries_map(old_es).contains_key(key) {
                        let j = choose|j: int| 0 <= j < old_es.len() && entry_key(old_es[j]) == key;
                        assert(entry_key(old_es[j]) != key);
                    }
                    assert(entries_map(old_es).remove(key) =~= entries_map(old_es));
                }
                None
            },
        }
    }
}

/// A receiver registered under a key is what taking that key gives back,
/// and taking it leaves the other bindings as they were.
pub proof fn law_take_after_insert<V>(m: Map<BindingKey, V>, k: BindingKey, v: V)
    ensures
        m.insert(k, v).contains_key(k),
        m.insert(k, v)[k] == v,
        m.insert(k, v).remove(k) =~= m.remove(k),
{
}

/// Law: the length a media socket reads from a `MEDIA_HELLO` prefix is the
/// length it was written for, when that fits in 32 bits.
pub proof fn law_media_hello_len_read_back(json_len: usize)
    requires
        json_len <= u32::MAX,
    ensures
        be_u32_at(be_u32_bytes(json_len as u32), 0) == json_len,
{
    lemma_be_u32_round_trip(json_len as u32);
}

} // verus!
