//! Multi-user authentication.
//!
//! Passwords are stored as `base64(salt)$base64(hash)` where the hash is
//! PBKDF2-HMAC-SHA256 over the password; they are never kept in plaintext.
//! Bearer-token sessions live in a [`SessionStore`]: each token is bound to the
//! username that logged in and expires after [`SESSION_TTL_NANOS`].

use crate::text::{append_str, chars_of, lemma_split_once_at, split_once, split_once_chars, str_equal, string_of};
use ring::rand::SecureRandom;
use base64::Engine;
use vstd::prelude::*;

verus! {

/// Bytes of derived key material stored per password.
pub const CRED_LEN: usize = 32;

/// PBKDF2 iteration count.
pub const ITERATIONS: u32 = 100_000;

/// Bytes of random salt per password.
pub const SALT_LEN: usize = 16;

/// Bytes of randomness behind each session token.
pub const TOKEN_BYTES: usize = 32;

/// Session lifetime: seven days, in nanoseconds.
pub const SESSION_TTL_NANOS: u64 = 604_800_000_000_000;

/// Longest text (in characters) handed to the key-derivation function; far
/// beyond anything a request can carry, and well inside the digest's input limit.
pub const MAX_SECRET_CHARS: u64 = 0x0100_0000_0000_0000;

// ---------------------------------------------------------------------------
// Outside primitives: randomness, base64, PBKDF2
// ---------------------------------------------------------------------------

/// Fills `buf` from `ring::rand::SystemRandom`. Returns whether the system
/// generator succeeded; the bytes written are random, so nothing is said of them.
#[verifier::external_body]
fn system_random_fill(buf: &mut Vec<u8>) -> (ok: bool)
    ensures
        final(buf)@.len() == old(buf)@.len(),
{
    ring::rand::SystemRandom::new().fill(buf.as_mut_slice()).is_ok()
}

/// What the standard base64 engine (`base64::engine::general_purpose::STANDARD`)
/// produces for some bytes.
pub uninterp spec fn base64_encoding(bytes: Seq<u8>) -> Seq<char>;

/// What the standard base64 engine decodes some text to (`None` when it is not
/// valid padded base64).
pub uninterp spec fn base64_decoding(text: Seq<char>) -> Option<Seq<u8>>;

/// The characters of the standard base64 alphabet, with padding.
pub open spec fn is_base64_char(c: char) -> bool {
    ('a' <= c && c <= 'z') || ('A' <= c && c <= 'Z') || ('0' <= c && c <= '9') || c == '+' || c
        == '/' || c == '='
}

/// Length of the padded base64 text for `n` bytes: four characters for every
/// started group of three bytes.
pub open spec fn base64_len(n: nat) -> nat {
    4 * ((n + 2) / 3)
}

/// Calls `STANDARD.encode`. The result is named [`base64_encoding`]; as the
/// crate documents, it uses only the base64 alphabet, has the padded length
/// that `base64::encoded_len` computes, and decodes back to the input. The
/// encoding table itself is not spelled out. `encode` panics only when that
/// length overflows `usize`, which `requires` excludes.
#[verifier::external_body]
fn base64_encode(bytes: &[u8]) -> (r: String)
    requires
        bytes@.len() <= usize::MAX / 2,
    ensures
        r@ == base64_encoding(bytes@),
        r@.len() == base64_len(bytes@.len()),
        base64_decoding(r@) == Some(bytes@),
        forall|i: int| 0 <= i < r@.len() ==> is_base64_char(#[trigger] r@[i]),
{
    base64::engine::general_purpose::STANDARD.encode(bytes)
}

/// Calls `STANDARD.decode`. The result is named [`base64_decoding`]; decoded
/// bytes are never more than the characters they came from. Which texts are
/// accepted is not spelled out.
#[verifier::external_body]
fn base64_decode(text: &str) -> (r: Option<Vec<u8>>)
    ensures
        r is Some <==> base64_decoding(text@) is Some,
        r matches Some(v) ==> Some(v@) == base64_decoding(text@) && v@.len() <= text@.len(),
{
    base64::engine::general_purpose::STANDARD.decode(text).ok()
}

/// What `ring::pbkdf2::derive` with `PBKDF2_HMAC_SHA256` writes into an
/// output buffer of `len` bytes, for the UTF-8 bytes of `secret`.
pub uninterp spec fn pbkdf2_sha256(iterations: u32, salt: Seq<u8>, secret: Seq<char>, len: nat) -> Seq<u8>;

/// Calls `ring::pbkdf2::derive` (PBKDF2-HMAC-SHA256) into a fresh `len`-byte
/// buffer. The result is named [`pbkdf2_sha256`]; the derivation itself is not
/// spelled out. `derive` panics only for a zero iteration count or inputs past
/// the digest's length limit, which `requires` excludes.
#[verifier::external_body]
fn pbkdf2_derive(iterations: u32, salt: &[u8], secret: &str, len: usize) -> (r: Vec<u8>)
    requires
        iterations > 0,
        1 <= len <= 64,
        salt@.len() <= MAX_SECRET_CHARS,
        secret@.len() <= MAX_SECRET_CHARS,
    ensures
        r@ == pbkdf2_sha256(iterations, salt@, secret@, len as nat),
        r@.len() == len,
{
    let mut out = vec![0u8; len];
    ring::pbkdf2::derive(
        ring::pbkdf2::PBKDF2_HMAC_SHA256,
        std::num::NonZeroU32::new(iterations).unwrap(),
        salt,
        secret.as_bytes(),
        &mut out,
    );
    out
}

// ---------------------------------------------------------------------------
// Random bytes and constant-time comparison
// ---------------------------------------------------------------------------

/// `n` bytes from the system generator; all zero if the generator fails.
pub fn random_bytes(n: usize) -> (r: Vec<u8>)
    ensures
        r@.len() == n,
{
    let mut buf = vec![0u8; n];
    if !system_random_fill(&mut buf) {
        buf.clear();
        let mut i: usize = 0;
        while i < n
            invariant
                i <= n,
                buf@.len() == i,
            decreases n - i,
        {
            buf.push(0u8);
            i = i + 1;
        }
    }
    buf
}

/// Byte comparison that always scans the whole input (no early exit on the
/// first mismatch), so its timing does not reveal where two hashes differ.
pub fn constant_time_eq(a: &[u8], b: &[u8]) -> (r: bool)
    ensures
        r == (a@ == b@),
{
    if a.len() != b.len() {
        return false;
    }
    let mut diff: u8 = 0;
    let mut i: usize = 0;
    while i < a.len()
        invariant
            a@.len() == b@.len(),
            i <= a@.len(),
            (diff == 0) <==> forall|k: int| 0 <= k < i ==> a@[k] == b@[k],
        decreases a@.len() - i,
    {
        let x = a[i];
        let y = b[i];
        let d = diff;
        assert(((d | (x ^ y)) == 0u8) <==> (d == 0u8 && x == y)) by (bit_vector);
        diff = diff | (x ^ y);
        i = i + 1;
    }
    if diff == 0 {
        assert(a@ =~= b@);
        true
    } else {
        false
    }
}

// ---------------------------------------------------------------------------
// Password hashing
// ---------------------------------------------------------------------------

/// The stored form of a password hashed with `salt`: `base64(salt)$base64(key)`.
pub open spec fn password_record(salt: Seq<u8>, password: Seq<char>) -> Seq<char> {
    base64_encoding(salt) + seq!['$'] + base64_encoding(
        pbkdf2_sha256(ITERATIONS, salt, password, CRED_LEN as nat),
    )
}

/// Whether `password` checks out against a stored record: the record splits
/// at its first `$`, both halves decode, and re-deriving the key from the
/// decoded salt gives the decoded key.
pub open spec fn password_matches(password: Seq<char>, stored: Seq<char>) -> bool {
    match split_once(stored, '$') {
        None => false,
        Some((salt_text, key_text)) => match (
            base64_decoding(salt_text),
            base64_decoding(key_text),
        ) {
            (Some(salt), Some(expected)) => pbkdf2_sha256(
                ITERATIONS,
                salt,
                password,
                CRED_LEN as nat,
            ) == expected,
            _ => false,
        },
    }
}

/// Whether `r` has the shape of a stored record whose salt text is
/// `salt_chars` long: base64 characters, a single `$` right after the salt
/// text, then the 44 base64 characters of the key.
pub open spec fn record_shape(r: Seq<char>, salt_chars: int) -> bool {
    &&& r.len() == salt_chars + 1 + base64_len(CRED_LEN as nat)
    &&& r[salt_chars] == '$'
    &&& forall|i: int| 0 <= i < r.len() && i != salt_chars ==> is_base64_char(#[trigger] r[i])
}

/// Hashes a password with the given salt into `base64(salt)$base64(hash)`.
/// The record checks out against the same password.
pub fn hash_password_with_salt(password: &str, salt: &[u8]) -> (r: String)
    requires
        password@.len() <= MAX_SECRET_CHARS,
        salt@.len() <= MAX_SECRET_CHARS,
        salt@.len() <= usize::MAX / 2,
    ensures
        r@ == password_record(salt@, password@),
        record_shape(r@, base64_len(salt@.len()) as int),
        password_matches(password@, r@),
{
    let key = pbkdf2_derive(ITERATIONS, salt, password, CRED_LEN);
    let salt_text = base64_encode(salt);
    let key_text = base64_encode(&key);
    let mut out: Vec<char> = chars_of(salt_text.as_str());
    out.push('$');
    append_str(&mut out, key_text.as_str());
    let r = string_of(&out);
    proof {
        let st = salt_text@;
        let kt = key_text@;
        assert(r@ =~= password_record(salt@, password@));
        assert(r@[st.len() as int] == '$');
        assert forall|k: int| 0 <= k < st.len() implies r@[k] != '$' by {
            assert(r@[k] == st[k]);
            assert(is_base64_char(st[k]));
        }
        assert forall|i: int| 0 <= i < r@.len() && i != st.len() implies is_base64_char(
            #[trigger] r@[i],
        ) by {
            if i < st.len() {
                assert(r@[i] == st[i]);
            } else {
                assert(r@[i] == kt[i - st.len() - 1]);
            }
        }
        lemma_split_once_at(r@, '$', st.len() as int);
        assert(r@.take(st.len() as int) =~= st);
        assert(r@.skip(st.len() as int + 1) =~= key_text@);
    }
    r
}

/// Hashes a password into the self-describing `base64(salt)$base64(hash)` form
/// with a fresh random salt. Whatever salt was drawn, the record is 69
/// characters of base64 with one `$` after the 24 characters of the salt, and
/// it checks out against the same password.
pub fn hash_password(password: &str) -> (r: String)
    requires
        password@.len() <= MAX_SECRET_CHARS,
    ensures
        exists|salt: Seq<u8>| salt.len() == SALT_LEN && r@ == password_record(salt, password@),
        r@.len() == 69,
        record_shape(r@, 24),
        password_matches(password@, r@),
{
    let salt = random_bytes(SALT_LEN);
    let r = hash_password_with_salt(password, &salt);
    assert(base64_len(SALT_LEN as nat) == 24);
    assert(base64_len(CRED_LEN as nat) == 44);
    r
}

/// Checks a password against a stored record (see [`password_matches`]); the
/// final comparison runs in constant time.
pub fn verify_password(password: &str, stored: &str) -> (r: bool)
    requires
        password@.len() <= MAX_SECRET_CHARS,
        stored@.len() <= MAX_SECRET_CHARS,
    ensures
        r == password_matches(password@, stored@),
{
    let cs = chars_of(stored);
    let (salt_chars, key_chars) = match split_once_chars(&cs, '$') {
        None => return false,
        Some(parts) => parts,
    };
    proof {
        assert(salt_chars@.len() <= cs@.len());
    }
    let salt_text = string_of(&salt_chars);
    let key_text = string_of(&key_chars);
    let salt = match base64_decode(salt_text.as_str()) {
        None => return false,
        Some(v) => v,
    };
    let expected = match base64_decode(key_text.as_str()) {
        None => return false,
        Some(v) => v,
    };
    let derived = pbkdf2_derive(ITERATIONS, &salt, password, CRED_LEN);
    constant_time_eq(&derived, &expected)
}

// ---------------------------------------------------------------------------
// Sessions
// ---------------------------------------------------------------------------

/// One live session.
struct Session {
    token: String,
    username: String,
    created: u64,
}

/// In-memory bearer-token sessions: token -> (username, creation time in
/// nanoseconds on a monotonic clock).
pub struct SessionStore {
    entries: Vec<Session>,
}

/// Whether a session created at `created` has outlived its TTL at `now`. A
/// clock reading earlier than the creation time counts as no time elapsed.
pub open spec fn expired(created: u64, now: u64) -> bool {
    now > created && now - created > SESSION_TTL_NANOS
}

/// The username a token resolves to at time `now`, if any.
pub open spec fn lookup(
    sessions: Map<Seq<char>, (Seq<char>, u64)>,
    token: Seq<char>,
    now: u64,
) -> Option<Seq<char>> {
    if sessions.dom().contains(token) && !expired(sessions[token].1, now) {
        Some(sessions[token].0)
    } else {
        None
    }
}

/// The sessions left after resolving `token` at `now`: an expired session for
/// that token is evicted, everything else stays.
pub open spec fn after_lookup(
    sessions: Map<Seq<char>, (Seq<char>, u64)>,
    token: Seq<char>,
    now: u64,
) -> Map<Seq<char>, (Seq<char>, u64)> {
    if sessions.dom().contains(token) && expired(sessions[token].1, now) {
        sessions.remove(token)
    } else {
        sessions
    }
}

/// The characters of an optional string.
pub open spec fn opt_chars(o: Option<String>) -> Option<Seq<char>> {
    match o {
        Some(s) => Some(s@),
        None => None,
    }
}

impl SessionStore {
    /// The tokens, in storage order.
    pub closed spec fn tokens(&self) -> Seq<Seq<char>> {
        self.entries@.map_values(|e: Session| e.token@)
    }

    /// Each token is stored once.
    pub closed spec fn wf(&self) -> bool {
        self.tokens().no_duplicates()
    }

    /// The sessions as a map from token to (username, creation time).
    pub closed spec fn sessions(&self) -> Map<Seq<char>, (Seq<char>, u64)> {
        Map::new(
            |t: Seq<char>| self.tokens().contains(t),
            |t: Seq<char>|
                {
                    let i = self.tokens().index_of(t);
                    (self.entries@[i].username@, self.entries@[i].created)
                },
        )
    }

    proof fn lemma_entry(&self, i: int)
        requires
            self.wf(),
            0 <= i < self.entries@.len(),
        ensures
            self.sessions().dom().contains(self.entries@[i].token@),
            self.sessions()[self.entries@[i].token@] == (
                self.entries@[i].username@,
                self.entries@[i].created,
            ),
    {
        let t = self.entries@[i].token@;
        assert(self.tokens()[i] == t);
        assert(self.tokens().contains(t));
        let j = self.tokens().index_of(t);
        assert(j == i);
    }

    /// A well-formed store holds finitely many sessions, one per stored entry.
    pub proof fn lemma_sessions_finite(&self)
        requires
            self.wf(),
        ensures
            self.sessions().dom().finite(),
    {
        self.tokens().unique_seq_to_set();
        assert(self.sessions().dom() =~= self.tokens().to_set());
    }

    /// An empty store.
    pub fn new() -> (r: Self)
        ensures
            r.wf(),
            r.sessions() == Map::<Seq<char>, (Seq<char>, u64)>::empty(),
    {
        let r = SessionStore { entries: Vec::new() };
        assert(r.sessions() =~= Map::<Seq<char>, (Seq<char>, u64)>::empty());
        r
    }

    /// Position of `token` in the store.
    fn position(&self, token: &str) -> (r: Option<usize>)
        requires
            self.wf(),
        ensures
            r matches Some(i) ==> i < self.entries@.len() && self.entries@[i as int].token@
                == token@,
            r is None ==> !self.sessions().dom().contains(token@),
    {
        let mut i: usize = 0;
        while i < self.entries.len()
            invariant
                i <= self.entries@.len(),
                forall|k: int| 0 <= k < i ==> self.entries@[k].token@ != token@,
            decreases self.entries@.len() - i,
        {
            if str_equal(self.entries[i].token.as_str(), token) {
                return Some(i);
            }
            i = i + 1;
        }
        assert(!self.tokens().contains(token@)) by {
            if self.tokens().contains(token@) {
                let k = choose|k: int| 0 <= k < self.tokens().len() && self.tokens()[k] == token@;
                assert(self.entries@[k].token@ == token@);
            }
        }
        None
    }
}

/// Binds a fresh random token to `username`, created at `now`, and returns it.
/// The token is the base64 form of 32 random bytes.
pub fn create_session(store: &mut SessionStore, username: &str, now: u64) -> (token: String)
    requires
        old(store).wf(),
    ensures
        final(store).wf(),
        final(store).sessions() == old(store).sessions().insert(token@, (username@, now)),
        exists|bytes: Seq<u8>| bytes.len() == TOKEN_BYTES && token@ == base64_encoding(bytes),
        token@.len() == 44,
        final(store).sessions().dom().finite(),
        final(store).sessions().dom().len() == old(store).sessions().dom().len() + if old(
            store,
        ).sessions().dom().contains(token@) {
            0int
        } else {
            1int
        },
{
    proof {
        store.lemma_sessions_finite();
    }
    let bytes = random_bytes(TOKEN_BYTES);
    let token = base64_encode(&bytes);
    let entry = Session { token: token.clone(), username: username.to_owned(), created: now };
    let ghost before = store.sessions();
    match store.position(token.as_str()) {
        Some(i) => {
            remove_at(store, i);
        },
        None => {},
    }
    let ghost removed = store.sessions();
    assert(removed == before.remove(token@));
    push_entry(store, entry);
    assert(store.sessions() =~= before.insert(token@, (username@, now)));
    proof {
        store.lemma_sessions_finite();
        assert(base64_len(TOKEN_BYTES as nat) == 44);
        assert(store.sessions().dom() =~= before.dom().insert(token@));
    }
    token
}

/// Appends a session whose token is not stored yet.
fn push_entry(store: &mut SessionStore, entry: Session)
    requires
        old(store).wf(),
        !old(store).sessions().dom().contains(entry.token@),
    ensures
        final(store).wf(),
        final(store).sessions() == old(store).sessions().insert(
            entry.token@,
            (entry.username@, entry.created),
        ),
{
    let ghost before = store.sessions();
    let ghost old_entries = store.entries@;
    let ghost old_tokens = store.tokens();
    let ghost e = entry;
    store.entries.push(entry);
    proof {
        let n = old_entries.len() as int;
        assert(store.entries@ == old_entries.push(e));
        assert(store.tokens() =~= old_tokens.push(e.token@));
        assert(!old_tokens.contains(e.token@));
        assert forall|a: int, b: int|
            0 <= a < store.tokens().len() && 0 <= b < store.tokens().len() && a
                != b implies store.tokens()[a] != store.tokens()[b] by {
            if a < n && b < n {
                assert(old_tokens[a] == store.tokens()[a]);
                assert(old_tokens[b] == store.tokens()[b]);
            } else if a < n {
                assert(old_tokens[a] == store.tokens()[a]);
            } else {
                assert(old_tokens[b] == store.tokens()[b]);
            }
        }
        let after = before.insert(e.token@, (e.username@, e.created));
        assert forall|t: Seq<char>|
            #![auto]
            store.sessions().dom().contains(t) == after.dom().contains(t) by {
            if store.tokens().contains(t) {
                let k = choose|k: int| 0 <= k < store.tokens().len() && store.tokens()[k] == t;
                if k < n {
                    assert(old_tokens[k] == t);
                    assert(old_tokens.contains(t));
                }
            }
            if old_tokens.contains(t) {
                let k = choose|k: int| 0 <= k < old_tokens.len() && old_tokens[k] == t;
                assert(store.tokens()[k] == t);
                assert(store.tokens().contains(t));
            }
            if t == e.token@ {
                assert(store.tokens()[n] == t);
                assert(store.tokens().contains(t));
            }
        }
        assert forall|t: Seq<char>|
            #![auto]
            store.sessions().dom().contains(t) implies store.sessions()[t] == after[t] by {
            let k = choose|k: int| 0 <= k < store.tokens().len() && store.tokens()[k] == t;
            store.lemma_entry(k);
            if k < n {
                assert(old_tokens[k] == t);
                assert(old_entries[k] == store.entries@[k]);
                assert(old_tokens.contains(t));
                let j = old_tokens.index_of(t);
                assert(j == k);
            }
        }
        assert(store.sessions() =~= after);
    }
}

/// Removes the session stored at position `i`.
fn remove_at(store: &mut SessionStore, i: usize)
    requires
        old(store).wf(),
        i < old(store).entries@.len(),
    ensures
        final(store).wf(),
        final(store).sessions() == old(store).sessions().remove(old(store).entries@[i as int].token@),
{
    let ghost before = store.sessions();
    let ghost old_entries = store.entries@;
    let ghost old_tokens = store.tokens();
    let ghost t0 = old_entries[i as int].token@;
    store.entries.remove(i);
    proof {
        assert(store.tokens() =~= old_tokens.remove(i as int));
        assert forall|a: int, b: int|
            0 <= a < store.tokens().len() && 0 <= b < store.tokens().len() && a
                != b implies store.tokens()[a] != store.tokens()[b] by {
            let oa = if a < i { a } else { a + 1 };
            let ob = if b < i { b } else { b + 1 };
            assert(old_tokens[oa] == store.tokens()[a]);
            assert(old_tokens[ob] == store.tokens()[b]);
        }
        assert forall|t: Seq<char>|
            #![auto]
            store.sessions().dom().contains(t) == before.remove(t0).dom().contains(t) by {
            if store.tokens().contains(t) {
                let k = choose|k: int| 0 <= k < store.tokens().len() && store.tokens()[k] == t;
                let ok = if k < i { k } else { k + 1 };
                assert(old_tokens[ok] == t);
                assert(old_tokens[i as int] == t0);
            }
            if old_tokens.contains(t) && t != t0 {
                let k = choose|k: int| 0 <= k < old_tokens.len() && old_tokens[k] == t;
                assert(k != i);
                let nk = if k < i { k } else { k - 1 };
                assert(store.tokens()[nk] == t);
            }
        }
        assert forall|t: Seq<char>|
            #![auto]
            store.sessions().dom().contains(t) implies store.sessions()[t] == before.remove(t0)[t] by {
            let k = choose|k: int| 0 <= k < store.tokens().len() && store.tokens()[k] == t;
            store.lemma_entry(k);
            let ok = if k < i { k } else { k + 1 };
            assert(old_tokens[ok] == t);
            assert(old_entries[ok] == store.entries@[k]);
            assert(old_tokens.contains(t));
            let j = old_tokens.index_of(t);
            assert(j == ok);
        }
        assert(store.sessions() =~= before.remove(t0));
    }
}

/// The username behind a bearer token at time `now`, if the session is live.
/// An expired session is evicted on the way.
pub fn username_for_token(store: &mut SessionStore, token: &str, now: u64) -> (r: Option<String>)
    requires
        old(store).wf(),
    ensures
        final(store).wf(),
        opt_chars(r) == lookup(old(store).sessions(), token@, now),
        final(store).sessions() == after_lookup(old(store).sessions(), token@, now),
{
    match store.position(token) {
        None => None,
        Some(i) => {
            proof {
                store.lemma_entry(i as int);
            }
            let created = store.entries[i].created;
            if now > created && now - created > SESSION_TTL_NANOS {
                remove_at(store, i);
                None
            } else {
                Some(store.entries[i].username.clone())
            }
        },
    }
}

/// Invalidates a session (logout).
pub fn revoke_session(store: &mut SessionStore, token: &str)
    requires
        old(store).wf(),
    ensures
        final(store).wf(),
        final(store).sessions() == old(store).sessions().remove(token@),
{
    match store.position(token) {
        None => {
            assert(store.sessions().remove(token@) =~= store.sessions());
        },
        Some(i) => {
            remove_at(store, i);
        },
    }
}

/// The tokens whose sessions are still live at `now`.
pub open spec fn live_tokens(sessions: Map<Seq<char>, (Seq<char>, u64)>, now: u64) -> Set<Seq<char>> {
    sessions.dom().filter(|t: Seq<char>| !expired(sessions[t].1, now))
}

/// Number of sessions still live at `now`: a stored session that has outlived
/// its TTL is not counted, whether or not a lookup has evicted it yet.
pub fn session_count(store: &SessionStore, now: u64) -> (r: usize)
    requires
        store.wf(),
    ensures
        r == live_tokens(store.sessions(), now).len(),
{
    let ghost sessions = store.sessions();
    let ghost mut counted: Set<Seq<char>> = Set::empty();
    let mut n: usize = 0;
    let mut i: usize = 0;
    while i < store.entries.len()
        invariant
            store.wf(),
            sessions == store.sessions(),
            i <= store.entries@.len(),
            n <= i,
            counted.finite(),
            counted.len() == n,
            forall|t: Seq<char>|
                counted.contains(t) <==> exists|k: int|
                    0 <= k < i && #[trigger] store.tokens()[k] == t && !expired(
                        store.entries@[k].created,
                        now,
                    ),
        decreases store.entries@.len() - i,
    {
        let created = store.entries[i].created;
        let ghost t = store.entries@[i as int].token@;
        proof {
            assert(store.tokens()[i as int] == t);
        }
        if !(now > created && now - created > SESSION_TTL_NANOS) {
            proof {
                assert(!counted.contains(t)) by {
                    if counted.contains(t) {
                        let k = choose|k: int|
                            0 <= k < i && #[trigger] store.tokens()[k] == t && !expired(
                                store.entries@[k].created,
                                now,
                            );
                        assert(store.tokens()[k] == store.tokens()[i as int]);
                    }
                }
                let c2 = counted.insert(t);
                assert forall|u: Seq<char>|
                    c2.contains(u) <==> exists|k: int|
                        0 <= k < i + 1 && #[trigger] store.tokens()[k] == u && !expired(
                            store.entries@[k].created,
                            now,
                        ) by {
                    if u == t {
                        assert(store.tokens()[i as int] == u);
                    }
                    if exists|k: int|
                        0 <= k < i + 1 && #[trigger] store.tokens()[k] == u && !expired(
                            store.entries@[k].created,
                            now,
                        ) {
                        let k = choose|k: int|
                            0 <= k < i + 1 && #[trigger] store.tokens()[k] == u && !expired(
                                store.entries@[k].created,
                                now,
                            );
                        if k < i {
                            assert(counted.contains(u));
                        }
                    }
                }
                counted = c2;
            }
            n = n + 1;
        } else {
            proof {
                assert forall|u: Seq<char>|
                    counted.contains(u) <==> exists|k: int|
                        0 <= k < i + 1 && #[trigger] store.tokens()[k] == u && !expired(
                            store.entries@[k].created,
                            now,
                        ) by {
                    if exists|k: int|
                        0 <= k < i + 1 && #[trigger] store.tokens()[k] == u && !expired(
                            store.entries@[k].created,
                            now,
                        ) {
                        let k = choose|k: int|
                            0 <= k < i + 1 && #[trigger] store.tokens()[k] == u && !expired(
                                store.entries@[k].created,
                                now,
                            );
                        assert(k < i);
                    }
                }
            }
        }
        i = i + 1;
    }
    proof {
        let live = live_tokens(sessions, now);
        assert forall|t: Seq<char>| live.contains(t) <==> counted.contains(t) by {
            if live.contains(t) {
                assert(store.tokens().contains(t));
                let k = choose|k: int| 0 <= k < store.tokens().len() && store.tokens()[k] == t;
                store.lemma_entry(k);
            }
            if counted.contains(t) {
                let k = choose|k: int|
                    0 <= k < i && #[trigger] store.tokens()[k] == t && !expired(
                        store.entries@[k].created,
                        now,
                    );
                store.lemma_entry(k);
            }
        }
        assert(live =~= counted);
    }
    n
}

// ---------------------------------------------------------------------------
// Laws of the session store
// ---------------------------------------------------------------------------

/// A session resolves to the user it was created for for as long as it is
/// within its TTL.
pub proof fn law_created_session_resolves(
    sessions: Map<Seq<char>, (Seq<char>, u64)>,
    token: Seq<char>,
    username: Seq<char>,
    created: u64,
    now: u64,
)
    requires
        !expired(created, now),
    ensures
        lookup(sessions.insert(token, (username, created)), token, now) == Some(username),
{
}

/// A revoked token no longer resolves.
pub proof fn law_revoked_session_is_gone(
    sessions: Map<Seq<char>, (Seq<char>, u64)>,
    token: Seq<char>,
    now: u64,
)
    ensures
        lookup(sessions.remove(token), token, now) is None,
{
}

/// Creating or revoking one token leaves every other token as it was.
pub proof fn law_sessions_are_independent(
    sessions: Map<Seq<char>, (Seq<char>, u64)>,
    token: Seq<char>,
    other: Seq<char>,
    entry: (Seq<char>, u64),
    now: u64,
)
    requires
        token != other,
    ensures
        lookup(sessions.insert(token, entry), other, now) == lookup(sessions, other, now),
        lookup(sessions.remove(token), other, now) == lookup(sessions, other, now),
{
}

/// An expired session never resolves, and resolving it evicts it.
pub proof fn law_expired_session_is_evicted(
    sessions: Map<Seq<char>, (Seq<char>, u64)>,
    token: Seq<char>,
    now: u64,
)
    requires
        sessions.dom().contains(token),
        expired(sessions[token].1, now),
    ensures
        lookup(sessions, token, now) is None,
        !after_lookup(sessions, token, now).dom().contains(token),
{
}

/// Resolving a token never changes what any token resolves to at the same time.
pub proof fn law_lookup_is_stable(
    sessions: Map<Seq<char>, (Seq<char>, u64)>,
    token: Seq<char>,
    other: Seq<char>,
    now: u64,
)
    ensures
        lookup(after_lookup(sessions, token, now), other, now) == lookup(sessions, other, now),
{
}

} // verus!
