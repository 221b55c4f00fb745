//! Who may call: public routes, tokens, passkeys and the limit on attempts.
use vstd::prelude::*;

use dashmap::DashMap;

use crate::text::{
    chars_of, same_text, skip_chars, starts_with, text_between,
};

#[allow(unused_imports)]
use crate::decimal::{first_of, smaller};

#[allow(unused_imports)]
use crate::text::{begins_with, opt_piece, opt_text, texts};

verus! {

/// How many attempts a window admits.
pub const MAX_ATTEMPTS: u32 = 5;

/// How long a window lasts, in nanoseconds: fifteen minutes.
pub const WINDOW_NANOS: u128 = 900_000_000_000;

/// How long a token is good for, in seconds: seven days.
pub const TOKEN_SECONDS: u64 = 604_800;

/// A passkey that was sent in.
#[derive(Debug)]
pub struct PasskeyReq {
    pub passkey: String,
}

// ---------------------------------------------------------------------------
// Pieces of text
// ---------------------------------------------------------------------------

/// The pieces of a text between occurrences of `c`.
pub open spec fn split_on(s: Seq<char>, c: char) -> Seq<Seq<char>>
    decreases s.len(),
{
    proof {
        lemma_first_of(s, c, 0);
    }
    let i = first_of(s, c, c, 0);
    if i == s.len() {
        seq![s]
    } else {
        seq![s.take(i)] + split_on(s.skip(i + 1), c)
    }
}

/// The first occurrence from `from` on lies within the text.
pub proof fn lemma_first_of(s: Seq<char>, c: char, from: int)
    requires
        0 <= from <= s.len(),
    ensures
        from <= first_of(s, c, c, from) <= s.len(),
        first_of(s, c, c, from) < s.len() ==> s[first_of(s, c, c, from)] == c,
        forall|j: int| from <= j < first_of(s, c, c, from) ==> #[trigger] s[j] != c,
    decreases s.len() - from,
{
    if from < s.len() && s[from] != c {
        lemma_first_of(s, c, from + 1);
    }
}

/// The first occurrence is the one before which there is none.
pub proof fn lemma_first_is(s: Seq<char>, c: char, from: int, at: int)
    requires
        0 <= from <= at <= s.len(),
        forall|j: int| from <= j < at ==> #[trigger] s[j] != c,
        at < s.len() ==> s[at] == c,
    ensures
        first_of(s, c, c, from) == at,
    decreases at - from,
{
    if from < at {
        lemma_first_is(s, c, from + 1, at);
    }
}

/// The pieces of a text between occurrences of `c`.
pub fn split_text(s: &str, c: char) -> (res: Vec<String>)
    ensures
        texts(res@) == split_on(s@, c),
{
    let v: Vec<char> = chars_of(s);
    let mut out: Vec<String> = Vec::new();
    let mut start: usize = 0;
    let mut i: usize = 0;
    assert(v@.skip(0) =~= v@);
    assert(texts(out@) + split_on(v@.skip(0), c) =~= split_on(s@, c));
    while i < v.len()
        invariant
            start <= i <= v@.len(),
            v@ == s@,
            forall|j: int| start <= j < i ==> #[trigger] v@[j] != c,
            texts(out@) + split_on(v@.skip(start as int), c) == split_on(s@, c),
        decreases v@.len() - i,
    {
        if v[i] == c {
            let ghost rest = v@.skip(start as int);
            let ghost k = i - start;
            proof {
                assert forall|j: int| 0 <= j < k implies #[trigger] rest[j] != c by {
                    assert(rest[j] == v@[start + j]);
                }
                assert(rest[k] == c);
                lemma_first_is(rest, c, 0, k);
                assert(rest.take(k) =~= v@.subrange(start as int, i as int));
                assert(rest.skip(k + 1) =~= v@.skip(i + 1));
            }
            let ghost before = out@;
            let piece: String = text_between(&v, start, i);
            out.push(piece);
            proof {
                assert(texts(out@) =~= texts(before).push(rest.take(k)));
                assert(split_on(rest, c) == seq![rest.take(k)] + split_on(v@.skip(i + 1), c));
                assert(texts(out@) + split_on(v@.skip(i + 1), c) =~= texts(before) + split_on(
                    rest,
                    c,
                ));
            }
            start = i + 1;
        }
        i += 1;
    }
    let ghost rest = v@.skip(start as int);
    proof {
        assert forall|j: int| 0 <= j < rest.len() implies #[trigger] rest[j] != c by {
            assert(rest[j] == v@[start + j]);
        }
        lemma_first_is(rest, c, 0, rest.len() as int);
        assert(split_on(rest, c) == seq![rest]);
        assert(rest =~= v@.subrange(start as int, v@.len() as int));
    }
    let ghost before = out@;
    let piece: String = text_between(&v, start, v.len());
    out.push(piece);
    assert(texts(out@) =~= texts(before) + seq![rest]);
    out
}

/// Whether a character does not occur in a text.
pub open spec fn lacks(s: Seq<char>, c: char) -> bool {
    forall|i: int| 0 <= i < s.len() ==> #[trigger] s[i] != c
}

proof fn lemma_split_joined(a: Seq<char>, b: Seq<char>, c: char)
    requires
        lacks(a, c),
    ensures
        split_on(a + seq![c] + b, c) == seq![a] + split_on(b, c),
{
    let s = a + seq![c] + b;
    assert forall|j: int| 0 <= j < a.len() implies #[trigger] s[j] != c by {
        assert(s[j] == a[j]);
    }
    assert(s[a.len() as int] == c);
    lemma_first_is(s, c, 0, a.len() as int);
    assert(s.take(a.len() as int) =~= a);
    assert(s.skip((a.len() + 1) as int) =~= b);
}

proof fn lemma_split_whole(a: Seq<char>, c: char)
    requires
        lacks(a, c),
    ensures
        split_on(a, c) == seq![a],
{
    lemma_first_is(a, c, 0, a.len() as int);
}

// ---------------------------------------------------------------------------
// Routes
// ---------------------------------------------------------------------------

/// Whether a path is open to everyone: logging in, the health check, and whatever is not part
/// of the interface.
pub open spec fn public_path(path: Seq<char>) -> bool {
    path == "/api/auth/verify-passkey"@ || path == "/api/health"@ || !begins_with(path, "/api/"@)
}

/// Whether a path is open to everyone.
pub fn is_public_path(path: &str) -> (res: bool)
    ensures
        res == public_path(path@),
{
    same_text(path, "/api/auth/verify-passkey") || same_text(path, "/api/health") || !starts_with(
        path,
        "/api/",
    )
}

/// A text without any number of `part` in front of it.
pub open spec fn without_front(s: Seq<char>, part: Seq<char>) -> Seq<char>
    decreases s.len(),
{
    if part.len() > 0 && begins_with(s, part) && part.len() <= s.len() {
        without_front(s.skip(part.len() as int), part)
    } else {
        s
    }
}

/// The first of `pieces` that names a token, from `from` on, or their number.
pub open spec fn token_piece(pieces: Seq<Seq<char>>, from: int) -> int
    decreases pieces.len() - from,
{
    if from >= pieces.len() {
        pieces.len() as int
    } else if begins_with(pieces[from], "token="@) {
        from
    } else {
        token_piece(pieces, from + 1)
    }
}

/// The token that a query names.
pub open spec fn query_token(query: Seq<char>) -> Option<Seq<char>> {
    let pieces = split_on(query, '&');
    let i = token_piece(pieces, 0);
    if i < pieces.len() {
        Some(without_front(pieces[i], "token="@))
    } else {
        None
    }
}

/// The token of a call: behind `Bearer ` in its header, or, for the stream of logs, in its
/// query.
pub open spec fn call_token(
    path: Seq<char>,
    header: Option<Seq<char>>,
    query: Seq<char>,
) -> Option<Seq<char>> {
    if header is Some && begins_with(header->0, "Bearer "@) {
        Some(header->0.skip("Bearer "@.len() as int))
    } else if path == "/api/logs/stream"@ {
        query_token(query)
    } else {
        None
    }
}

fn strip_front(s: &str) -> (res: String)
    ensures
        res@ == without_front(s@, "token="@),
{
    proof {
        reveal_strlit("token=");
        reveal_strlit("");
    }
    let mut rest: String = s.to_string();
    while starts_with(rest.as_str(), "token=")
        invariant
            "token="@.len() == 6,
            without_front(rest@, "token="@) == without_front(s@, "token="@),
        decreases rest@.len(),
    {
        let next: String = skip_chars(rest.as_str(), 6);
        assert(next@ == rest@.skip(6));
        rest = next;
    }
    rest
}

fn find_query_token(query: &str) -> (res: Option<String>)
    ensures
        opt_text(res) == query_token(query@),
{
    let pieces: Vec<String> = split_text(query, '&');
    let ghost all = split_on(query@, '&');
    assert(pieces@.len() == texts(pieces@).len());
    let mut i: usize = 0;
    while i < pieces.len()
        invariant
            i <= pieces@.len(),
            all == texts(pieces@),
            all == split_on(query@, '&'),
            token_piece(all, i as int) == token_piece(all, 0),
        decreases pieces@.len() - i,
    {
        assert(all[i as int] == pieces@[i as int]@);
        if starts_with(pieces[i].as_str(), "token=") {
            return Some(strip_front(pieces[i].as_str()));
        }
        i += 1;
    }
    None
}

/// The token of a call.
pub fn token_of_call(path: &str, header: Option<&str>, query: &str) -> (res: Option<String>)
    ensures
        opt_text(res) == call_token(path@, opt_piece(header), query@),
{
    if let Some(h) = header {
        if starts_with(h, "Bearer ") {
            proof {
                reveal_strlit("Bearer ");
            }
            return Some(skip_chars(h, 7));
        }
    }
    if same_text(path, "/api/logs/stream") {
        return find_query_token(query);
    }
    None
}

// ---------------------------------------------------------------------------
// Tokens
// ---------------------------------------------------------------------------

/// What `base64` writes for bytes, in its alphabet for addresses and without padding.
pub uninterp spec fn b64_text(bytes: Seq<u8>) -> Seq<char>;

/// What `base64` reads out of a text in that alphabet.
pub uninterp spec fn b64_bytes(s: Seq<char>) -> Option<Seq<u8>>;

/// The code that HMAC with SHA-256 computes over a message, both texts taken in UTF-8.
pub uninterp spec fn mac_of(key: Seq<char>, message: Seq<char>) -> Seq<u8>;

/// Writes bytes with `base64::engine::general_purpose::URL_SAFE_NO_PAD`. What is written holds
/// letters, digits, hyphens and underscores, so no full stop, and is read back as the same
/// bytes. The bound keeps the length of the text in range.
#[verifier::external_body]
fn b64_encode(bytes: &Vec<u8>) -> (res: String)
    requires
        bytes@.len() <= 0x1000_0000,
    ensures
        res@ == b64_text(bytes@),
        lacks(res@, '.'),
        b64_bytes(res@) == Some(bytes@),
{
    base64::Engine::encode(&base64::engine::general_purpose::URL_SAFE_NO_PAD, bytes)
}

/// The bytes of an optional list.
pub open spec fn opt_bytes(o: Option<Vec<u8>>) -> Option<Seq<u8>> {
    match o {
        Some(v) => Some(v@),
        None => None,
    }
}

/// Reads bytes with `base64::engine::general_purpose::URL_SAFE_NO_PAD`; `None` where the text
/// is not of that form.
#[verifier::external_body]
fn b64_decode(s: &str) -> (res: Option<Vec<u8>>)
    ensures
        opt_bytes(res) == b64_bytes(s@),
{
    base64::Engine::decode(&base64::engine::general_purpose::URL_SAFE_NO_PAD, s).ok()
}

/// Computes the code of a message with `hmac::Hmac` over `sha2::Sha256`, which takes a key of
/// any length. It is thirty-two bytes long.
#[verifier::external_body]
fn mac(key: &str, message: &str) -> (res: Vec<u8>)
    ensures
        res@ == mac_of(key@, message@),
        res@.len() == 32,
{
    let mut m = <hmac::Hmac<sha2::Sha256> as hmac::Mac>::new_from_slice(key.as_bytes()).unwrap();
    hmac::Mac::update(&mut m, message.as_bytes());
    hmac::Mac::finalize(m).into_bytes().to_vec()
}

/// Two parts of a token with a full stop between them.
pub open spec fn dotted(a: Seq<char>, b: Seq<char>) -> Seq<char> {
    a + seq!['.'] + b
}

/// Joins two parts with a full stop.
pub fn join_dotted(a: &str, b: &str) -> (res: String)
    ensures
        res@ == dotted(a@, b@),
{
    let mut out: String = a.to_string();
    out.push('.');
    out.append(b);
    assert(out@ =~= dotted(a@, b@));
    out
}

/// The part of a token that is signed.
pub open spec fn signed_part(header: Seq<u8>, payload: Seq<u8>) -> Seq<char> {
    dotted(b64_text(header), b64_text(payload))
}

/// A token: the signed part and its signature.
pub open spec fn token_text(header: Seq<u8>, payload: Seq<u8>, secret: Seq<char>) -> Seq<char> {
    dotted(
        signed_part(header, payload),
        b64_text(mac_of(secret, signed_part(header, payload))),
    )
}

/// Issue a token over a header and a payload. It checks out under the same secret, with the
/// same payload; under another one it is refused, unless both give the signed part the same
/// code.
pub fn issue_token(header: &Vec<u8>, payload: &Vec<u8>, secret: &str) -> (res: String)
    requires
        header@.len() <= 0x1000_0000,
        payload@.len() <= 0x1000_0000,
    ensures
        res@ == token_text(header@, payload@, secret@),
        secret@.len() > 0 ==> judged(res@, secret@) == Ok::<Seq<u8>, TokenRefusal>(payload@),
        forall|other: Seq<char>| #[trigger]
            judged(res@, other) == verdict(
                other.len() > 0,
                b64_text(mac_of(secret@, signed_part(header@, payload@))) == b64_text(
                    mac_of(other, signed_part(header@, payload@)),
                ),
                Some(payload@),
            ),
{
    let h: String = b64_encode(header);
    let p: String = b64_encode(payload);
    let signed: String = join_dotted(h.as_str(), p.as_str());
    let code: Vec<u8> = mac(secret, signed.as_str());
    let sig: String = b64_encode(&code);
    let token: String = join_dotted(signed.as_str(), sig.as_str());
    proof {
        let rest = dotted(p@, sig@);
        assert(token@ =~= h@ + seq!['.'] + rest);
        lemma_split_joined(h@, rest, '.');
        lemma_split_joined(p@, sig@, '.');
        lemma_split_whole(sig@, '.');
        assert(split_on(token@, '.') =~= seq![h@, p@, sig@]);
    }
    token
}

/// Why a token is refused.
#[derive(Debug, Clone, Copy, PartialEq, Eq, Structural)]
pub enum TokenRefusal {
    /// It does not consist of three parts.
    Malformed,
    /// There is no secret to check it with.
    NotConfigured,
    /// Its signature is not that of its parts.
    BadSignature,
    /// Its payload cannot be read.
    BadPayload,
}

/// What a token is found to be: its payload, or why it is refused.
pub open spec fn judged(token: Seq<char>, secret: Seq<char>) -> Result<Seq<u8>, TokenRefusal> {
    let parts = split_on(token, '.');
    if parts.len() != 3 {
        Err(TokenRefusal::Malformed)
    } else {
        verdict(
            secret.len() > 0,
            parts[2] == b64_text(mac_of(secret, dotted(parts[0], parts[1]))),
            b64_bytes(parts[1]),
        )
    }
}

/// What a token of three parts is found to be, given whether there is a secret, whether the
/// signature is right, and what the payload reads as.
pub open spec fn verdict(
    configured: bool,
    signature_right: bool,
    payload: Option<Seq<u8>>,
) -> Result<Seq<u8>, TokenRefusal> {
    if !configured {
        Err(TokenRefusal::NotConfigured)
    } else if !signature_right {
        Err(TokenRefusal::BadSignature)
    } else {
        match payload {
            Some(b) => Ok(b),
            None => Err(TokenRefusal::BadPayload),
        }
    }
}

/// A payload or a refusal, by what it says.
pub open spec fn verdict_view(r: Result<Vec<u8>, TokenRefusal>) -> Result<Seq<u8>, TokenRefusal> {
    match r {
        Ok(v) => Ok(v@),
        Err(e) => Err(e),
    }
}

/// Pass judgement on a token of three parts.
pub fn give_verdict(
    configured: bool,
    signature: &str,
    expected: &str,
    payload: Option<Vec<u8>>,
) -> (res: Result<Vec<u8>, TokenRefusal>)
    ensures
        verdict_view(res) == verdict(configured, signature@ == expected@, opt_bytes(payload)),
{
    if !configured {
        return Err(TokenRefusal::NotConfigured);
    }
    if !same_text(signature, expected) {
        return Err(TokenRefusal::BadSignature);
    }
    match payload {
        Some(b) => Ok(b),
        None => Err(TokenRefusal::BadPayload),
    }
}

/// Check a token: its payload, or why it is refused.
pub fn check_token(token: &str, secret: &str) -> (res: Result<Vec<u8>, TokenRefusal>)
    ensures
        verdict_view(res) == judged(token@, secret@),
{
    let parts: Vec<String> = split_text(token, '.');
    assert(parts@.len() == texts(parts@).len());
    if parts.len() != 3 {
        return Err(TokenRefusal::Malformed);
    }
    proof {
        assert(texts(parts@)[0] == parts@[0]@);
        assert(texts(parts@)[1] == parts@[1]@);
        assert(texts(parts@)[2] == parts@[2]@);
    }
    let signed: String = join_dotted(parts[0].as_str(), parts[1].as_str());
    let code: Vec<u8> = mac(secret, signed.as_str());
    let expected: String = b64_encode(&code);
    let payload: Option<Vec<u8>> = b64_decode(parts[1].as_str());
    give_verdict(
        secret.unicode_len() > 0,
        parts[2].as_str(),
        expected.as_str(),
        payload,
    )
}

/// When a token that is made at `now` runs out.
pub open spec fn runs_out(now: int) -> int {
    if now + TOKEN_SECONDS > u64::MAX {
        u64::MAX as int
    } else {
        now + TOKEN_SECONDS
    }
}

/// Whether a token that runs out at `exp` is still good at `now`.
pub open spec fn still_good(now: int, exp: int) -> bool {
    now <= exp
}

/// When a token that is issued now runs out.
pub fn token_expiry(now: u64) -> (res: u64)
    ensures
        res == runs_out(now as int),
        res == if now + TOKEN_SECONDS > u64::MAX {
            u64::MAX as int
        } else {
            now + TOKEN_SECONDS
        },
{
    now.saturating_add(TOKEN_SECONDS)
}

/// Whether a token that runs out at `exp` is still good.
pub fn token_is_live(now: u64, exp: u64) -> (res: bool)
    ensures
        res == (now <= exp),
        res == still_good(now as int, exp as int),
{
    now <= exp
}

// ---------------------------------------------------------------------------
// Passkeys
// ---------------------------------------------------------------------------

/// Compares two secrets with `subtle::ConstantTimeEq::ct_eq` over their bytes in UTF-8, which
/// says that they differ where their lengths do.
#[verifier::external_body]
fn same_secret(a: &str, b: &str) -> (res: bool)
    ensures
        res == (a@ == b@),
{
    subtle::ConstantTimeEq::ct_eq(a.as_bytes(), b.as_bytes()).into()
}

/// What comes of an attempt to log in.
#[derive(Debug, Clone, Copy, PartialEq, Eq, Structural)]
pub enum PasskeyOutcome {
    /// No passkey is configured.
    NoPasskey,
    /// The passkey is wrong.
    Wrong,
    /// The passkey is right, but tokens cannot be issued. The count of attempts starts anew.
    NoSecret,
    /// The passkey is right. The count of attempts starts anew.
    Granted,
}

/// What comes of an attempt to log in with `given`.
pub open spec fn passkey_outcome(
    given: Seq<char>,
    passkey: Option<Seq<char>>,
    secret: Option<Seq<char>>,
) -> PasskeyOutcome {
    if passkey is None || passkey->0.len() == 0 {
        PasskeyOutcome::NoPasskey
    } else if given != passkey->0 {
        PasskeyOutcome::Wrong
    } else if secret is None || secret->0.len() == 0 {
        PasskeyOutcome::NoSecret
    } else {
        PasskeyOutcome::Granted
    }
}

/// Check a passkey against the one that is configured.
pub fn check_passkey(req: &PasskeyReq, passkey: Option<&str>, secret: Option<&str>) -> (res:
    PasskeyOutcome)
    ensures
        res == passkey_outcome(req.passkey@, opt_piece(passkey), opt_piece(secret)),
{
    let wanted: &str = match passkey {
        Some(p) => p,
        None => {
            return PasskeyOutcome::NoPasskey;
        },
    };
    if wanted.unicode_len() == 0 {
        return PasskeyOutcome::NoPasskey;
    }
    if !same_secret(req.passkey.as_str(), wanted) {
        return PasskeyOutcome::Wrong;
    }
    match secret {
        Some(s) => if s.unicode_len() == 0 {
            PasskeyOutcome::NoSecret
        } else {
            PasskeyOutcome::Granted
        },
        None => PasskeyOutcome::NoSecret,
    }
}

// ---------------------------------------------------------------------------
// Attempts
// ---------------------------------------------------------------------------

/// The attempts of one caller in a window. The window began at `window_start`, a reading of the
/// machine's steady clock in nanoseconds.
#[derive(Debug)]
pub struct RateLimitEntry {
    pub attempts: u32,
    pub window_start: u128,
}

/// The attempts on record after one more, `elapsed` nanoseconds into the window; `None` where
/// it is one too many.
pub open spec fn one_more_attempt(attempts: int, elapsed: int) -> Option<int> {
    if elapsed > WINDOW_NANOS {
        Some(1)
    } else if attempts >= MAX_ATTEMPTS {
        None
    } else {
        Some(attempts + 1)
    }
}

/// How far a window that began at `start` has gone at `now`.
pub open spec fn elapsed_since(start: u128, now: u128) -> int {
    if now >= start {
        now - start
    } else {
        0
    }
}

/// What becomes of the record of a caller with one more attempt at `now`. A window that is over
/// is begun anew; an attempt that is not admitted is not counted.
pub open spec fn counted(e: RateLimitEntry, now: u128) -> RateLimitEntry {
    let elapsed = elapsed_since(e.window_start, now);
    match one_more_attempt(e.attempts as int, elapsed) {
        Some(n) => RateLimitEntry {
            attempts: n as u32,
            window_start: if elapsed > WINDOW_NANOS {
                now
            } else {
                e.window_start
            },
        },
        None => e,
    }
}

impl RateLimitEntry {
    /// The record of a first attempt.
    pub fn first(now: u128) -> (res: Self)
        ensures
            res == (RateLimitEntry { attempts: 1, window_start: now }),
    {
        RateLimitEntry { attempts: 1, window_start: now }
    }

    /// Count one more attempt. Gives back the number of attempts, or `None` where this one is
    /// not admitted.
    pub fn count_attempt(&mut self, now: u128) -> (res: Option<u32>)
        ensures
            *final(self) == counted(*old(self), now),
            res is Some <==> one_more_attempt(
                old(self).attempts as int,
                elapsed_since(old(self).window_start, now),
            ) is Some,
            res is Some ==> res->0 == final(self).attempts,
    {
        let elapsed: u128 = if now >= self.window_start {
            now - self.window_start
        } else {
            0
        };
        if elapsed > WINDOW_NANOS {
            self.attempts = 1;
            self.window_start = now;
            return Some(1);
        }
        if self.attempts >= MAX_ATTEMPTS {
            return None;
        }
        self.attempts += 1;
        Some(self.attempts)
    }
}

/// The records of a table of callers, by caller. They are spoken of only where the table is
/// held alone, so that nobody else writes to it.
pub uninterp spec fn records_of(table: DashMap<String, RateLimitEntry>) -> Map<
    Seq<char>,
    RateLimitEntry,
>;

/// Takes the record of a caller out of a table with `dashmap::DashMap::remove`: it is handed
/// over if there is one, and all others stay.
#[verifier::external_body]
fn take_record(table: &mut DashMap<String, RateLimitEntry>, caller: &str) -> (res: Option<
    RateLimitEntry,
>)
    ensures
        records_of(*final(table)) == records_of(*old(table)).remove(caller@),
        res == (if records_of(*old(table)).contains_key(caller@) {
            Some(records_of(*old(table))[caller@])
        } else {
            None
        }),
{
    table.remove(caller).map(|(_, e)| e)
}

/// Puts the record of a caller into a table with `dashmap::DashMap::insert`, in place of the
/// one that was there; all others stay.
#[verifier::external_body]
fn put_record(table: &mut DashMap<String, RateLimitEntry>, caller: &str, e: RateLimitEntry)
    ensures
        records_of(*final(table)) == records_of(*old(table)).insert(caller@, e),
{
    table.insert(caller.to_string(), e);
}

/// The record of a caller after one more attempt.
pub open spec fn record_after(
    records: Map<Seq<char>, RateLimitEntry>,
    caller: Seq<char>,
    now: u128,
) -> RateLimitEntry {
    if records.contains_key(caller) {
        counted(records[caller], now)
    } else {
        RateLimitEntry { attempts: 1, window_start: now }
    }
}

/// Whether one more attempt of a caller is admitted.
pub open spec fn may_try(
    records: Map<Seq<char>, RateLimitEntry>,
    caller: Seq<char>,
    now: u128,
) -> bool {
    records.contains_key(caller) ==> one_more_attempt(
        records[caller].attempts as int,
        elapsed_since(records[caller].window_start, now),
    ) is Some
}

/// Count one more attempt of a caller. Gives back whether it is admitted.
pub fn count_caller(table: &mut DashMap<String, RateLimitEntry>, caller: &str, now: u128) -> (res:
    bool)
    ensures
        res == may_try(records_of(*old(table)), caller@, now),
        records_of(*final(table)) == records_of(*old(table)).insert(
            caller@,
            record_after(records_of(*old(table)), caller@, now),
        ),
{
    let ghost before = records_of(*table);
    match take_record(table, caller) {
        Some(e) => {
            let mut entry: RateLimitEntry = e;
            let ok: bool = entry.count_attempt(now).is_some();
            put_record(table, caller, entry);
            assert(records_of(*table) =~= before.insert(
                caller@,
                record_after(before, caller@, now),
            ));
            ok
        },
        None => {
            put_record(table, caller, RateLimitEntry::first(now));
            assert(records_of(*table) =~= before.insert(
                caller@,
                record_after(before, caller@, now),
            ));
            true
        },
    }
}

/// What comes of a call to log in: `None` where the caller has tried too often.
pub open spec fn login_outcome(
    records: Map<Seq<char>, RateLimitEntry>,
    caller: Seq<char>,
    now: u128,
    given: Seq<char>,
    passkey: Option<Seq<char>>,
    secret: Option<Seq<char>>,
) -> Option<PasskeyOutcome> {
    if may_try(records, caller, now) {
        Some(passkey_outcome(given, passkey, secret))
    } else {
        None
    }
}

/// The records after a call to log in: the attempt is counted, and forgotten once the passkey
/// was right.
pub open spec fn records_after_login(
    records: Map<Seq<char>, RateLimitEntry>,
    caller: Seq<char>,
    now: u128,
    outcome: Option<PasskeyOutcome>,
) -> Map<Seq<char>, RateLimitEntry> {
    if outcome == Some(PasskeyOutcome::NoSecret) || outcome == Some(PasskeyOutcome::Granted) {
        records.remove(caller)
    } else {
        records.insert(caller, record_after(records, caller, now))
    }
}

/// Take a call to log in.
pub fn try_login(
    table: &mut DashMap<String, RateLimitEntry>,
    caller: &str,
    now: u128,
    req: &PasskeyReq,
    passkey: Option<&str>,
    secret: Option<&str>,
) -> (res: Option<PasskeyOutcome>)
    ensures
        res == login_outcome(
            records_of(*old(table)),
            caller@,
            now,
            req.passkey@,
            opt_piece(passkey),
            opt_piece(secret),
        ),
        records_of(*final(table)) == records_after_login(
            records_of(*old(table)),
            caller@,
            now,
            res,
        ),
{
    let ghost before = records_of(*table);
    if !count_caller(table, caller, now) {
        return None;
    }
    let outcome: PasskeyOutcome = check_passkey(req, passkey, secret);
    if outcome == PasskeyOutcome::NoSecret || outcome == PasskeyOutcome::Granted {
        let _ = take_record(table, caller);
        assert(records_of(*table) =~= before.remove(caller@));
    }
    Some(outcome)
}

// ---------------------------------------------------------------------------
// Laws
// ---------------------------------------------------------------------------

/// The records after the first `n` calls of a caller to log in, the call `i` at `times[i]` and
/// with `given[i]`.
pub open spec fn records_after_calls(
    records: Map<Seq<char>, RateLimitEntry>,
    caller: Seq<char>,
    times: Seq<u128>,
    given: Seq<Seq<char>>,
    passkey: Option<Seq<char>>,
    secret: Option<Seq<char>>,
    n: int,
) -> Map<Seq<char>, RateLimitEntry>
    decreases n,
{
    if n <= 0 {
        records
    } else {
        let before = records_after_calls(records, caller, times, given, passkey, secret, n - 1);
        records_after_login(
            before,
            caller,
            times[n - 1],
            login_outcome(before, caller, times[n - 1], given[n - 1], passkey, secret),
        )
    }
}

/// Whether a caller begins a window with an attempt at `now`: there is no record of the caller,
/// or its window is over.
pub open spec fn begins_window(
    records: Map<Seq<char>, RateLimitEntry>,
    caller: Seq<char>,
    now: u128,
) -> bool {
    records.contains_key(caller) ==> elapsed_since(records[caller].window_start, now)
        > WINDOW_NANOS
}

/// Within one window five attempts without the right passkey are admitted and counted, at
/// whatever times they come, and then not one more, whatever it gives. The window is that of
/// the first attempt; once it is over, attempts are admitted again.
pub proof fn a_window_admits_five_attempts(
    records: Map<Seq<char>, RateLimitEntry>,
    caller: Seq<char>,
    times: Seq<u128>,
    given: Seq<Seq<char>>,
    passkey: Option<Seq<char>>,
    secret: Option<Seq<char>>,
    n: int,
    now: u128,
    last: Seq<char>,
)
    requires
        1 <= n <= times.len(),
        times.len() == given.len(),
        begins_window(records, caller, times[0]),
        forall|i: int|
            0 <= i < n ==> times[0] <= #[trigger] times[i] <= times[0] + WINDOW_NANOS,
        forall|i: int| 0 <= i < n ==> Some(#[trigger] given[i]) != passkey,
        times[0] <= now,
    ensures
        ({
            let after = records_after_calls(records, caller, times, given, passkey, secret, n);
            &&& after.contains_key(caller)
            &&& after[caller].attempts == smaller(n, MAX_ATTEMPTS as int)
            &&& after[caller].window_start == times[0]
            &&& now - times[0] <= WINDOW_NANOS ==> (may_try(after, caller, now) <==> n
                < MAX_ATTEMPTS)
            &&& now - times[0] <= WINDOW_NANOS && n >= MAX_ATTEMPTS ==> login_outcome(
                after,
                caller,
                now,
                last,
                passkey,
                secret,
            ) is None
            &&& now - times[0] > WINDOW_NANOS ==> may_try(after, caller, now)
        }),
    decreases n,
{
    reveal_with_fuel(records_after_calls, 2);
    assert(Some(given[n - 1]) != passkey);
    assert(times[0] <= times[n - 1] <= times[0] + WINDOW_NANOS);
    if n > 1 {
        a_window_admits_five_attempts(
            records,
            caller,
            times,
            given,
            passkey,
            secret,
            n - 1,
            now,
            last,
        );
    }
}

/// A call to log in leaves the records of all other callers as they are, and what comes of it
/// depends on no record but that of the caller.
pub proof fn callers_do_not_affect_each_other(
    records: Map<Seq<char>, RateLimitEntry>,
    caller: Seq<char>,
    other: Seq<char>,
    now: u128,
    outcome: Option<PasskeyOutcome>,
    later: u128,
)
    requires
        caller != other,
    ensures
        ({
            let after = records_after_login(records, caller, now, outcome);
            &&& after.contains_key(other) == records.contains_key(other)
            &&& records.contains_key(other) ==> after[other] == records[other]
            &&& may_try(after, other, later) == may_try(records, other, later)
        }),
{
}

/// The right passkey clears the record of the caller.
pub proof fn the_right_passkey_clears_the_record(
    records: Map<Seq<char>, RateLimitEntry>,
    caller: Seq<char>,
    now: u128,
    later: u128,
)
    ensures
        may_try(
            records_after_login(records, caller, now, Some(PasskeyOutcome::Granted)),
            caller,
            later,
        ),
{
}

/// No one is let in without the passkey that is configured, whole and to the letter.
pub proof fn only_the_passkey_opens(
    given: Seq<char>,
    passkey: Option<Seq<char>>,
    secret: Option<Seq<char>>,
)
    ensures
        passkey_outcome(given, passkey, secret) == PasskeyOutcome::Granted ==> passkey == Some(
            given,
        ) && given.len() > 0,
{
}

/// A token is only accepted with the signature that the secret gives its parts; without a
/// secret none is.
pub proof fn accepted_tokens_are_signed(token: Seq<char>, secret: Seq<char>)
    ensures
        judged(token, secret) is Ok ==> secret.len() > 0 && split_on(token, '.').len() == 3
            && split_on(token, '.')[2] == b64_text(
            mac_of(secret, dotted(split_on(token, '.')[0], split_on(token, '.')[1])),
        ),
{
}

/// Every path of the interface but logging in and the health check asks for a token.
pub proof fn interface_paths_are_guarded(path: Seq<char>)
    requires
        begins_with(path, "/api/"@),
        path != "/api/auth/verify-passkey"@,
        path != "/api/health"@,
    ensures
        !public_path(path),
{
}

/// Outside of the interface every path is public; inside of it only the check of a passkey and
/// the health check are.
pub proof fn two_interface_paths_are_public(path: Seq<char>)
    ensures
        !begins_with(path, "/api/"@) ==> public_path(path),
        path == "/api/auth/verify-passkey"@ || path == "/api/health"@ ==> public_path(path),
        public_path(path) && begins_with(path, "/api/"@) ==> path == "/api/auth/verify-passkey"@
            || path == "/api/health"@,
{
}

/// A text is split at each mark: the pieces are what stands between the marks.
pub proof fn pieces_stand_between_the_marks(a: Seq<char>, b: Seq<char>, c: char)
    requires
        forall|i: int| 0 <= i < a.len() ==> #[trigger] a[i] != c,
    ensures
        split_on(a + seq![c] + b, c) == seq![a] + split_on(b, c),
        split_on(a, c) == seq![a],
{
    assert(lacks(a, c));
    lemma_split_joined(a, b, c);
    lemma_split_whole(a, c);
}

/// The token of a call is what follows `Bearer ` in its header, whatever the path; without such
/// a header only the stream of the log takes one from its query, and there it is what follows
/// `token=` in the first piece that begins so.
pub proof fn tokens_come_from_header_or_stream(
    path: Seq<char>,
    header: Option<Seq<char>>,
    query: Seq<char>,
    token: Seq<char>,
    rest: Seq<char>,
)
    requires
        forall|i: int| 0 <= i < token.len() ==> #[trigger] token[i] != '&',
        !begins_with(token, "token="@),
    ensures
        call_token(path, Some("Bearer "@ + token), query) == Some(token),
        (header is None || !begins_with(header->0, "Bearer "@)) && path != "/api/logs/stream"@
            ==> call_token(path, header, query) is None,
        (header is None || !begins_with(header->0, "Bearer "@)) && path == "/api/logs/stream"@
            ==> call_token(path, header, "token="@ + token) == Some(token) && call_token(
            path,
            header,
            "token="@ + token + seq!['&'] + rest,
        ) == Some(token),
{
    reveal_strlit("Bearer ");
    reveal_strlit("token=");
    let h = "Bearer "@ + token;
    assert(h.subrange(0, "Bearer "@.len() as int) =~= "Bearer "@);
    assert(h.skip("Bearer "@.len() as int) =~= token);
    let t = "token="@ + token;
    assert forall|i: int| 0 <= i < t.len() implies #[trigger] t[i] != '&' by {
        if i >= 6 {
            assert(t[i] == token[i - 6]);
        }
    }
    assert(lacks(t, '&'));
    lemma_split_whole(t, '&');
    lemma_split_joined(t, rest, '&');
    assert(t.subrange(0, 6) =~= "token="@);
    assert(t.skip(6) =~= token);
    let pieces = split_on(t, '&');
    let more = split_on(t + seq!['&'] + rest, '&');
    assert(pieces[0] == t && more[0] == t);
    assert(token_piece(pieces, 0) == 0 && token_piece(more, 0) == 0);
    reveal_with_fuel(without_front, 2);
    assert(without_front(t, "token="@) == token);
}

/// A token is accepted exactly where a secret is configured, its signature is the right one and
/// its payload can be read; the payload is then what it carries.
pub proof fn verdicts_weigh_everything(
    configured: bool,
    signature_right: bool,
    payload: Option<Seq<u8>>,
)
    ensures
        verdict(configured, signature_right, payload) is Ok <==> configured && signature_right
            && payload is Some,
        verdict(configured, signature_right, payload) matches Ok(b) ==> Some(b) == payload,
        !configured ==> verdict(configured, signature_right, payload) == Err::<
            Seq<u8>,
            TokenRefusal,
        >(TokenRefusal::NotConfigured),
        configured && !signature_right ==> verdict(configured, signature_right, payload) == Err::<
            Seq<u8>,
            TokenRefusal,
        >(TokenRefusal::BadSignature),
{
}

/// A text that is not three pieces is no token.
pub proof fn tokens_have_three_pieces(token: Seq<char>, secret: Seq<char>)
    requires
        split_on(token, '.').len() != 3,
    ensures
        judged(token, secret) == Err::<Seq<u8>, TokenRefusal>(TokenRefusal::Malformed),
{
}

/// The right passkey opens wherever a secret is configured; any other is wrong; without a
/// passkey on record nothing opens.
pub proof fn the_passkey_opens(
    given: Seq<char>,
    passkey: Option<Seq<char>>,
    secret: Option<Seq<char>>,
)
    ensures
        ({
            let known = passkey is Some && passkey->0.len() > 0;
            let signed = secret is Some && secret->0.len() > 0;
            let o = passkey_outcome(given, passkey, secret);
            &&& !known ==> o == PasskeyOutcome::NoPasskey
            &&& known && given != passkey->0 ==> o == PasskeyOutcome::Wrong
            &&& known && given == passkey->0 && !signed ==> o == PasskeyOutcome::NoSecret
            &&& known && given == passkey->0 && signed ==> o == PasskeyOutcome::Granted
        }),
{
}

/// Five attempts are free in fifteen minutes from the first: a caller with fewer on record may
/// try, one with five or more may not until the fifteen minutes are over, and a new caller may.
pub proof fn five_attempts_in_fifteen_minutes(
    records: Map<Seq<char>, RateLimitEntry>,
    caller: Seq<char>,
    now: u128,
)
    ensures
        !records.contains_key(caller) ==> may_try(records, caller, now),
        records.contains_key(caller) ==> {
            let e = records[caller];
            let over = now > e.window_start + 900_000_000_000;
            &&& may_try(records, caller, now) <==> over || e.attempts < 5
            &&& over ==> record_after(records, caller, now) == (RateLimitEntry {
                attempts: 1,
                window_start: now,
            })
            &&& !over && e.attempts < 5 ==> record_after(records, caller, now) == (RateLimitEntry {
                attempts: (e.attempts + 1) as u32,
                window_start: e.window_start,
            })
            &&& !over && e.attempts >= 5 ==> record_after(records, caller, now) == e
        },
{
}

/// A wrong passkey is counted against its caller, and so is an attempt that was not admitted;
/// only the right one clears the record.
pub proof fn wrong_passkeys_are_counted(
    records: Map<Seq<char>, RateLimitEntry>,
    caller: Seq<char>,
    now: u128,
    given: Seq<char>,
    passkey: Option<Seq<char>>,
    secret: Option<Seq<char>>,
)
    requires
        passkey is None || passkey->0.len() == 0 || given != passkey->0 || !may_try(
            records,
            caller,
            now,
        ),
    ensures
        ({
            let o = login_outcome(records, caller, now, given, passkey, secret);
            let after = records_after_login(records, caller, now, o);
            &&& o is None <==> !may_try(records, caller, now)
            &&& after.contains_key(caller)
            &&& after[caller] == record_after(records, caller, now)
        }),
{
}

/// A token is good for a week from the second it was made, and not a second longer.
pub proof fn tokens_last_a_week(made: u64, later: u64)
    requires
        made + 604_800 <= u64::MAX,
    ensures
        still_good(later as int, runs_out(made as int)) <==> later <= made + 7 * 86_400,
{
}

} // verus!
