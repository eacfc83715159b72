//! Secrets — the encrypted store of API keys and other sensitive values.
//!
//! A secrets file holds `base64(nonce || AES-256-GCM(key, nonce, json))`,
//! where `json` is the JSON object of the secrets and the nonce is 12
//! random bytes. Reading and writing the file is the caller's part; this
//! module holds the secrets, seals them into that text and opens it.

use vstd::prelude::*;
use aes_gcm::aead::{Aead, KeyInit};
use crate::error::{MigiError, MigiResult};
use crate::observer::log_observer::{is_white, trim, trim_str};
use crate::text::{concat2, decimal, starts_with, with_number};

verus! {

// ─── The container ───────────────────────────────────────────────────

/// The map that a list of entries describes, later entries winning.
pub open spec fn map_of(entries: Seq<(Seq<char>, Seq<char>)>) -> Map<Seq<char>, Seq<char>>
    decreases entries.len(),
{
    if entries.len() == 0 {
        Map::empty()
    } else {
        map_of(entries.drop_last()).insert(entries.last().0, entries.last().1)
    }
}

/// No key occurs twice among the entries.
pub open spec fn distinct_keys(entries: Seq<(Seq<char>, Seq<char>)>) -> bool {
    forall|i: int, j: int| 0 <= i < j < entries.len() ==> entries[i].0 != entries[j].0
}

/// The views of a list of string pairs.
pub open spec fn pair_views(entries: Seq<(String, String)>) -> Seq<(Seq<char>, Seq<char>)> {
    entries.map_values(|e: (String, String)| (e.0@, e.1@))
}

/// With distinct keys, the map has exactly the entries' keys, each with
/// its entry's value.
pub proof fn lemma_map_of(entries: Seq<(Seq<char>, Seq<char>)>)
    requires
        distinct_keys(entries),
    ensures
        forall|k: Seq<char>| #[trigger] map_of(entries).dom().contains(k)
            <==> exists|i: int| 0 <= i < entries.len() && entries[i].0 == k,
        forall|i: int| 0 <= i < entries.len() ==> #[trigger] map_of(entries)[entries[i].0] == entries[i].1,
    decreases entries.len(),
{
    if entries.len() > 0 {
        let init = entries.drop_last();
        assert(distinct_keys(init)) by {
            assert forall|i: int, j: int| 0 <= i < j < init.len() implies init[i].0 != init[j].0 by {
                assert(init[i] == entries[i]);
                assert(init[j] == entries[j]);
            }
        }
        lemma_map_of(init);
        let last = entries.len() - 1;
        assert(entries.last() == entries[last]);
        assert forall|k: Seq<char>| #[trigger] map_of(entries).dom().contains(k)
            <==> exists|i: int| 0 <= i < entries.len() && entries[i].0 == k by {
            assert(map_of(entries) == map_of(init).insert(entries.last().0, entries.last().1));
            if map_of(entries).dom().contains(k) && k != entries.last().0 {
                assert(map_of(init).dom().contains(k));
                let i = choose|i: int| 0 <= i < init.len() && init[i].0 == k;
                assert(entries[i] == init[i]);
            }
            if exists|i: int| 0 <= i < entries.len() && entries[i].0 == k {
                let i = choose|i: int| 0 <= i < entries.len() && entries[i].0 == k;
                if i < last {
                    assert(init[i] == entries[i]);
                    assert(map_of(init).dom().contains(k));
                }
            }
        }
        assert forall|i: int| 0 <= i < entries.len() implies #[trigger] map_of(entries)[entries[i].0] == entries[i].1 by {
            assert(map_of(entries) == map_of(init).insert(entries.last().0, entries.last().1));
            if i < last {
                assert(init[i] == entries[i]);
                assert(entries[i].0 != entries[last].0);
                assert(map_of(init)[init[i].0] == init[i].1);
            }
        }
    }
}

/// Replacing the value of the entry with key `k` is inserting `k`.
pub proof fn lemma_map_of_update(entries: Seq<(Seq<char>, Seq<char>)>, i: int, v: Seq<char>)
    requires
        distinct_keys(entries),
        0 <= i < entries.len(),
    ensures
        distinct_keys(entries.update(i, (entries[i].0, v))),
        map_of(entries.update(i, (entries[i].0, v))) == map_of(entries).insert(entries[i].0, v),
{
    let e2 = entries.update(i, (entries[i].0, v));
    assert(distinct_keys(e2)) by {
        assert forall|a: int, b: int| 0 <= a < b < e2.len() implies e2[a].0 != e2[b].0 by {
            assert(e2[a].0 == entries[a].0);
            assert(e2[b].0 == entries[b].0);
        }
    }
    lemma_map_of(entries);
    lemma_map_of(e2);
    let m1 = map_of(e2);
    let m2 = map_of(entries).insert(entries[i].0, v);
    assert forall|k: Seq<char>| m1.dom().contains(k) <==> m2.dom().contains(k) by {
        if m1.dom().contains(k) {
            let j = choose|j: int| 0 <= j < e2.len() && e2[j].0 == k;
            assert(entries[j].0 == k);
        }
        if m2.dom().contains(k) && k != entries[i].0 {
            let j = choose|j: int| 0 <= j < entries.len() && entries[j].0 == k;
            assert(e2[j].0 == k);
        }
        if k == entries[i].0 {
            assert(e2[i].0 == k);
        }
    }
    assert forall|k: Seq<char>| m1.dom().contains(k) implies m1[k] == m2[k] by {
        let j = choose|j: int| 0 <= j < e2.len() && e2[j].0 == k;
        assert(m1[e2[j].0] == e2[j].1);
        if j != i {
            assert(e2[j] == entries[j]);
            assert(map_of(entries)[entries[j].0] == entries[j].1);
        }
    }
    assert(m1 =~= m2);
}

/// Secrets held in memory: a map from names to values.
#[derive(Debug)]
pub struct Secrets {
    entries: Vec<(String, String)>,
}

impl View for Secrets {
    type V = Map<Seq<char>, Seq<char>>;

    closed spec fn view(&self) -> Map<Seq<char>, Seq<char>> {
        map_of(pair_views(self.entries@))
    }
}

impl Secrets {
    #[verifier::type_invariant]
    closed spec fn keys_distinct(&self) -> bool {
        distinct_keys(pair_views(self.entries@))
    }

    /// An empty container.
    pub fn new() -> (r: Self)
        ensures
            r@ == Map::<Seq<char>, Seq<char>>::empty(),
    {
        let r = Secrets { entries: Vec::new() };
        assert(pair_views(r.entries@) =~= Seq::<(Seq<char>, Seq<char>)>::empty());
        r
    }

    fn find(&self, key: &str) -> (r: Option<usize>)
        ensures
            match r {
                Some(i) => i < self.entries@.len() && self.entries@[i as int].0@ == key@,
                None => forall|i: int| 0 <= i < self.entries@.len() ==> self.entries@[i].0@ != key@,
            },
    {
        let k = String::from_str(key);
        let mut i: usize = 0;
        while i < self.entries.len()
            invariant
                0 <= i <= self.entries@.len(),
                k@ == key@,
                forall|j: int| 0 <= j < i ==> self.entries@[j].0@ != key@,
            decreases self.entries@.len() - i,
        {
            if self.entries[i].0 == k {
                return Some(i);
            }
            i = i + 1;
        }
        None
    }

    /// The value stored under `key`.
    pub fn get(&self, key: &str) -> (r: Option<&str>)
        ensures
            match r {
                Some(v) => self@.dom().contains(key@) && v@ == self@[key@],
                None => !self@.dom().contains(key@),
            },
    {
        proof {
            use_type_invariant(self);
            lemma_map_of(pair_views(self.entries@));
        }
        match self.find(key) {
            Some(i) => {
                assert(pair_views(self.entries@)[i as int] == (self.entries@[i as int].0@, self.entries@[i as int].1@));
                Some(self.entries[i].1.as_str())
            },
            None => {
                assert forall|j: int| 0 <= j < pair_views(self.entries@).len() implies pair_views(self.entries@)[j].0 != key@ by {
                    assert(pair_views(self.entries@)[j].0 == self.entries@[j].0@);
                }
                None
            },
        }
    }

    /// Stores `value` under `key`, replacing any earlier value.
    pub fn set(&mut self, key: &str, value: &str)
        ensures
            final(self)@ == old(self)@.insert(key@, value@),
    {
        proof {
            use_type_invariant(&*self);
        }
        let ghost before = pair_views(self.entries@);
        let found = self.find(key);
        let mut entries: Vec<(String, String)> = Vec::new();
        std::mem::swap(&mut entries, &mut self.entries);
        assert(pair_views(entries@) == before);
        match found {
            Some(i) => {
                let k = entries[i].0.clone();
                proof {
                    lemma_map_of_update(before, i as int, value@);
                }
                entries.set(i, (k, String::from_str(value)));
                assert(pair_views(entries@) =~= before.update(i as int, (before[i as int].0, value@)));
            },
            None => {
                entries.push((String::from_str(key), String::from_str(value)));
                assert(pair_views(entries@) =~= before.push((key@, value@)));
                assert(pair_views(entries@).drop_last() =~= before);
                assert forall|a: int, b: int| 0 <= a < b < pair_views(entries@).len()
                    implies pair_views(entries@)[a].0 != pair_views(entries@)[b].0 by {
                    if b == before.len() {
                        assert(before[a].0 == entries@[a].0@);
                    }
                }
            },
        }
        self.entries = entries;
    }

    /// A container holding `pairs`, a later pair winning over an earlier
    /// one with the same name.
    pub fn from_pairs(pairs: Vec<(&str, &str)>) -> (r: Self)
        ensures
            r@ == map_of(pairs@.map_values(|p: (&str, &str)| (p.0@, p.1@))),
    {
        let ghost pv = pairs@.map_values(|p: (&str, &str)| (p.0@, p.1@));
        let mut s = Secrets::new();
        let mut i: usize = 0;
        while i < pairs.len()
            invariant
                0 <= i <= pairs@.len(),
                pv == pairs@.map_values(|p: (&str, &str)| (p.0@, p.1@)),
                s@ == map_of(pv.take(i as int)),
            decreases pairs@.len() - i,
        {
            let (k, v) = pairs[i];
            s.set(k, v);
            assert(pv.take(i as int + 1).drop_last() =~= pv.take(i as int));
            i = i + 1;
        }
        assert(pv.take(pairs@.len() as int) =~= pv);
        s
    }

    /// The names of the secrets, each once.
    pub fn keys(&self) -> (r: Vec<&str>)
        ensures
            forall|k: Seq<char>| self@.dom().contains(k)
                <==> r@.map_values(|s: &str| s@).contains(k),
            forall|i: int, j: int| 0 <= i < j < r@.len() ==> r@[i]@ != r@[j]@,
    {
        proof {
            use_type_invariant(self);
            lemma_map_of(pair_views(self.entries@));
        }
        let mut r: Vec<&str> = Vec::new();
        let mut i: usize = 0;
        while i < self.entries.len()
            invariant
                0 <= i <= self.entries@.len(),
                r@.len() == i,
                forall|j: int| 0 <= j < i ==> r@[j]@ == self.entries@[j].0@,
            decreases self.entries@.len() - i,
        {
            r.push(self.entries[i].0.as_str());
            i = i + 1;
        }
        let ghost pv = pair_views(self.entries@);
        assert forall|k: Seq<char>| self@.dom().contains(k)
            <==> r@.map_values(|s: &str| s@).contains(k) by {
            if self@.dom().contains(k) {
                let j = choose|j: int| 0 <= j < pv.len() && pv[j].0 == k;
                assert(r@.map_values(|s: &str| s@)[j] == k);
            }
            if r@.map_values(|s: &str| s@).contains(k) {
                let rv = r@.map_values(|s: &str| s@);
                let j = choose|j: int| 0 <= j < rv.len() && #[trigger] rv[j] == k;
                assert(pv[j].0 == k);
            }
        }
        assert forall|a: int, b: int| 0 <= a < b < r@.len() implies r@[a]@ != r@[b]@ by {
            assert(pv[a].0 == r@[a]@);
            assert(pv[b].0 == r@[b]@);
        }
        r
    }
}



/// Reading after writing: once `set(key, value)` has turned `before`
/// into `after`, `get(key)` gives `value`, and every other name gives
/// what it gave before.
pub proof fn law_get_after_set(before: Secrets, after: Secrets, key: Seq<char>, value: Seq<char>, other: Seq<char>)
    requires
        after@ == before@.insert(key, value),
    ensures
        after@.dom().contains(key) && after@[key] == value,
        other != key ==> (after@.dom().contains(other) <==> before@.dom().contains(other)),
        other != key && before@.dom().contains(other) ==> after@[other] == before@[other],
{
}

// ─── Hex ─────────────────────────────────────────────────────────────

/// The value of a hexadecimal digit (either case), if `c` is one.
pub open spec fn hex_value(c: char) -> Option<int> {
    if '0' <= c && c <= '9' {
        Some(c as int - '0' as int)
    } else if 'a' <= c && c <= 'f' {
        Some(c as int - 'a' as int + 10)
    } else if 'A' <= c && c <= 'F' {
        Some(c as int - 'A' as int + 10)
    } else {
        None
    }
}

/// What `hex::decode` gives: the bytes written by pairs of hexadecimal
/// digits, or `None` for an odd length or any other character.
pub open spec fn hex_decode_spec(s: Seq<char>) -> Option<Seq<u8>>
    decreases s.len(),
{
    if s.len() == 0 {
        Some(Seq::<u8>::empty())
    } else if s.len() == 1 {
        None
    } else {
        match (hex_value(s[0]), hex_value(s[1]), hex_decode_spec(s.subrange(2, s.len() as int))) {
            (Some(hi), Some(lo), Some(rest)) => Some(seq![(hi * 16 + lo) as u8] + rest),
            _ => None,
        }
    }
}

/// The lower-case hexadecimal digit for `d < 16`.
pub open spec fn hex_digit(d: int) -> char {
    if d < 10 { (d + '0' as int) as char } else { (d - 10 + 'a' as int) as char }
}

/// What `hex::encode` gives: two lower-case digits per byte.
pub open spec fn hex_encode_spec(b: Seq<u8>) -> Seq<char>
    decreases b.len(),
{
    if b.len() == 0 {
        Seq::<char>::empty()
    } else {
        seq![hex_digit(b[0] as int / 16), hex_digit(b[0] as int % 16)] + hex_encode_spec(b.subrange(1, b.len() as int))
    }
}

/// Decoding what was encoded gives the bytes back, and the text has two
/// characters per byte.
pub proof fn lemma_hex_roundtrip(b: Seq<u8>)
    ensures
        hex_encode_spec(b).len() == 2 * b.len(),
        hex_decode_spec(hex_encode_spec(b)) == Some(b),
    decreases b.len(),
{
    if b.len() > 0 {
        let rest = b.subrange(1, b.len() as int);
        lemma_hex_roundtrip(rest);
        let s = hex_encode_spec(b);
        assert(s.subrange(2, s.len() as int) =~= hex_encode_spec(rest));
        let hi = b[0] as int / 16;
        let lo = b[0] as int % 16;
        assert(hex_value(hex_digit(hi)) == Some(hi));
        assert(hex_value(hex_digit(lo)) == Some(lo));
        assert(s[0] == hex_digit(hi));
        assert(s[1] == hex_digit(lo));
        assert((hi * 16 + lo) as u8 == b[0]);
        assert(seq![b[0]] + rest =~= b);
    }
}

#[verifier::external_type_specification]
#[verifier::external_body]
pub struct ExFromHexError(hex::FromHexError);

/// Calls `hex::decode`, which reads pairs of hexadecimal digits of
/// either case and fails on an odd length or any other character (as
/// [`hex_decode_spec`] states).
#[verifier::external_body]
fn hex_decode(s: &str) -> (r: Result<Vec<u8>, hex::FromHexError>)
    ensures
        match r {
            Ok(v) => hex_decode_spec(s@) == Some(v@),
            Err(_) => hex_decode_spec(s@) is None,
        },
{
    hex::decode(s)
}

/// Calls `hex::encode`, which writes two lower-case hexadecimal digits
/// per byte (as [`hex_encode_spec`] states).
#[verifier::external_body]
fn hex_encode(b: &[u8]) -> (r: String)
    ensures
        r@ == hex_encode_spec(b@),
{
    hex::encode(b)
}

// ─── Base64 ──────────────────────────────────────────────────────────

/// The standard base64 alphabet: `A`–`Z`, `a`–`z`, `0`–`9`, `+`, `/`.
pub open spec fn b64_char(v: int) -> char {
    if v < 26 {
        (v + 'A' as int) as char
    } else if v < 52 {
        (v - 26 + 'a' as int) as char
    } else if v < 62 {
        (v - 52 + '0' as int) as char
    } else if v == 62 {
        '+'
    } else {
        '/'
    }
}

/// What base64's `STANDARD` engine encodes: four characters for every
/// three bytes, the last group padded with `=`.
pub open spec fn base64_encode_spec(b: Seq<u8>) -> Seq<char>
    decreases b.len(),
{
    if b.len() == 0 {
        Seq::<char>::empty()
    } else if b.len() == 1 {
        seq![b64_char(b[0] as int / 4), b64_char((b[0] as int % 4) * 16), '=', '=']
    } else if b.len() == 2 {
        seq![
            b64_char(b[0] as int / 4),
            b64_char((b[0] as int % 4) * 16 + b[1] as int / 16),
            b64_char((b[1] as int % 16) * 4),
            '=',
        ]
    } else {
        seq![
            b64_char(b[0] as int / 4),
            b64_char((b[0] as int % 4) * 16 + b[1] as int / 16),
            b64_char((b[1] as int % 16) * 4 + b[2] as int / 64),
            b64_char(b[2] as int % 64),
        ] + base64_encode_spec(b.subrange(3, b.len() as int))
    }
}

/// The bytes that base64's `STANDARD` engine decodes from `s`, if it
/// accepts `s`.
pub uninterp spec fn base64_decoded(s: Seq<char>) -> Option<Seq<u8>>;

proof fn lemma_base64_not_white(b: Seq<u8>)
    ensures
        forall|i: int| 0 <= i < base64_encode_spec(b).len() ==> !is_white(#[trigger] base64_encode_spec(b)[i]),
    decreases b.len(),
{
    if b.len() >= 3 {
        lemma_base64_not_white(b.subrange(3, b.len() as int));
        let s = base64_encode_spec(b);
        let rest = base64_encode_spec(b.subrange(3, b.len() as int));
        assert forall|i: int| 0 <= i < s.len() implies !is_white(#[trigger] s[i]) by {
            if i >= 4 {
                assert(s[i] == rest[i - 4]);
            }
        }
    }
}

/// A text without whitespace is its own trim.
proof fn lemma_trim_unwhite(s: Seq<char>)
    requires
        forall|i: int| 0 <= i < s.len() ==> !is_white(#[trigger] s[i]),
    ensures
        trim(s) == s,
{
    if s.len() > 0 {
        assert(!is_white(s[0]));
        assert(!is_white(s.last())) by {
            assert(s.last() == s[s.len() - 1]);
        }
    }
}

#[verifier::external_type_specification]
#[verifier::external_body]
pub struct ExDecodeError(base64::DecodeError);

/// Calls the `STANDARD` engine's `encode`: its output is
/// [`base64_encode_spec`] of the bytes, and its `decode` gives the bytes
/// back.
#[verifier::external_body]
fn base64_encode(b: &[u8]) -> (r: String)
    ensures
        r@ == base64_encode_spec(b@),
        base64_decoded(r@) == Some(b@),
{
    base64::Engine::encode(&base64::engine::general_purpose::STANDARD, b)
}

/// Calls the `STANDARD` engine's `decode`; what it gives is named
/// [`base64_decoded`].
#[verifier::external_body]
fn base64_decode(s: &str) -> (r: Result<Vec<u8>, base64::DecodeError>)
    ensures
        match r {
            Ok(v) => base64_decoded(s@) == Some(v@),
            Err(_) => base64_decoded(s@) is None,
        },
{
    base64::Engine::decode(&base64::engine::general_purpose::STANDARD, s)
}

// ─── AES-256-GCM ─────────────────────────────────────────────────────

/// The most plaintext that one AES-GCM message holds (`P_MAX`).
pub open spec fn aes_gcm_max_plaintext() -> nat {
    0x10_0000_0000
}

/// The ciphertext and tag that `Aes256Gcm::encrypt` produces.
pub uninterp spec fn aes256gcm_seal(key: Seq<u8>, nonce: Seq<u8>, plaintext: Seq<u8>) -> Seq<u8>;

/// The plaintext that `Aes256Gcm::decrypt` recovers, or `None` when the
/// tag does not check.
pub uninterp spec fn aes256gcm_open(key: Seq<u8>, nonce: Seq<u8>, ciphertext: Seq<u8>) -> Option<Seq<u8>>;

/// Why one AES-256-GCM call failed, with the text that the outside error
/// displays.
pub enum AesFailure {
    /// The key was refused by `KeyInit::new_from_slice`.
    Key(String),
    /// `Aead::encrypt` or `Aead::decrypt` returned `aead::Error`.
    Aead(String),
}

/// Encrypts with `Aes256Gcm`: `KeyInit::new_from_slice`, then
/// `Aead::encrypt`. The key is refused (displaying `Invalid Length`)
/// exactly when it is not 32 bytes; encryption fails (displaying
/// `aead::Error`) exactly when the plaintext is longer than `P_MAX`. The
/// ciphertext carries a 16-byte tag, and decrypting it with the same key
/// and nonce gives the plaintext back.
#[verifier::external_body]
fn aes_seal(key: &[u8], nonce: &[u8], plaintext: &[u8]) -> (r: Result<Vec<u8>, AesFailure>)
    requires
        nonce@.len() == 12,
    ensures
        (r matches Err(AesFailure::Key(_))) <==> key@.len() != 32,
        r matches Err(AesFailure::Key(m)) ==> m@ == "Invalid Length"@,
        key@.len() == 32 ==> (r is Ok <==> plaintext@.len() <= aes_gcm_max_plaintext()),
        r matches Err(AesFailure::Aead(m)) ==> m@ == "aead::Error"@,
        r matches Ok(c) ==> c@ == aes256gcm_seal(key@, nonce@, plaintext@)
            && c@.len() == plaintext@.len() + 16
            && aes256gcm_open(key@, nonce@, c@) == Some(plaintext@),
{
    let cipher = match aes_gcm::Aes256Gcm::new_from_slice(key) {
        Ok(c) => c,
        Err(e) => return Err(AesFailure::Key(e.to_string())),
    };
    cipher.encrypt(aes_gcm::Nonce::from_slice(nonce), plaintext).map_err(|e| AesFailure::Aead(e.to_string()))
}

/// Decrypts with `Aes256Gcm`: `KeyInit::new_from_slice`, then
/// `Aead::decrypt`. The key is refused exactly when it is not 32 bytes;
/// what a 32-byte key recovers is named [`aes256gcm_open`].
#[verifier::external_body]
fn aes_open(key: &[u8], nonce: &[u8], ciphertext: &[u8]) -> (r: Result<Vec<u8>, AesFailure>)
    requires
        nonce@.len() == 12,
    ensures
        (r matches Err(AesFailure::Key(_))) <==> key@.len() != 32,
        r matches Err(AesFailure::Key(m)) ==> m@ == "Invalid Length"@,
        key@.len() == 32 ==> match r {
            Ok(p) => aes256gcm_open(key@, nonce@, ciphertext@) == Some(p@),
            Err(AesFailure::Aead(_)) => aes256gcm_open(key@, nonce@, ciphertext@) is None,
            Err(AesFailure::Key(_)) => false,
        },
{
    let cipher = match aes_gcm::Aes256Gcm::new_from_slice(key) {
        Ok(c) => c,
        Err(e) => return Err(AesFailure::Key(e.to_string())),
    };
    cipher.decrypt(aes_gcm::Nonce::from_slice(nonce), ciphertext).map_err(|e| AesFailure::Aead(e.to_string()))
}

/// Random bytes from the operating system (`rand::rngs::OsRng`); only
/// their number is stated.
#[verifier::external_body]
fn random_bytes(n: usize) -> (r: Vec<u8>)
    ensures
        r@.len() == n,
{
    let mut b = vec![0u8; n];
    rand::RngCore::fill_bytes(&mut rand::rngs::OsRng, &mut b);
    b
}

// ─── JSON ────────────────────────────────────────────────────────────

/// The map of strings that `serde_json::from_slice` reads from `bytes`
/// as a JSON object of strings, if it accepts them.
pub uninterp spec fn json_string_map(bytes: Seq<u8>) -> Option<Map<Seq<char>, Seq<char>>>;

#[verifier::external_type_specification]
#[verifier::external_body]
pub struct ExJsonError(serde_json::Error);

/// A bound on the UTF-8 length of the JSON object of these entries: two
/// braces, and per entry six bytes of quotes, colon and comma and six
/// bytes per character of its name and value (the longest escape,
/// `\u00XX`, is six bytes; no character takes more).
pub open spec fn json_size_bound(entries: Seq<(Seq<char>, Seq<char>)>) -> nat
    decreases entries.len(),
{
    if entries.len() == 0 {
        2
    } else {
        json_size_bound(entries.drop_last()) + 6 * (entries.last().0.len() + entries.last().1.len()) + 6
    }
}

/// Writes the entries as a JSON object with `serde_json::to_string`,
/// which does not fail on a map of strings (it writes to memory, and
/// string keys are always accepted). The order of the members is left
/// open (a hash map's); what is stated is that `serde_json` reads the
/// same map back from the text, and that the text is no longer than
/// [`json_size_bound`].
#[verifier::external_body]
fn entries_to_json(entries: &Vec<(String, String)>) -> (r: Result<String, serde_json::Error>)
    ensures
        r is Ok,
        r matches Ok(t) ==> json_string_map(vstd::utf8::encode_utf8(t@)) == Some(map_of(pair_views(entries@)))
            && vstd::utf8::encode_utf8(t@).len() <= json_size_bound(pair_views(entries@)),
{
    let m: std::collections::HashMap<&str, &str> = entries.iter().map(|e| (e.0.as_str(), e.1.as_str())).collect();
    serde_json::to_string(&m)
}

/// Reads a JSON object of strings with `serde_json::from_slice` into a
/// hash map and lists its members (in the map's order, which is left
/// open).
#[verifier::external_body]
fn json_to_entries(bytes: &[u8]) -> (r: Result<Vec<(String, String)>, serde_json::Error>)
    ensures
        match r {
            Ok(v) => distinct_keys(pair_views(v@)) && json_string_map(bytes@) == Some(map_of(pair_views(v@))),
            Err(_) => json_string_map(bytes@) is None,
        },
{
    serde_json::from_slice::<std::collections::HashMap<String, String>>(bytes).map(|m| m.into_iter().collect())
}

// ─── Sealing and opening ─────────────────────────────────────────────

/// Why a sealed text does not open, by the first step that fails.
pub enum OpenFailure {
    Base64,
    TooShort,
    Key,
    Decrypt,
    Json,
}

/// What opening `text` with `key` gives: the text is trimmed and
/// base64-decoded, its first 12 bytes are the nonce, the rest is
/// decrypted with AES-256-GCM, and the plaintext is read as a JSON object
/// of strings.
pub open spec fn open_spec(text: Seq<char>, key: Seq<u8>) -> Result<Map<Seq<char>, Seq<char>>, OpenFailure> {
    match base64_decoded(trim(text)) {
        None => Err(OpenFailure::Base64),
        Some(b) => if b.len() < 12 {
            Err(OpenFailure::TooShort)
        } else if key.len() != 32 {
            Err(OpenFailure::Key)
        } else {
            match aes256gcm_open(key, b.take(12), b.skip(12)) {
                None => Err(OpenFailure::Decrypt),
                Some(p) => match json_string_map(p) {
                    None => Err(OpenFailure::Json),
                    Some(m) => Ok(m),
                },
            }
        },
    }
}

/// Whether `m` is the message of the error that failure `f` gives.
pub open spec fn open_message(f: OpenFailure, m: Seq<char>) -> bool {
    match f {
        OpenFailure::Base64 => starts_with(m, "failed to decode base64: "@),
        OpenFailure::TooShort => m == "encrypted data too short (missing nonce)"@,
        OpenFailure::Key => m == "failed to create cipher: "@ + "Invalid Length"@,
        OpenFailure::Decrypt => m == "decryption failed — wrong master key or corrupted data"@,
        OpenFailure::Json => starts_with(m, "failed to parse decrypted secrets: "@),
    }
}

/// Whether `text` is `base64(nonce || AES-256-GCM(key, nonce, json))` for
/// some JSON text `json` of the secrets `m`.
pub open spec fn sealed_as(text: Seq<char>, key: Seq<u8>, nonce: Seq<u8>, m: Map<Seq<char>, Seq<char>>) -> bool {
    exists|json: Seq<u8>|
        #![trigger aes256gcm_seal(key, nonce, json)]
        json_string_map(json) == Some(m) && text == base64_encode_spec(nonce + aes256gcm_seal(key, nonce, json))
}

/// Whether `m` is the message of an error that sealing with `key` may
/// give: a refused key, or a failure of the JSON writer or of the cipher.
pub open spec fn seal_message(key: Seq<u8>, m: Seq<char>) -> bool {
    ||| starts_with(m, "failed to serialize secrets: "@)
    ||| (key.len() != 32 && m == "failed to create cipher: "@ + "Invalid Length"@)
    ||| (key.len() == 32 && m == "encryption failed: "@ + "aead::Error"@)
}

/// `a || b` as a new vector.
fn concat_bytes(a: &[u8], b: &[u8]) -> (r: Vec<u8>)
    ensures
        r@ == a@ + b@,
{
    let mut r: Vec<u8> = Vec::new();
    let mut i: usize = 0;
    while i < a.len()
        invariant
            0 <= i <= a@.len(),
            r@ == a@.take(i as int),
        decreases a@.len() - i,
    {
        r.push(a[i]);
        assert(a@.take(i as int + 1) =~= a@.take(i as int).push(a@[i as int]));
        i = i + 1;
    }
    assert(a@.take(a@.len() as int) =~= a@);
    let mut j: usize = 0;
    while j < b.len()
        invariant
            0 <= j <= b@.len(),
            r@ == a@ + b@.take(j as int),
        decreases b@.len() - j,
    {
        r.push(b[j]);
        assert(b@.take(j as int + 1) =~= b@.take(j as int).push(b@[j as int]));
        assert(a@ + b@.take(j as int + 1) =~= (a@ + b@.take(j as int)).push(b@[j as int]));
        j = j + 1;
    }
    assert(b@.take(b@.len() as int) =~= b@);
    r
}

/// A configuration error with the message `prefix + detail`.
fn config_error(prefix: &str, detail: &str) -> (e: MigiError)
    ensures
        e matches MigiError::Config(m) && m@ == prefix@ + detail@ && starts_with(m@, prefix@),
{
    assert((prefix@ + detail@).subrange(0, prefix@.len() as int) =~= prefix@);
    MigiError::Config(concat2(prefix, detail))
}

impl Secrets {
    /// A bound on the length of the JSON text of the secrets (see
    /// [`json_size_bound`]): sealing succeeds with a 32-byte key whenever
    /// it is within what AES-GCM encrypts in one message.
    pub closed spec fn size_bound(&self) -> nat {
        json_size_bound(pair_views(self.entries@))
    }

    /// Seals the secrets with `key` under the given 12-byte nonce into
    /// `base64(nonce || AES-256-GCM(key, nonce, json))`, which
    /// [`Secrets::open`] turns back into the same secrets.
    pub fn seal_with_nonce(&self, key: &[u8], nonce: &[u8]) -> (r: MigiResult<String>)
        requires
            nonce@.len() == 12,
        ensures
            key@.len() != 32 ==> r is Err,
            key@.len() == 32 && self.size_bound() <= aes_gcm_max_plaintext() ==> r is Ok,
            r matches Ok(t) ==> sealed_as(t@, key@, nonce@, self@)
                && open_spec(t@, key@) == Ok::<Map<Seq<char>, Seq<char>>, OpenFailure>(self@),
            r matches Err(e) ==> e matches MigiError::Config(m) && seal_message(key@, m@),
    {
        proof {
            use_type_invariant(self);
        }
        let json = match entries_to_json(&self.entries) {
            Ok(t) => t,
            Err(e) => {
                return Err(config_error("failed to serialize secrets: ", &e.to_string()));
            },
        };
        let plaintext = json.as_str().as_bytes();
        let ciphertext = match aes_seal(key, nonce, plaintext) {
            Ok(c) => c,
            Err(AesFailure::Key(m)) => {
                return Err(config_error("failed to create cipher: ", &m));
            },
            Err(AesFailure::Aead(m)) => {
                return Err(config_error("encryption failed: ", &m));
            },
        };
        let sealed = concat_bytes(nonce, ciphertext.as_slice());
        let text = base64_encode(sealed.as_slice());
        proof {
            let b = sealed@;
            lemma_base64_not_white(b);
            lemma_trim_unwhite(text@);
            assert(b.take(12) =~= nonce@);
            assert(b.skip(12) =~= ciphertext@);
            assert(json_string_map(plaintext@) == Some(self@));
        }
        Ok(text)
    }

    /// Seals the secrets with `key` under a fresh random nonce, as
    /// [`Secrets::seal_with_nonce`] does.
    pub fn seal(&self, key: &[u8]) -> (r: MigiResult<String>)
        ensures
            key@.len() != 32 ==> r is Err,
            key@.len() == 32 && self.size_bound() <= aes_gcm_max_plaintext() ==> r is Ok,
            r matches Ok(t) ==> (exists|nonce: Seq<u8>| nonce.len() == 12 && sealed_as(t@, key@, nonce, self@))
                && open_spec(t@, key@) == Ok::<Map<Seq<char>, Seq<char>>, OpenFailure>(self@),
            r matches Err(e) ==> e matches MigiError::Config(m) && seal_message(key@, m@),
    {
        let nonce = random_bytes(12);
        self.seal_with_nonce(key, nonce.as_slice())
    }

    /// Opens a sealed text with `key`: the secrets it holds, or the error
    /// of the first step that fails (see [`open_spec`]).
    pub fn open(text: &str, key: &[u8]) -> (r: MigiResult<Secrets>)
        ensures
            match open_spec(text@, key@) {
                Ok(m) => r matches Ok(s) && s@ == m,
                Err(f) => r matches Err(MigiError::Config(msg)) && open_message(f, msg@),
            },
    {
        let t = trim_str(text);
        let sealed = match base64_decode(t) {
            Ok(v) => v,
            Err(e) => {
                return Err(config_error("failed to decode base64: ", &e.to_string()));
            },
        };
        if sealed.len() < 12 {
            return Err(MigiError::Config(String::from_str("encrypted data too short (missing nonce)")));
        }
        let (nonce, ciphertext) = sealed.as_slice().split_at(12);
        assert(nonce@ == sealed@.take(12));
        assert(ciphertext@ == sealed@.skip(12));
        let plaintext = match aes_open(key, nonce, ciphertext) {
            Ok(p) => p,
            Err(AesFailure::Key(m)) => {
                return Err(config_error("failed to create cipher: ", &m));
            },
            Err(AesFailure::Aead(_)) => {
                return Err(MigiError::Config(
                    String::from_str("decryption failed — wrong master key or corrupted data"),
                ));
            },
        };
        let entries = match json_to_entries(plaintext.as_slice()) {
            Ok(v) => v,
            Err(e) => {
                return Err(config_error("failed to parse decrypted secrets: ", &e.to_string()));
            },
        };
        Ok(Secrets { entries })
    }

    /// The secrets that `text` holds, or none when there is no text or it
    /// does not open with `key`.
    pub fn load_or_empty(text: Option<&str>, key: &[u8]) -> (r: Secrets)
        ensures
            r@ == match text {
                Some(t) => match open_spec(t@, key@) {
                    Ok(m) => m,
                    Err(_) => Map::<Seq<char>, Seq<char>>::empty(),
                },
                None => Map::<Seq<char>, Seq<char>>::empty(),
            },
    {
        match text {
            Some(t) => match Secrets::open(t, key) {
                Ok(s) => s,
                Err(_) => Secrets::new(),
            },
            None => Secrets::new(),
        }
    }
}

// ─── The master key ──────────────────────────────────────────────────

/// Reads the master key from its hexadecimal text: the text is trimmed,
/// must be valid hexadecimal, and must decode to exactly 32 bytes.
pub fn master_key_from_hex(text: &str) -> (r: MigiResult<Vec<u8>>)
    ensures
        match hex_decode_spec(trim(text@)) {
            None => r matches Err(MigiError::Config(m))
                && starts_with(m@, "MIGI_MASTER_KEY must be a valid hex string: "@),
            Some(b) => if b.len() == 32 {
                r matches Ok(k) && k@ == b
            } else {
                r matches Err(MigiError::Config(m))
                    && m@ == "MIGI_MASTER_KEY must be exactly 32 bytes (64 hex chars), got "@ + decimal(b.len()) + " bytes"@
            },
        },
{
    let t = trim_str(text);
    let key = match hex_decode(t) {
        Ok(k) => k,
        Err(e) => {
            return Err(config_error("MIGI_MASTER_KEY must be a valid hex string: ", &e.to_string()));
        },
    };
    if key.len() != 32 {
        let mut m = with_number("MIGI_MASTER_KEY must be exactly 32 bytes (64 hex chars), got ", key.len());
        m.append(" bytes");
        return Err(MigiError::Config(m));
    }
    Ok(key)
}

/// A fresh random master key of 32 bytes, as 64 lower-case hexadecimal
/// digits.
pub fn generate_master_key() -> (r: String)
    ensures
        r@.len() == 64,
        hex_decode_spec(r@) matches Some(b) && b.len() == 32 && hex_encode_spec(b) == r@,
{
    let key = random_bytes(32);
    let r = hex_encode(key.as_slice());
    proof {
        lemma_hex_roundtrip(key@);
    }
    r
}

} // verus!
