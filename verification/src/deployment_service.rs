//! The decisions of the off-chain deployment service: a store of contract
//! bytecodes keyed by their SHA-256 hash, and the checks that turn a
//! deployment request (hex-encoded bytecode hash and salt) into the
//! bytecode and salt to deploy.
//!
//! Listening for requests, loading files and sending transactions are the
//! service's I/O and stay outside the library.

use vstd::prelude::*;
use vstd::string::{StringExecFns, StrSliceExecFns};
use sha2::{Digest, Sha256};

verus! {

// ---------------------------------------------------------------------------
// Outside functions
// ---------------------------------------------------------------------------

/// The SHA-256 digest of `data`.
pub uninterp spec fn sha256(data: Seq<u8>) -> Seq<u8>;

/// SHA-256 of `data` (`sha2::Sha256`); its result depends on the bytes alone
/// and is named [`sha256`].
#[verifier::external_body]
fn sha256_digest(data: &[u8]) -> (r: [u8; 32])
    ensures
        r@ == sha256(data@),
{
    let mut hasher = Sha256::new();
    hasher.update(data);
    let result = hasher.finalize();
    let mut hash = [0u8; 32];
    hash.copy_from_slice(&result);
    hash
}

/// `hex::FromHexError`, the error of `hex::decode`, carried as it is.
#[verifier::external_type_specification]
#[verifier::external_body]
pub struct ExFromHexError(hex::FromHexError);

/// The value of a hexadecimal digit, either case.
pub open spec fn hex_digit(c: char) -> Option<u8> {
    if '0' <= c && c <= '9' {
        Some((c as u32 - 48) as u8)
    } else if 'a' <= c && c <= 'f' {
        Some((c as u32 - 87) as u8)
    } else if 'A' <= c && c <= 'F' {
        Some((c as u32 - 55) as u8)
    } else {
        None
    }
}

/// The bytes a hex string denotes: present when it has an even number of
/// characters, all hexadecimal digits; each pair is one byte, high digit
/// first.
pub open spec fn hex_decoding(s: Seq<char>) -> Option<Seq<u8>> {
    if s.len() % 2 == 0 && forall|i: int| 0 <= i < s.len() ==> (#[trigger] hex_digit(s[i])) is Some {
        Some(
            Seq::new(
                s.len() / 2,
                |i: int| (hex_digit(s[2 * i])->0 * 16 + hex_digit(s[2 * i + 1])->0) as u8,
            ),
        )
    } else {
        None
    }
}

/// Decodes a hex string (`hex::decode`): succeeds exactly on an even number
/// of hexadecimal digits of either case, each pair giving one byte.
#[verifier::external_body]
fn hex_decode(s: &str) -> (r: Result<Vec<u8>, hex::FromHexError>)
    ensures
        match r {
            Ok(v) => hex_decoding(s@) == Some(v@),
            Err(_) => hex_decoding(s@) is None,
        },
{
    hex::decode(s)
}

/// The lowercase hexadecimal digit of `n < 16`.
pub open spec fn hex_char(n: u8) -> char {
    if n < 10 {
        (n + 48) as char
    } else {
        (n + 87) as char
    }
}

/// Two lowercase hex digits per byte, high digit first.
pub open spec fn hex_encoding(b: Seq<u8>) -> Seq<char> {
    Seq::new(
        2 * b.len(),
        |i: int|
            if i % 2 == 0 {
                hex_char(b[i / 2] / 16)
            } else {
                hex_char(b[i / 2] % 16)
            },
    )
}

/// Encodes bytes as lowercase hex (`hex::encode`).
#[verifier::external_body]
fn hex_encode(b: &[u8]) -> (r: String)
    ensures
        r@ == hex_encoding(b@),
{
    hex::encode(b)
}

// ---------------------------------------------------------------------------
// Bytecode storage
// ---------------------------------------------------------------------------

/// The map that a list of entries denotes, later entries winning.
pub open spec fn entries_map(entries: Seq<([u8; 32], Vec<u8>)>) -> Map<Seq<u8>, Seq<u8>>
    decreases entries.len(),
{
    if entries.len() == 0 {
        Map::empty()
    } else {
        entries_map(entries.drop_last()).insert(entries.last().0@, entries.last().1@)
    }
}

/// No hash occurs twice.
pub open spec fn distinct_hashes(entries: Seq<([u8; 32], Vec<u8>)>) -> bool {
    forall|i: int, j: int|
        0 <= i < j < entries.len() ==> #[trigger] entries[i].0@ != #[trigger] entries[j].0@
}

/// Bytecodes by their SHA-256 hash.
pub struct BytecodeStorage {
    entries: Vec<([u8; 32], Vec<u8>)>,
}

impl View for BytecodeStorage {
    type V = Map<Seq<u8>, Seq<u8>>;

    closed spec fn view(&self) -> Map<Seq<u8>, Seq<u8>> {
        entries_map(self.entries@)
    }
}

proof fn lemma_entries_map_len(entries: Seq<([u8; 32], Vec<u8>)>)
    requires
        distinct_hashes(entries),
    ensures
        entries_map(entries).dom().finite(),
        entries_map(entries).dom().len() == entries.len(),
        forall|k: Seq<u8>|
            entries_map(entries).contains_key(k) <==> exists|i: int|
                0 <= i < entries.len() && #[trigger] entries[i].0@ == k,
    decreases entries.len(),
{
    if entries.len() > 0 {
        let init = entries.drop_last();
        assert(distinct_hashes(init));
        lemma_entries_map_len(init);
        let k = entries.last().0@;
        assert(!entries_map(init).contains_key(k)) by {
            if entries_map(init).contains_key(k) {
                let i = choose|i: int| 0 <= i < init.len() && #[trigger] init[i].0@ == k;
                assert(entries[i].0@ == entries[entries.len() - 1].0@);
            }
        }
        assert forall|q: Seq<u8>|
            entries_map(entries).contains_key(q) implies exists|i: int|
                0 <= i < entries.len() && #[trigger] entries[i].0@ == q by {
            if q != k {
                let i = choose|i: int| 0 <= i < init.len() && #[trigger] init[i].0@ == q;
                assert(entries[i].0@ == q);
            } else {
                assert(entries[entries.len() - 1].0@ == q);
            }
        }
        assert forall|q: Seq<u8>|
            (exists|i: int| 0 <= i < entries.len() && #[trigger] entries[i].0@ == q) implies entries_map(
                entries,
            ).contains_key(q) by {
            let i = choose|i: int| 0 <= i < entries.len() && #[trigger] entries[i].0@ == q;
            if i < entries.len() - 1 {
                assert(init[i].0@ == q);
            }
        }
    }
}

impl BytecodeStorage {
    /// The storage's entries have distinct hashes.
    pub closed spec fn well_formed(&self) -> bool {
        distinct_hashes(self.entries@)
    }

    /// An empty store.
    pub fn new() -> (r: BytecodeStorage)
        ensures
            r.well_formed(),
            r@ == Map::<Seq<u8>, Seq<u8>>::empty(),
    {
        BytecodeStorage { entries: Vec::new() }
    }

    /// The SHA-256 hash a bytecode is stored under.
    pub fn compute_hash(bytecode: &[u8]) -> (r: [u8; 32])
        ensures
            r@ == sha256(bytecode@),
    {
        sha256_digest(bytecode)
    }

    /// The bytecode stored under `hash`.
    pub fn get_bytecode(&self, hash: &[u8; 32]) -> (r: Option<&Vec<u8>>)
        requires
            self.well_formed(),
        ensures
            match r {
                Some(b) => self@.contains_key(hash@) && self@[hash@] == b@,
                None => !self@.contains_key(hash@),
            },
    {
        proof {
            lemma_entries_map_len(self.entries@);
        }
        let mut i: usize = 0;
        while i < self.entries.len()
            invariant
                i <= self.entries@.len(),
                distinct_hashes(self.entries@),
                forall|j: int| 0 <= j < i ==> #[trigger] self.entries@[j].0@ != hash@,
            decreases self.entries@.len() - i,
        {
            if crate::bytes::bytes_eq(self.entries[i].0.as_slice(), hash.as_slice()) {
                proof {
                    lemma_entry_value(self.entries@, i as int);
                }
                return Some(&self.entries[i].1);
            }
            i = i + 1;
        }
        None
    }

    /// Stores `bytecode` under `hash`, replacing what was there.
    pub fn insert(&mut self, hash: [u8; 32], bytecode: Vec<u8>)
        requires
            old(self).well_formed(),
        ensures
            final(self).well_formed(),
            final(self)@ == old(self)@.insert(hash@, bytecode@),
    {
        proof {
            lemma_entries_map_len(self.entries@);
        }
        let mut i: usize = 0;
        while i < self.entries.len()
            invariant
                i <= self.entries@.len(),
                self.entries@ == old(self).entries@,
                distinct_hashes(self.entries@),
                forall|j: int| 0 <= j < i ==> #[trigger] self.entries@[j].0@ != hash@,
            decreases self.entries@.len() - i,
        {
            if crate::bytes::bytes_eq(self.entries[i].0.as_slice(), hash.as_slice()) {
                let ghost old_entries = self.entries@;
                self.entries.set(i, (hash, bytecode));
                proof {
                    assert(distinct_hashes(self.entries@)) by {
                        assert forall|a: int, b: int|
                            0 <= a < b < self.entries@.len() implies #[trigger] self.entries@[a].0@
                            != #[trigger] self.entries@[b].0@ by {
                            assert(old_entries[a].0@ != old_entries[b].0@);
                        }
                    }
                    lemma_entries_map_replace(old_entries, i as int, hash, bytecode);
                }
                return;
            }
            i = i + 1;
        }
        let ghost old_entries = self.entries@;
        self.entries.push((hash, bytecode));
        proof {
            assert(self.entries@.drop_last() =~= old_entries);
            assert(distinct_hashes(self.entries@)) by {
                assert forall|a: int, b: int|
                    0 <= a < b < self.entries@.len() implies #[trigger] self.entries@[a].0@
                    != #[trigger] self.entries@[b].0@ by {
                    if b < old_entries.len() {
                        assert(old_entries[a].0@ != old_entries[b].0@);
                    }
                }
            }
        }
    }

    /// The number of stored bytecodes.
    pub fn len(&self) -> (r: usize)
        requires
            self.well_formed(),
        ensures
            r as nat == self@.dom().len(),
    {
        proof {
            lemma_entries_map_len(self.entries@);
        }
        self.entries.len()
    }

    /// Hashes a bytecode and stores it under its hash; answers the hash.
    pub fn add_bytecode(&mut self, bytecode: Vec<u8>) -> (r: [u8; 32])
        requires
            old(self).well_formed(),
        ensures
            final(self).well_formed(),
            r@ == sha256(bytecode@),
            final(self)@ == old(self)@.insert(r@, bytecode@),
    {
        let hash = Self::compute_hash(bytecode.as_slice());
        self.insert(hash, bytecode);
        hash
    }
}

/// With distinct hashes, the entry holding a hash gives its value.
proof fn lemma_entry_value(entries: Seq<([u8; 32], Vec<u8>)>, i: int)
    requires
        distinct_hashes(entries),
        0 <= i < entries.len(),
    ensures
        entries_map(entries).contains_key(entries[i].0@),
        entries_map(entries)[entries[i].0@] == entries[i].1@,
    decreases entries.len(),
{
    let init = entries.drop_last();
    if i < entries.len() - 1 {
        assert(distinct_hashes(init));
        lemma_entry_value(init, i);
        assert(init[i] == entries[i]);
        assert(entries[i].0@ != entries[entries.len() - 1].0@);
    }
}

/// Replacing the value of the entry at `i` replaces it in the map.
proof fn lemma_entries_map_replace(entries: Seq<([u8; 32], Vec<u8>)>, i: int, hash: [u8; 32], value: Vec<u8>)
    requires
        distinct_hashes(entries),
        0 <= i < entries.len(),
        entries[i].0@ == hash@,
    ensures
        entries_map(entries.update(i, (hash, value))) == entries_map(entries).insert(hash@, value@),
    decreases entries.len(),
{
    let u = entries.update(i, (hash, value));
    if i == entries.len() - 1 {
        assert(u.drop_last() =~= entries.drop_last());
    } else {
        let init = entries.drop_last();
        assert(distinct_hashes(init));
        lemma_entries_map_replace(init, i, hash, value);
        assert(u.drop_last() =~= init.update(i, (hash, value)));
        assert(entries[i].0@ != entries[entries.len() - 1].0@);
        assert(entries_map(u) =~= entries_map(entries).insert(hash@, value@));
    }
}

/// Whether a file extension marks contract bytecode (`.so`).
pub fn is_bytecode_extension(extension: Option<&str>) -> (r: bool)
    ensures
        r == (match extension {
            Some(e) => e@ == seq!['s', 'o'],
            None => false,
        }),
{
    match extension {
        Some(e) => {
            if e.unicode_len() != 2 {
                return false;
            }
            let a = e.get_char(0);
            let b = e.get_char(1);
            let r = a == 's' && b == 'o';
            proof {
                if r {
                    assert(e@ =~= seq!['s', 'o']);
                }
            }
            r
        },
        None => false,
    }
}

// ---------------------------------------------------------------------------
// Requests
// ---------------------------------------------------------------------------

/// A deployment request as the factory reports it (hex strings).
pub struct DeploymentEvent {
    pub deployer: String,
    pub salt: String,
    pub bytecode_hash: String,
    pub predicted_address: String,
}

/// Why a request cannot be served.
#[derive(Clone, Copy, PartialEq, Eq, Structural, Debug)]
pub enum DeployError {
    /// The hash or the salt is not valid hex.
    InvalidHex,
    /// The hash does not decode to 32 bytes.
    InvalidHashLength,
    /// No bytecode is stored under the hash.
    BytecodeNotFound,
    /// The salt does not decode to 32 bytes.
    InvalidSaltLength,
}

impl DeployError {
    /// The message the service reports.
    pub fn message(&self) -> (r: &'static str)
        ensures
            r@ == match *self {
                DeployError::InvalidHex => "Invalid hex string"@,
                DeployError::InvalidHashLength => "Invalid bytecode hash length"@,
                DeployError::BytecodeNotFound => "Bytecode not found in storage"@,
                DeployError::InvalidSaltLength => "Invalid salt length"@,
            },
    {
        match self {
            DeployError::InvalidHex => "Invalid hex string",
            DeployError::InvalidHashLength => "Invalid bytecode hash length",
            DeployError::BytecodeNotFound => "Bytecode not found in storage",
            DeployError::InvalidSaltLength => "Invalid salt length",
        }
    }
}

/// The client of the chain's RPC endpoint.
pub struct TosClient {
    pub rpc_url: String,
}

impl TosClient {
    pub fn new(rpc_url: String) -> (r: TosClient)
        ensures
            r.rpc_url@ == rpc_url@,
    {
        TosClient { rpc_url }
    }
}

/// A stream of deployment requests.
pub struct EventStream {}

impl EventStream {
    pub fn new() -> (r: EventStream) {
        EventStream {}
    }
}

/// The deployment service: a client, the bytecodes and the factory served.
pub struct DeploymentHandler {
    pub client: TosClient,
    pub storage: BytecodeStorage,
    pub factory_address: String,
}

/// What serving a request with hex hash `hash` and hex salt `salt` gives,
/// given the stored bytecodes: the bytecode and the salt, or why not.
pub open spec fn plan_outcome(stored: Map<Seq<u8>, Seq<u8>>, hash: Seq<char>, salt: Seq<char>) -> Result<(Seq<u8>, Seq<u8>), DeployError> {
    match hex_decoding(hash) {
        None => Err(DeployError::InvalidHex),
        Some(h) => if h.len() != 32 {
            Err(DeployError::InvalidHashLength)
        } else if !stored.contains_key(h) {
            Err(DeployError::BytecodeNotFound)
        } else {
            match hex_decoding(salt) {
                None => Err(DeployError::InvalidHex),
                Some(s) => if s.len() != 32 {
                    Err(DeployError::InvalidSaltLength)
                } else {
                    Ok((stored[h], s))
                },
            }
        },
    }
}

/// `salt` as an array, when it has 32 bytes.
fn to_array32(v: &Vec<u8>) -> (r: [u8; 32])
    requires
        v@.len() == 32,
    ensures
        r@ == v@,
{
    crate::bytes::address_at(v.as_slice(), 0)
}

impl DeploymentHandler {
    pub fn new(client: TosClient, storage: BytecodeStorage, factory_address: String) -> (r: DeploymentHandler)
        ensures
            r.client == client,
            r.storage == storage,
            r.factory_address == factory_address,
    {
        DeploymentHandler { client, storage, factory_address }
    }

    /// Checks a request: decodes the hash and the salt, finds the bytecode.
    pub fn plan_deployment(&self, event: &DeploymentEvent) -> (r: Result<(&Vec<u8>, [u8; 32]), DeployError>)
        requires
            self.storage.well_formed(),
        ensures
            match r {
                Ok((code, salt)) => plan_outcome(self.storage@, event.bytecode_hash@, event.salt@)
                    == Ok::<(Seq<u8>, Seq<u8>), DeployError>((code@, salt@)),
                Err(e) => plan_outcome(self.storage@, event.bytecode_hash@, event.salt@) == Err::<
                    (Seq<u8>, Seq<u8>),
                    DeployError,
                >(e),
            },
    {
        let bytecode_hash = match hex_decode(event.bytecode_hash.as_str()) {
            Ok(b) => b,
            Err(_) => return Err(DeployError::InvalidHex),
        };
        if bytecode_hash.len() != 32 {
            return Err(DeployError::InvalidHashLength);
        }
        let hash = to_array32(&bytecode_hash);
        let bytecode = match self.storage.get_bytecode(&hash) {
            Some(b) => b,
            None => return Err(DeployError::BytecodeNotFound),
        };
        let salt_bytes = match hex_decode(event.salt.as_str()) {
            Ok(b) => b,
            Err(_) => return Err(DeployError::InvalidHex),
        };
        if salt_bytes.len() != 32 {
            return Err(DeployError::InvalidSaltLength);
        }
        let salt = to_array32(&salt_bytes);
        Ok((bytecode, salt))
    }
}

/// The transaction hash the deployment reports: `0x` and the hex of the
/// salt's first 16 bytes.
pub fn transaction_hash(salt: &[u8; 32]) -> (r: String)
    ensures
        r@ == seq!['0', 'x'] + hex_encoding(salt@.subrange(0, 16)),
{
    let head = crate::bytes::copy_range(salt.as_slice(), 0, 16);
    let digits = hex_encode(head.as_slice());
    let mut s = String::from_str("0x");
    proof {
        reveal_strlit("0x");
    }
    s.append(digits.as_str());
    s
}

// ---------------------------------------------------------------------------
// Laws
// ---------------------------------------------------------------------------

/// Each hexadecimal digit reads back as its value.
proof fn lemma_hex_digit_char(x: u8)
    requires
        x < 16,
    ensures
        hex_digit(hex_char(x)) == Some(x),
{
    if x < 10 {
        assert(hex_char(x) == (x + 48) as char);
        assert('0' <= hex_char(x) && hex_char(x) <= '9');
    } else {
        assert(hex_char(x) == (x + 87) as char);
        assert(!('0' <= hex_char(x) && hex_char(x) <= '9'));
        assert('a' <= hex_char(x) && hex_char(x) <= 'f');
    }
}

/// Hex decoding undoes hex encoding.
pub proof fn lemma_hex_roundtrip(b: Seq<u8>)
    ensures
        hex_decoding(hex_encoding(b)) == Some(b),
{
    let e = hex_encoding(b);
    assert forall|i: int| 0 <= i < e.len() implies (#[trigger] hex_digit(e[i])) is Some by {
        if i % 2 == 0 {
            lemma_hex_digit_char(b[i / 2] / 16);
        } else {
            lemma_hex_digit_char(b[i / 2] % 16);
        }
    }
    let d = hex_decoding(e)->0;
    assert forall|i: int| 0 <= i < b.len() implies d[i] == b[i] by {
        assert((2 * i) / 2 == i && (2 * i) % 2 == 0);
        assert((2 * i + 1) / 2 == i && (2 * i + 1) % 2 == 1);
        lemma_hex_digit_char(b[i] / 16);
        lemma_hex_digit_char(b[i] % 16);
        assert(hex_digit(e[2 * i])->0 == b[i] / 16);
        assert(hex_digit(e[2 * i + 1])->0 == b[i] % 16);
    }
    assert(d =~= b);
}

/// A request relayed to the service as the hex of its bytecode hash and
/// salt, with that bytecode loaded, is planned as the deployment of that
/// bytecode under that salt.
pub proof fn law_relayed_request_planned(stored: Map<Seq<u8>, Seq<u8>>, hash: Seq<u8>, salt: Seq<u8>)
    requires
        hash.len() == 32,
        salt.len() == 32,
        stored.contains_key(hash),
    ensures
        plan_outcome(stored, hex_encoding(hash), hex_encoding(salt)) == Ok::<(Seq<u8>, Seq<u8>), DeployError>(
            (stored[hash], salt),
        ),
{
    lemma_hex_roundtrip(hash);
    lemma_hex_roundtrip(salt);
}

} // verus!
