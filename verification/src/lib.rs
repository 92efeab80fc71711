//! A verified Proof of History (PoH) hash chain.
//!
//! A PoH chain encodes the relative passage of discrete time steps ("ticks")
//! between events without a trusted clock: each tick is produced by iterated
//! self-hashing of the previous tick's output, and optional application data
//! can be bound to a tick, pinning it to one position in the chain. Anyone
//! holding the chain can recompute it from the seed and check that the claimed
//! number of ticks genuinely elapsed.

pub mod extensions;
pub mod hashing;
pub mod prelude;
pub mod timestamps;

use vstd::prelude::*;

verus! {

/// A source of the 64 bytes of initial entropy that anchor a chain. The
/// engine only consumes seeds; how one is generated is the implementor's
/// affair.
pub trait Seedable {
    /// Produces a fresh seed.
    fn generate_seed() -> [u8; 64];

    /// The seed currently held.
    fn get_seed(&self) -> [u8; 64];

    /// Replaces the seed held.
    fn set_seed(&mut self, seed: [u8; 64]);
}

/// A supplier of event digests: application data condensed to a 32-byte hash
/// before it is bound to a chain entry.
pub trait EventData {
    /// Hashes the given event data.
    fn hash_event_data(data: &[u8]) -> [u8; 32];
}

/// The initial entropy anchoring a chain: exactly 64 bytes, consumed once at
/// construction. Two chains agree entry-by-entry only if they were built from
/// the same seed, configuration, and tick inputs.
#[derive(Debug, Clone, Copy, PartialEq, Eq, Hash)]
pub struct InitialSeed(pub [u8; 64]);

/// A 32-byte event digest, as bound to a chain entry under the event-hash
/// entry policies.
#[derive(Debug, Clone, Copy, PartialEq, Eq, Hash)]
pub struct EventHash {
    /// The digest bytes.
    pub hash: [u8; 32],
}

/// What a failed chain operation reports. Every failure is surfaced as one of
/// these; none is silently recovered, and a failed operation never leaves the
/// chain partially mutated.
#[derive(Debug, Clone, Copy, PartialEq, Eq, Hash)]
pub enum PoHError {
    /// An action was requested that contradicts the declared configuration.
    ConfigViolation,
    /// A tick's data presence or absence conflicts with the entry flags.
    EntryPolicyViolation,
    /// Bound data's length does not match the configured entry-type policy.
    EntryShapeMismatch,
    /// The chain has reached its capacity; no further ticks are accepted.
    CapacityExceeded,
    /// Independent recomputation diverged from the claimed chain, first at
    /// the carried index.
    VerificationMismatch(usize),
}

/// What application-data shape, if any, may be bound to a tick.
#[derive(Debug, Clone, Copy, PartialEq, Eq, Hash)]
pub enum TickEntryType {
    /// Arbitrary data entries.
    Data,
    /// Entries with no bound data.
    Empty,
    /// Byte-string entries.
    ByteString,
    /// UTF-8 string entries.
    UTF8String,
    /// Bound data must be a hash of exactly the given byte length.
    FixedHash(usize),
    /// Bound data must be a 28-byte event hash.
    EventHash28,
    /// Bound data must be a 32-byte event hash.
    EventHash32,
    /// Bound data must be a 48-byte event hash.
    EventHash48,
    /// Bound data must be a 64-byte event hash.
    EventHash64,
}

/// Immutable parameters governing a chain's behavior.
#[derive(Debug, Clone, Copy, PartialEq, Eq, Hash)]
pub struct PoHConfig {
    /// Declared digest output size in bytes, kept as metadata.
    pub output_size: usize,
    /// Chained hash applications per tick: the "work" that makes an
    /// elapsed-tick claim verifiable. A tick that performed none would not
    /// advance the hash state, so zero is rejected at construction.
    pub tick_interval: u64,
    /// Capacity: the greatest number of entries that may follow the genesis
    /// entry, or `None` for an unbounded chain.
    pub max_entries: Option<usize>,
    /// Whether ticks may bind application data.
    pub allow_data_entries: bool,
    /// Whether ticks may go without bound data.
    pub allow_empty_entries: bool,
    /// The shape constraint on bound data.
    pub tick_entry_type: TickEntryType,
}

impl PoHConfig {
    /// A configuration the engine can work under: at least one hash
    /// application per tick, and at least one of the entry kinds admitted
    /// (with both forbidden, no entry beyond genesis could ever be built).
    pub open spec fn valid(self) -> bool {
        &&& self.tick_interval > 0
        &&& (self.allow_data_entries || self.allow_empty_entries)
    }

    /// Builds a configuration, rejecting contradictory parameters rather
    /// than silently accepting them.
    pub fn new(
        output_size: usize,
        tick_interval: u64,
        max_entries: Option<usize>,
        allow_data_entries: bool,
        allow_empty_entries: bool,
        tick_entry_type: TickEntryType,
    ) -> (r: Result<Self, PoHError>)
        ensures
            r is Ok <==> (tick_interval > 0 && (allow_data_entries || allow_empty_entries)),
            r matches Ok(c) ==> c == (PoHConfig {
                output_size,
                tick_interval,
                max_entries,
                allow_data_entries,
                allow_empty_entries,
                tick_entry_type,
            }),
            r matches Err(e) ==> e == PoHError::ConfigViolation,
    {
        if tick_interval == 0 {
            return Err(PoHError::ConfigViolation);
        }
        if !allow_data_entries && !allow_empty_entries {
            return Err(PoHError::ConfigViolation);
        }
        Ok(
            Self {
                output_size,
                tick_interval,
                max_entries,
                allow_data_entries,
                allow_empty_entries,
                tick_entry_type,
            },
        )
    }
}

/// Additional data bound to exactly one chain entry at creation time,
/// immutable thereafter.
#[derive(Debug, Clone, PartialEq, Eq, Hash)]
pub struct AppendedData {
    data: Vec<u8>,
}

impl View for AppendedData {
    type V = Seq<u8>;

    closed spec fn view(&self) -> Seq<u8> {
        self.data@
    }
}

impl AppendedData {
    pub fn new(data: Vec<u8>) -> (r: Self)
        ensures
            r@ == data@,
    {
        Self { data }
    }

    pub fn get_data(&self) -> (r: &[u8])
        ensures
            r@ == self@,
    {
        self.data.as_slice()
    }
}

/// One position in the chain: the tick's terminal digest, and the data bound
/// to this position, if any. Bound data is recorded alongside — not hashed
/// into — the digest.
#[derive(Debug, Clone, PartialEq, Eq, Hash)]
pub struct PoHEntry {
    /// The hash this position carries.
    pub hash: Vec<u8>,
    /// Data bound to this position, if any.
    pub appended_data: Option<AppendedData>,
}

/// The bytes bound to an entry, if any, as a sequence.
pub open spec fn data_view(d: Option<AppendedData>) -> Option<Seq<u8>> {
    match d {
        Some(a) => Some(a@),
        None => None,
    }
}

/// The bytes of an optional owned buffer, as a sequence.
pub open spec fn opt_bytes_view(d: Option<Vec<u8>>) -> Option<Seq<u8>> {
    match d {
        Some(v) => Some(v@),
        None => None,
    }
}

/// What the genesis digest is computed over: the seed bytes, extended by the
/// initial data bytes when initial data is present.
pub open spec fn genesis_input(seed: Seq<u8>, init_data: Option<Seq<u8>>) -> Seq<u8> {
    match init_data {
        Some(d) => seed + d,
        None => seed,
    }
}

/// `n` chained applications of SHA-256 to `h`: the digest after one tick of
/// `n` iterations starting from `h`.
pub open spec fn iterated_hash(h: Seq<u8>, n: nat) -> Seq<u8>
    decreases n,
{
    if n == 0 {
        h
    } else {
        hashing::sha256_of(iterated_hash(h, (n - 1) as nat))
    }
}

/// Whether consecutive entries are linked by the tick algorithm: each entry
/// after the first carries the `interval`-fold hash of its predecessor's
/// hash.
pub open spec fn linked(entries: Seq<PoHEntry>, interval: u64) -> bool {
    forall|i: int|
        1 <= i < entries.len() ==> #[trigger] entries[i].hash@ == iterated_hash(
            entries[i - 1].hash@,
            interval as nat,
        )
}

/// Whether `entries` is exactly the chain that `(seed, interval)` and the
/// recorded bound data determine: a genesis entry hashing the seed together
/// with its own bound data, and every later entry linked to its predecessor
/// by iterated hashing.
pub open spec fn is_hash_chain(entries: Seq<PoHEntry>, seed: Seq<u8>, interval: u64) -> bool {
    &&& entries.len() >= 1
    &&& entries[0].hash@ == hashing::sha256_of(
        genesis_input(seed, data_view(entries[0].appended_data)),
    )
    &&& linked(entries, interval)
}

/// The hash an independent recomputation expects at position `i`, given the
/// seed and the bound data the entries themselves record.
pub open spec fn expected_hash(
    entries: Seq<PoHEntry>,
    seed: Seq<u8>,
    interval: u64,
    i: int,
) -> Seq<u8>
    decreases i,
{
    if i <= 0 {
        hashing::sha256_of(genesis_input(seed, data_view(entries[0].appended_data)))
    } else {
        iterated_hash(expected_hash(entries, seed, interval, i - 1), interval as nat)
    }
}

/// Copies a byte buffer.
fn clone_bytes(v: &Vec<u8>) -> (r: Vec<u8>)
    ensures
        r@ == v@,
{
    let mut r: Vec<u8> = Vec::new();
    let mut i: usize = 0;
    while i < v.len()
        invariant
            i <= v@.len(),
            r@ == v@.subrange(0, i as int),
        decreases v@.len() - i,
    {
        r.push(v[i]);
        i = i + 1;
    }
    proof {
        assert(r@ =~= v@);
    }
    r
}

/// Whether two byte buffers hold the same bytes.
fn bytes_eq(a: &Vec<u8>, b: &Vec<u8>) -> (r: bool)
    ensures
        r == (a@ == b@),
{
    if a.len() != b.len() {
        return false;
    }
    let mut i: usize = 0;
    while i < a.len()
        invariant
            i <= a@.len(),
            a@.len() == b@.len(),
            forall|j: int| 0 <= j < i ==> a@[j] == b@[j],
        decreases a@.len() - i,
    {
        if a[i] != b[i] {
            return false;
        }
        i = i + 1;
    }
    proof {
        assert(a@ =~= b@);
    }
    true
}

/// `n` chained SHA-256 applications starting from `h`: the work of one tick.
fn iterate_ticks(h: &Vec<u8>, n: u64) -> (r: Vec<u8>)
    ensures
        r@ == iterated_hash(h@, n as nat),
{
    let mut cur = clone_bytes(h);
    let mut j: u64 = 0;
    while j < n
        invariant
            j <= n,
            cur@ == iterated_hash(h@, j as nat),
        decreases n - j,
    {
        cur = hashing::sha256_digest(&cur);
        j = j + 1;
    }
    cur
}

impl PoHEntry {
    /// Renders this entry's hash as a lowercase hexadecimal string, two
    /// digits per byte. A pure formatting operation for display.
    pub fn to_hex_string(&self) -> (r: String)
        ensures
            hashing::is_hex_encoding(self.hash@, r@),
    {
        hashing::hex_encode(&self.hash)
    }
}

/// The bytes of a seed, as an owned buffer.
fn seed_bytes(seed: &InitialSeed) -> (r: Vec<u8>)
    ensures
        r@ == seed.0@,
{
    let mut r: Vec<u8> = Vec::new();
    let mut i: usize = 0;
    while i < 64
        invariant
            i <= 64,
            seed.0@.len() == 64,
            r@ == seed.0@.subrange(0, i as int),
        decreases 64 - i,
    {
        r.push(seed.0[i]);
        i = i + 1;
    }
    proof {
        assert(r@ =~= seed.0@);
    }
    r
}

/// Appends all bytes of `s` to `v`.
fn push_all(v: &mut Vec<u8>, s: &[u8])
    ensures
        final(v)@ == old(v)@ + s@,
{
    let mut i: usize = 0;
    while i < s.len()
        invariant
            i <= s@.len(),
            v@ == old(v)@ + s@.subrange(0, i as int),
        decreases s@.len() - i,
    {
        v.push(s[i]);
        i = i + 1;
    }
    proof {
        assert(v@ =~= old(v)@ + s@);
    }
}

/// Whether a tick's data presence or absence is admitted by the entry flags.
pub open spec fn tick_policy_ok(c: PoHConfig, d: Option<Seq<u8>>) -> bool {
    match d {
        Some(_) => c.allow_data_entries,
        None => c.allow_empty_entries,
    }
}

/// Whether a tick's bound data, if present, has the length the entry-type
/// policy declares.
pub open spec fn tick_shape_ok(c: PoHConfig, d: Option<Seq<u8>>) -> bool {
    match d {
        None => true,
        Some(bytes) => match c.tick_entry_type {
            TickEntryType::FixedHash(n) => bytes.len() == n,
            TickEntryType::EventHash28 => bytes.len() == 28,
            TickEntryType::EventHash32 => bytes.len() == 32,
            TickEntryType::EventHash48 => bytes.len() == 48,
            TickEntryType::EventHash64 => bytes.len() == 64,
            _ => true,
        },
    }
}

/// Whether a chain of `chain_len` entries has used up its capacity: the
/// entries beyond genesis have reached `max_entries`.
pub open spec fn at_capacity(c: PoHConfig, chain_len: int) -> bool {
    match c.max_entries {
        Some(m) => chain_len - 1 >= m,
        None => false,
    }
}

/// The error a tick reports, by precedence: entry policy first, then data
/// shape, then capacity (the remaining way a tick can fail).
pub open spec fn tick_error(c: PoHConfig, d: Option<Seq<u8>>) -> PoHError {
    if !tick_policy_ok(c, d) {
        PoHError::EntryPolicyViolation
    } else if !tick_shape_ok(c, d) {
        PoHError::EntryShapeMismatch
    } else {
        PoHError::CapacityExceeded
    }
}

/// The engine: a chain's configuration and its growing, append-only entry
/// sequence, advanced one tick at a time. Each tick strictly depends on the
/// previous tick's output; a caller advancing one chain from several threads
/// must serialize the calls itself.
#[derive(Debug, Clone, PartialEq, Eq, Hash)]
pub struct PoHUsage {
    id: u64,
    config: PoHConfig,
    state: Vec<PoHEntry>,
    extensions: Vec<extensions::Extensions>,
}

impl PoHUsage {
    /// The chain's opaque identifier.
    pub closed spec fn spec_id(self) -> u64 {
        self.id
    }

    /// The governing configuration.
    pub closed spec fn spec_config(self) -> PoHConfig {
        self.config
    }

    /// The ordered entry sequence.
    pub closed spec fn entries(self) -> Seq<PoHEntry> {
        self.state@
    }

    /// The attached extension tags.
    pub closed spec fn spec_extensions(self) -> Seq<extensions::Extensions> {
        self.extensions@
    }

    /// Well-formedness: a chain always holds at least its genesis entry, and
    /// its configuration is free of contradictions. Construction establishes
    /// this and every operation preserves it.
    pub open spec fn wf(self) -> bool {
        &&& self.entries().len() >= 1
        &&& self.spec_config().valid()
    }

    /// Builds a chain from a seed: the genesis hash is the digest of the seed
    /// bytes, extended by the initial data bytes when initial data is given —
    /// applied once, not iterated. Initial data against a configuration that
    /// forbids data entries is rejected, never silently dropped; so is a
    /// contradictory configuration.
    pub fn new(
        config: PoHConfig,
        seed: InitialSeed,
        init_data: Option<Vec<u8>>,
        extensions: Vec<extensions::Extensions>,
    ) -> (r: Result<Self, PoHError>)
        ensures
            r is Ok <==> (config.valid() && (init_data is Some ==> config.allow_data_entries)),
            r matches Err(e) ==> e == PoHError::ConfigViolation,
            r matches Ok(c) ==> {
                &&& c.wf()
                &&& c.spec_id() == 0
                &&& c.spec_config() == config
                &&& c.spec_extensions() == extensions@
                &&& c.entries().len() == 1
                &&& c.entries()[0].hash@ == hashing::sha256_of(
                    genesis_input(seed.0@, opt_bytes_view(init_data)),
                )
                &&& data_view(c.entries()[0].appended_data) == opt_bytes_view(init_data)
                &&& is_hash_chain(c.entries(), seed.0@, config.tick_interval)
            },
    {
        if config.tick_interval == 0 {
            return Err(PoHError::ConfigViolation);
        }
        if !config.allow_data_entries && !config.allow_empty_entries {
            return Err(PoHError::ConfigViolation);
        }
        if init_data.is_some() && !config.allow_data_entries {
            return Err(PoHError::ConfigViolation);
        }
        let mut input = seed_bytes(&seed);
        let appended: Option<AppendedData> = match init_data {
            Some(d) => {
                push_all(&mut input, d.as_slice());
                Some(AppendedData::new(d))
            },
            None => None,
        };
        let hash = hashing::sha256_digest(&input);
        let entry = PoHEntry { hash, appended_data: appended };
        let mut state: Vec<PoHEntry> = Vec::new();
        state.push(entry);
        Ok(Self { id: 0, config, state, extensions })
    }

    /// The chain's opaque identifier, assigned at construction.
    pub fn get_id(&self) -> (r: u64)
        ensures
            r == self.spec_id(),
    {
        self.id
    }

    /// The configuration the chain was built with.
    pub fn get_config(&self) -> (r: &PoHConfig)
        ensures
            *r == self.spec_config(),
    {
        &self.config
    }

    /// The entry sequence grown so far.
    pub fn get_state(&self) -> (r: &Vec<PoHEntry>)
        ensures
            r@ == self.entries(),
    {
        &self.state
    }

    /// Advances the chain by one tick: the last entry's hash is re-hashed
    /// `tick_interval` times, and the terminal digest is appended as a new
    /// entry, with `data` bound alongside it when supplied. The tick is
    /// accepted exactly when the data's presence obeys the entry flags, its
    /// length obeys the entry-type policy, and the chain has capacity left;
    /// otherwise the named error is returned and the chain is left exactly as
    /// it was — an entry is appended atomically or not at all.
    pub fn tick(&mut self, data: Option<Vec<u8>>) -> (r: Result<PoHEntry, PoHError>)
        requires
            old(self).wf(),
        ensures
            final(self).wf(),
            final(self).spec_id() == old(self).spec_id(),
            final(self).spec_config() == old(self).spec_config(),
            final(self).spec_extensions() == old(self).spec_extensions(),
            r is Ok <==> {
                &&& tick_policy_ok(old(self).spec_config(), opt_bytes_view(data))
                &&& tick_shape_ok(old(self).spec_config(), opt_bytes_view(data))
                &&& !at_capacity(old(self).spec_config(), old(self).entries().len() as int)
            },
            r is Err ==> final(self).entries() == old(self).entries(),
            r matches Err(e) ==> e == tick_error(old(self).spec_config(), opt_bytes_view(data)),
            r matches Ok(e) ==> {
                &&& final(self).entries().len() == old(self).entries().len() + 1
                &&& final(self).entries().subrange(0, old(self).entries().len() as int)
                    == old(self).entries()
                &&& e.hash@ == iterated_hash(
                    old(self).entries().last().hash@,
                    old(self).spec_config().tick_interval as nat,
                )
                &&& data_view(e.appended_data) == opt_bytes_view(data)
                &&& final(self).entries().last().hash@ == e.hash@
                &&& data_view(final(self).entries().last().appended_data) == opt_bytes_view(data)
            },
    {
        match &data {
            Some(d) => {
                if !self.config.allow_data_entries {
                    return Err(PoHError::EntryPolicyViolation);
                }
                let shape_ok: bool = match self.config.tick_entry_type {
                    TickEntryType::FixedHash(n) => d.len() == n,
                    TickEntryType::EventHash28 => d.len() == 28,
                    TickEntryType::EventHash32 => d.len() == 32,
                    TickEntryType::EventHash48 => d.len() == 48,
                    TickEntryType::EventHash64 => d.len() == 64,
                    _ => true,
                };
                if !shape_ok {
                    return Err(PoHError::EntryShapeMismatch);
                }
            },
            None => {
                if !self.config.allow_empty_entries {
                    return Err(PoHError::EntryPolicyViolation);
                }
            },
        }
        if let Some(m) = self.config.max_entries {
            if self.state.len() - 1 >= m {
                return Err(PoHError::CapacityExceeded);
            }
        }
        let last_idx = self.state.len() - 1;
        let hash = iterate_ticks(&self.state[last_idx].hash, self.config.tick_interval);
        let appended: Option<AppendedData> = match data {
            Some(d) => Some(AppendedData::new(d)),
            None => None,
        };
        let returned = PoHEntry { hash: clone_bytes(&hash), appended_data: clone_appended(&appended) };
        self.state.push(PoHEntry { hash, appended_data: appended });
        proof {
            assert(self.state@.subrange(0, old(self).entries().len() as int)
                =~= old(self).entries());
        }
        Ok(returned)
    }

    /// Recomputes this chain from the original seed and compares it entry by
    /// entry, as `verify_entries` does.
    pub fn verify(&self, seed: &InitialSeed) -> (r: Result<(), PoHError>)
        requires
            self.wf(),
        ensures
            r is Ok <==> matches_up_to(
                self.entries(),
                seed.0@,
                self.spec_config().tick_interval,
                self.entries().len() as int,
            ),
            r matches Err(e) ==> (e matches PoHError::VerificationMismatch(j) && 0 <= j
                < self.entries().len() && self.entries()[j as int].hash@ != expected_hash(
                self.entries(),
                seed.0@,
                self.spec_config().tick_interval,
                j as int,
            ) && matches_up_to(
                self.entries(),
                seed.0@,
                self.spec_config().tick_interval,
                j as int,
            )),
    {
        verify_entries(&self.state, seed, &self.config)
    }

    /// Runs the bulk advance: up to `max_entries` rounds (1000 when
    /// unbounded), each one a tick with no bound data, subject to the same
    /// entry-policy and capacity rules as `tick`. The advance stops at the
    /// first refused round and reports that round's error; every round before
    /// it stands appended.
    pub fn init(&mut self) -> (r: Result<(), PoHError>)
        requires
            old(self).wf(),
        ensures
            final(self).wf(),
            final(self).spec_id() == old(self).spec_id(),
            final(self).spec_config() == old(self).spec_config(),
            final(self).spec_extensions() == old(self).spec_extensions(),
            final(self).entries().len() == old(self).entries().len() + init_appended(
                old(self).spec_config(),
                old(self).entries().len() as int,
            ),
            final(self).entries().subrange(0, old(self).entries().len() as int)
                == old(self).entries(),
            forall|i: int|
                old(self).entries().len() <= i < final(self).entries().len()
                    ==> (#[trigger] final(self).entries()[i]).hash@ == iterated_hash(
                    final(self).entries()[i - 1].hash@,
                    old(self).spec_config().tick_interval as nat,
                ) && final(self).entries()[i].appended_data is None,
            r is Ok <==> (init_rounds(old(self).spec_config()) == 0
                || (old(self).spec_config().allow_empty_entries && init_appended(
                old(self).spec_config(),
                old(self).entries().len() as int,
            ) == init_rounds(old(self).spec_config()))),
            r matches Err(e) ==> e == tick_error(old(self).spec_config(), None),
    {
        let rounds: usize = match self.config.max_entries {
            Some(m) => m,
            None => 1000,
        };
        let ghost orig = *self;
        let mut k: usize = 0;
        while k < rounds
            invariant
                orig == *old(self),
                k <= rounds,
                rounds == init_rounds(orig.spec_config()),
                self.wf(),
                self.spec_id() == orig.spec_id(),
                self.spec_config() == orig.spec_config(),
                self.spec_extensions() == orig.spec_extensions(),
                orig.entries().len() >= 1,
                self.entries().len() == orig.entries().len() + k,
                self.entries().subrange(0, orig.entries().len() as int) == orig.entries(),
                forall|i: int|
                    orig.entries().len() <= i < self.entries().len() ==> (#[trigger] self.entries()[i]).hash@
                        == iterated_hash(
                        self.entries()[i - 1].hash@,
                        orig.spec_config().tick_interval as nat,
                    ) && self.entries()[i].appended_data is None,
                k > 0 ==> orig.spec_config().allow_empty_entries,
                k > 0 ==> !at_capacity(orig.spec_config(), orig.entries().len() + k - 1),
            decreases rounds - k,
        {
            let ghost before = *self;
            match self.tick(None) {
                Ok(_) => (),
                Err(e) => {
                    proof {
                        assert(init_appended(
                            orig.spec_config(),
                            orig.entries().len() as int,
                        ) == k);
                    }
                    return Err(e);
                },
            }
            proof {
                assert(self.entries().subrange(0, orig.entries().len() as int) =~= orig.entries());
                assert forall|i: int|
                    orig.entries().len() <= i < self.entries().len() implies (#[trigger] self.entries()[i]).hash@
                        == iterated_hash(
                        self.entries()[i - 1].hash@,
                        orig.spec_config().tick_interval as nat,
                    ) && self.entries()[i].appended_data is None by {
                    if i < before.entries().len() {
                        assert(self.entries()[i] == before.entries()[i]);
                        assert(self.entries()[i - 1] == before.entries()[i - 1]);
                    } else {
                        assert(self.entries()[i - 1] == before.entries().last());
                    }
                }
            }
            k = k + 1;
        }
        proof {
            assert(init_appended(orig.spec_config(), orig.entries().len() as int) == rounds);
        }
        Ok(())
    }
}

/// The number of rounds one bulk advance attempts: the configured capacity,
/// or 1000 for an unbounded chain.
pub open spec fn init_rounds(c: PoHConfig) -> nat {
    match c.max_entries {
        Some(m) => m as nat,
        None => 1000 as nat,
    }
}

/// The number of entries one bulk advance appends before it finishes or is
/// refused: the full `init_rounds` goal when empty ticks are admitted and
/// capacity allows, only the rounds that fit under `max_entries` otherwise,
/// and none at all when empty entries are disallowed.
pub open spec fn init_appended(c: PoHConfig, chain_len: int) -> nat {
    if init_rounds(c) == 0 || !c.allow_empty_entries {
        0
    } else {
        match c.max_entries {
            Some(m) => if chain_len - 1 >= m {
                0 as nat
            } else {
                (m - (chain_len - 1)) as nat
            },
            None => 1000 as nat,
        }
    }
}

/// Whether the first `n` entries each carry the hash an independent
/// recomputation expects at their position.
pub open spec fn matches_up_to(entries: Seq<PoHEntry>, seed: Seq<u8>, interval: u64, n: int) -> bool {
    forall|i: int|
        0 <= i < n ==> (#[trigger] entries[i]).hash@ == expected_hash(entries, seed, interval, i)
}

/// Recomputes a claimed chain from the original seed and configuration and
/// compares it entry by entry: the genesis digest from the seed and the data
/// the genesis entry records, then each tick's iterated hashing anew. Returns
/// the index of the first divergence, if any — a divergence signals forged
/// entries or a different iteration count, and is never silently accepted.
pub fn verify_entries(
    entries: &Vec<PoHEntry>,
    seed: &InitialSeed,
    config: &PoHConfig,
) -> (r: Result<(), PoHError>)
    requires
        entries@.len() >= 1,
    ensures
        r is Ok <==> matches_up_to(
            entries@,
            seed.0@,
            config.tick_interval,
            entries@.len() as int,
        ),
        r matches Err(e) ==> (e matches PoHError::VerificationMismatch(j) && 0 <= j
            < entries@.len() && entries@[j as int].hash@ != expected_hash(
            entries@,
            seed.0@,
            config.tick_interval,
            j as int,
        ) && matches_up_to(entries@, seed.0@, config.tick_interval, j as int)),
{
    let mut input = seed_bytes(seed);
    match &entries[0].appended_data {
        Some(a) => push_all(&mut input, a.get_data()),
        None => (),
    }
    let mut expected = hashing::sha256_digest(&input);
    if !bytes_eq(&entries[0].hash, &expected) {
        return Err(PoHError::VerificationMismatch(0));
    }
    let mut i: usize = 1;
    while i < entries.len()
        invariant
            1 <= i <= entries@.len(),
            expected@ == expected_hash(entries@, seed.0@, config.tick_interval, i - 1),
            matches_up_to(entries@, seed.0@, config.tick_interval, i as int),
        decreases entries@.len() - i,
    {
        expected = iterate_ticks(&expected, config.tick_interval);
        if !bytes_eq(&entries[i].hash, &expected) {
            return Err(PoHError::VerificationMismatch(i));
        }
        i = i + 1;
    }
    Ok(())
}

/// Copies an entry's optional bound data.
fn clone_appended(d: &Option<AppendedData>) -> (r: Option<AppendedData>)
    ensures
        data_view(r) == data_view(*d),
{
    match d {
        Some(a) => Some(AppendedData { data: clone_bytes(&a.data) }),
        None => None,
    }
}

proof fn lemma_chain_entry_expected(entries: Seq<PoHEntry>, seed: Seq<u8>, interval: u64, i: int)
    requires
        is_hash_chain(entries, seed, interval),
        0 <= i < entries.len(),
    ensures
        entries[i].hash@ == expected_hash(entries, seed, interval, i),
    decreases i,
{
    if i > 0 {
        lemma_chain_entry_expected(entries, seed, interval, i - 1);
    }
}

/// Verification round-trip: a chain that the seed, the iteration count, and
/// the recorded bound data actually determine passes independent
/// recomputation at every index — its divergence count is zero.
pub proof fn lemma_verify_round_trip(entries: Seq<PoHEntry>, seed: Seq<u8>, interval: u64)
    requires
        is_hash_chain(entries, seed, interval),
    ensures
        matches_up_to(entries, seed, interval, entries.len() as int),
{
    assert forall|i: int| 0 <= i < entries.len() implies (#[trigger] entries[i]).hash@
        == expected_hash(entries, seed, interval, i) by {
        lemma_chain_entry_expected(entries, seed, interval, i);
    }
}

/// Chain extension: appending one entry whose hash is the iterated hash of
/// the last entry — exactly what a successful tick ensures — keeps the chain
/// one that its seed and iteration count determine.
pub proof fn lemma_chain_extend(
    pre: Seq<PoHEntry>,
    post: Seq<PoHEntry>,
    seed: Seq<u8>,
    interval: u64,
)
    requires
        is_hash_chain(pre, seed, interval),
        post.len() == pre.len() + 1,
        post.subrange(0, pre.len() as int) == pre,
        post.last().hash@ == iterated_hash(pre.last().hash@, interval as nat),
    ensures
        is_hash_chain(post, seed, interval),
{
    assert forall|i: int| 0 <= i < pre.len() implies post[i] == pre[i] by {
        assert(post.subrange(0, pre.len() as int)[i] == post[i]);
    }
    assert forall|i: int| 1 <= i < post.len() implies (#[trigger] post[i]).hash@ == iterated_hash(
        post[i - 1].hash@,
        interval as nat,
    ) by {
        if i < pre.len() {
            assert(pre[i].hash@ == iterated_hash(pre[i - 1].hash@, interval as nat));
        } else {
            assert(post[i] == post.last());
            assert(post[i - 1] == pre.last());
        }
    }
}

proof fn lemma_expected_same(
    a: Seq<PoHEntry>,
    b: Seq<PoHEntry>,
    seed: Seq<u8>,
    interval: u64,
    i: int,
)
    requires
        a.len() >= 1,
        b.len() >= 1,
        data_view(a[0].appended_data) == data_view(b[0].appended_data),
    ensures
        expected_hash(a, seed, interval, i) == expected_hash(b, seed, interval, i),
    decreases i,
{
    if i > 0 {
        lemma_expected_same(a, b, seed, interval, i - 1);
    }
}

/// Determinism: two chains over the same seed and iteration count whose
/// entries record the same bound data position by position carry identical
/// hashes position by position — a rerun of the same inputs reproduces the
/// chain byte for byte.
pub proof fn lemma_chain_deterministic(
    a: Seq<PoHEntry>,
    b: Seq<PoHEntry>,
    seed: Seq<u8>,
    interval: u64,
)
    requires
        is_hash_chain(a, seed, interval),
        is_hash_chain(b, seed, interval),
        a.len() == b.len(),
        forall|i: int|
            0 <= i < a.len() ==> data_view((#[trigger] a[i]).appended_data) == data_view(
                b[i].appended_data,
            ),
    ensures
        forall|i: int| 0 <= i < a.len() ==> (#[trigger] a[i]).hash@ == b[i].hash@,
{
    assert forall|i: int| 0 <= i < a.len() implies (#[trigger] a[i]).hash@ == b[i].hash@ by {
        lemma_chain_entry_expected(a, seed, interval, i);
        lemma_chain_entry_expected(b, seed, interval, i);
        assert(data_view(a[0].appended_data) == data_view(b[0].appended_data));
        lemma_expected_same(a, b, seed, interval, i);
    }
}

proof fn lemma_iterated_hash_add(h: Seq<u8>, m: nat, n: nat)
    ensures
        iterated_hash(h, m + n) == iterated_hash(iterated_hash(h, m), n),
    decreases n,
{
    if n > 0 {
        lemma_iterated_hash_add(h, m, (n - 1) as nat);
    }
}

proof fn lemma_chain_position(entries: Seq<PoHEntry>, seed: Seq<u8>, interval: u64, i: int)
    requires
        is_hash_chain(entries, seed, interval),
        0 <= i < entries.len(),
    ensures
        entries[i].hash@ == iterated_hash(
            hashing::sha256_of(genesis_input(seed, data_view(entries[0].appended_data))),
            (i * interval) as nat,
        ),
    decreases i,
{
    let g = hashing::sha256_of(genesis_input(seed, data_view(entries[0].appended_data)));
    if i > 0 {
        lemma_chain_position(entries, seed, interval, i - 1);
        assert((i - 1) * interval >= 0 && (i - 1) * interval + interval == i * interval)
            by (nonlinear_arith)
            requires
                i >= 1,
        ;
        lemma_iterated_hash_add(g, ((i - 1) * interval) as nat, interval as nat);
        assert(entries[i].hash@ == iterated_hash(entries[i - 1].hash@, interval as nat));
    } else {
        assert(i * interval == 0) by (nonlinear_arith)
            requires
                i == 0,
        ;
    }
}

/// Chain dependency across the suffix: two chains from the same genesis
/// entry but different iteration counts differ at every later position — a
/// changed iteration count changes the whole suffix. The hypothesis is that
/// the digests reached from the genesis hash never repeat; collision
/// resistance of the digest makes a repeat infeasible to exhibit, but no
/// statement here rules one out, so the hypothesis is carried explicitly.
pub proof fn lemma_chain_dependency(
    a: Seq<PoHEntry>,
    b: Seq<PoHEntry>,
    seed: Seq<u8>,
    interval_a: u64,
    interval_b: u64,
)
    requires
        is_hash_chain(a, seed, interval_a),
        is_hash_chain(b, seed, interval_b),
        data_view(a[0].appended_data) == data_view(b[0].appended_data),
        interval_a != interval_b,
        forall|m: nat, n: nat|
            m != n ==> #[trigger] iterated_hash(
                hashing::sha256_of(genesis_input(seed, data_view(a[0].appended_data))),
                m,
            ) != #[trigger] iterated_hash(
                hashing::sha256_of(genesis_input(seed, data_view(a[0].appended_data))),
                n,
            ),
    ensures
        forall|i: int| 1 <= i < a.len() && i < b.len() ==> (#[trigger] a[i]).hash@ != b[i].hash@,
{
    assert forall|i: int| 1 <= i < a.len() && i < b.len() implies (#[trigger] a[i]).hash@
        != b[i].hash@ by {
        lemma_chain_position(a, seed, interval_a, i);
        lemma_chain_position(b, seed, interval_b, i);
        assert(i * interval_a != i * interval_b) by (nonlinear_arith)
            requires
                i >= 1,
                interval_a != interval_b,
        ;
    }
}

} // verus!
