//! Administrative instructions on banks: their metadata record, the derivation of a bank's
//! address from its seed, and the backfills of flags and accounts on older banks.

use crate::state::{
    spec_default_key, Bank, MarginfiError, OracleSetup, Pubkey, ASSET_TAG_STAKED, BANK_SEED_KNOWN,
    IS_T22,
};
use vstd::prelude::*;

verus! {

/// Capacity of a bank's ticker, in bytes.
pub const TICKER_CAPACITY: usize = 64;

/// Capacity of a bank's description, in bytes.
pub const DESCRIPTION_CAPACITY: usize = 256;

/// The metadata record of a bank: its ticker and description, zero-padded, with the index of
/// the last byte written.
#[derive(PartialEq, Eq, Clone, Copy, Debug)]
pub struct BankMetadata {
    pub bank: Pubkey,
    pub bump: u8,
    pub ticker: [u8; TICKER_CAPACITY],
    pub description: [u8; DESCRIPTION_CAPACITY],
    /// Index of the ticker's last byte (0 when empty).
    pub end_ticker_byte: u8,
    /// Index of the description's last byte (0 when empty).
    pub end_description_byte: u16,
}

/// `bytes` followed by zeros, `cap` bytes in all.
pub open spec fn padded(bytes: Seq<u8>, cap: nat) -> Seq<u8> {
    Seq::new(cap, |i: int| if i < bytes.len() { bytes[i] } else { 0u8 })
}

/// The index of the last of `len` bytes, 0 when there are none.
pub open spec fn last_index(len: nat) -> int {
    if len == 0 {
        0
    } else {
        len - 1
    }
}

/// Whether a value is given and longer than `cap`.
pub open spec fn too_long(value: Option<Vec<u8>>, cap: nat) -> bool {
    match value {
        Some(v) => v@.len() > cap,
        None => false,
    }
}

/// Fills `field` with `bytes` followed by zeros.
fn fill_padded(field: &mut [u8], bytes: &Vec<u8>)
    requires
        bytes@.len() <= old(field)@.len(),
    ensures
        final(field)@ == padded(bytes@, old(field)@.len()),
{
    let n = field.len();
    let mut i: usize = 0;
    while i < n
        invariant
            i <= n == field@.len(),
            bytes@.len() <= n,
            forall|k: int| 0 <= k < i ==> #[trigger] field@[k] == if k < bytes@.len() {
                bytes@[k]
            } else {
                0u8
            },
        decreases n - i,
    {
        if i < bytes.len() {
            field[i] = bytes[i];
        } else {
            field[i] = 0;
        }
        i = i + 1;
    }
    assert(field@ == padded(bytes@, n as nat));
}

/// Writes the bank's ticker and description, where given: each is zero-padded to its capacity
/// and the index of its last byte recorded. A value longer than its capacity is refused with
/// `MetadataTooLong`; the ticker is written before the description is looked at.
pub fn write_bank_metadata(
    metadata: &mut BankMetadata,
    ticker: Option<Vec<u8>>,
    description: Option<Vec<u8>>,
) -> (r: Result<(), MarginfiError>)
    ensures
        final(metadata).bank == old(metadata).bank,
        final(metadata).bump == old(metadata).bump,
        too_long(ticker, TICKER_CAPACITY as nat) ==> r == Err::<(), MarginfiError>(
            MarginfiError::MetadataTooLong,
        ) && *final(metadata) == *old(metadata),
        !too_long(ticker, TICKER_CAPACITY as nat) ==> {
            &&& final(metadata).ticker@ == match ticker {
                Some(t) => padded(t@, TICKER_CAPACITY as nat),
                None => old(metadata).ticker@,
            }
            &&& final(metadata).end_ticker_byte == match ticker {
                Some(t) => last_index(t@.len()),
                None => old(metadata).end_ticker_byte as int,
            }
            &&& too_long(description, DESCRIPTION_CAPACITY as nat) ==> r == Err::<
                (),
                MarginfiError,
            >(MarginfiError::MetadataTooLong) && final(metadata).description == old(
                metadata,
            ).description && final(metadata).end_description_byte == old(
                metadata,
            ).end_description_byte
            &&& !too_long(description, DESCRIPTION_CAPACITY as nat) ==> {
                &&& r is Ok
                &&& final(metadata).description@ == match description {
                    Some(d) => padded(d@, DESCRIPTION_CAPACITY as nat),
                    None => old(metadata).description@,
                }
                &&& final(metadata).end_description_byte == match description {
                    Some(d) => last_index(d@.len()),
                    None => old(metadata).end_description_byte as int,
                }
            }
        },
{
    if let Some(bytes) = ticker {
        if bytes.len() > TICKER_CAPACITY {
            return Err(MarginfiError::MetadataTooLong);
        }
        fill_padded(&mut metadata.ticker, &bytes);
        metadata.end_ticker_byte = if bytes.len() == 0 {
            0
        } else {
            (bytes.len() - 1) as u8
        };
    }
    if let Some(bytes) = description {
        if bytes.len() > DESCRIPTION_CAPACITY {
            return Err(MarginfiError::MetadataTooLong);
        }
        fill_padded(&mut metadata.description, &bytes);
        metadata.end_description_byte = if bytes.len() == 0 {
            0
        } else {
            (bytes.len() - 1) as u16
        };
    }
    Ok(())
}

// ---------------------------------------------------------------------------------------------
// Program-derived addresses
// ---------------------------------------------------------------------------------------------

/// The address and bump seed that `Pubkey::try_find_program_address` derives from `seeds` and
/// the program id (bytes of each), or none.
pub uninterp spec fn program_address(seeds: Seq<Seq<u8>>, program_id: Seq<u8>) -> Option<(Seq<u8>, u8)>;

/// The address derived from `seeds` under `program_id`, if one is found.
pub open spec fn derived_address(seeds: Seq<Seq<u8>>, program_id: Seq<u8>) -> Option<Seq<u8>> {
    match program_address(seeds, program_id) {
        Some(found) => Some(found.0),
        None => None,
    }
}

/// `anchor_lang::prelude::Pubkey::try_find_program_address`: the first bump seed, counting down
/// from 255, for which the hash of the seeds, the bump, the program id and the PDA marker is no
/// point of the ed25519 curve, with that hash as an address; `None` when there are 16 or more
/// seeds, when a seed is longer than 32 bytes, or in the improbable event that no bump seed
/// gives an address off the curve. The result depends on the seeds and the program id alone.
#[verifier::external_body]
fn try_find_program_address(seeds: &Vec<Vec<u8>>, program_id: &[u8; 32]) -> (r: Option<([u8; 32], u8)>)
    ensures
        match r {
            Some(found) => program_address(seeds@.map_values(|s: Vec<u8>| s@), program_id@) == Some(
                (found.0@, found.1),
            ),
            None => program_address(seeds@.map_values(|s: Vec<u8>| s@), program_id@) is None,
        },
{
    let slices: Vec<&[u8]> = seeds.iter().map(|s| s.as_slice()).collect();
    let program = anchor_lang::prelude::Pubkey::new_from_array(*program_id);
    match anchor_lang::prelude::Pubkey::try_find_program_address(&slices, &program) {
        Some((address, bump)) => Some((address.to_bytes(), bump)),
        None => None,
    }
}

/// Word `j` of a key.
pub open spec fn key_word(k: Pubkey, j: int) -> u64 {
    if j == 0 {
        k.w0
    } else if j == 1 {
        k.w1
    } else if j == 2 {
        k.w2
    } else {
        k.w3
    }
}

/// Byte `i` of a key: the words are big-endian.
pub open spec fn key_byte(k: Pubkey, i: int) -> u8 {
    ((key_word(k, i / 8) >> (((7 - i % 8) * 8) as u64)) & 0xff) as u8
}

/// The 32 bytes of a key.
pub open spec fn key_bytes(k: Pubkey) -> Seq<u8> {
    Seq::new(32, |i: int| key_byte(k, i))
}

/// The eight little-endian bytes of a number.
pub open spec fn le_bytes(x: u64) -> Seq<u8> {
    Seq::new(8, |i: int| ((x >> ((i * 8) as u64)) & 0xff) as u8)
}

impl Pubkey {
    /// The key's 32 bytes.
    pub fn to_bytes(&self) -> (r: [u8; 32])
        ensures
            r@ == key_bytes(*self),
    {
        let mut out: [u8; 32] = [0u8; 32];
        let mut i: usize = 0;
        while i < 32
            invariant
                i <= 32,
                forall|k: int| 0 <= k < i ==> #[trigger] out@[k] == key_byte(*self, k),
            decreases 32 - i,
        {
            let w = if i < 8 {
                self.w0
            } else if i < 16 {
                self.w1
            } else if i < 24 {
                self.w2
            } else {
                self.w3
            };
            let shift = ((7 - i % 8) * 8) as u64;
            out[i] = ((w >> shift) & 0xff) as u8;
            i = i + 1;
        }
        assert(out@ == key_bytes(*self));
        out
    }

    /// Whether `bytes` are the key's bytes.
    pub fn has_bytes(&self, bytes: &[u8; 32]) -> (r: bool)
        ensures
            r == (key_bytes(*self) == bytes@),
    {
        let mine = self.to_bytes();
        let mut i: usize = 0;
        while i < 32
            invariant
                i <= 32,
                mine@ == key_bytes(*self),
                forall|k: int| 0 <= k < i ==> mine@[k] == bytes@[k],
            decreases 32 - i,
        {
            if mine[i] != bytes[i] {
                return false;
            }
            i = i + 1;
        }
        assert(mine@ == bytes@);
        true
    }
}

/// The little-endian bytes of a number.
fn to_le_bytes(x: u64) -> (r: Vec<u8>)
    ensures
        r@ == le_bytes(x),
{
    let mut out: Vec<u8> = Vec::new();
    let mut i: u64 = 0;
    while i < 8
        invariant
            i <= 8,
            out@.len() == i,
            forall|k: int| 0 <= k < i ==> #[trigger] out@[k] == ((x >> ((k * 8) as u64)) & 0xff) as u8,
        decreases 8 - i,
    {
        out.push(((x >> (i * 8)) & 0xff) as u8);
        i = i + 1;
    }
    assert(out@ == le_bytes(x));
    out
}

/// The key's bytes as a vector.
fn key_vec(k: &Pubkey) -> (r: Vec<u8>)
    ensures
        r@ == key_bytes(*k),
{
    let bytes = k.to_bytes();
    let mut out: Vec<u8> = Vec::new();
    let mut i: usize = 0;
    while i < 32
        invariant
            i <= 32,
            bytes@ == key_bytes(*k),
            out@ == bytes@.subrange(0, i as int),
        decreases 32 - i,
    {
        out.push(bytes[i]);
        i = i + 1;
    }
    assert(out@ == bytes@);
    out
}

/// The seeds of a bank's address: its group, its mint and its seed.
pub open spec fn bank_seeds(group: Pubkey, mint: Pubkey, bank_seed: u64) -> Seq<Seq<u8>> {
    seq![key_bytes(group), key_bytes(mint), le_bytes(bank_seed)]
}

/// The address of the bank of `group` and `mint` with seed `bank_seed`, under `program_id`;
/// `None` in the improbable event that no bump seed gives an address.
pub fn bank_address(group: &Pubkey, mint: &Pubkey, bank_seed: u64, program_id: &Pubkey) -> (r: Option<
    [u8; 32],
>)
    ensures
        match r {
            Some(a) => derived_address(bank_seeds(*group, *mint, bank_seed), key_bytes(*program_id))
                == Some(a@),
            None => derived_address(bank_seeds(*group, *mint, bank_seed), key_bytes(*program_id)) is None,
        },
{
    let mut seeds: Vec<Vec<u8>> = Vec::new();
    seeds.push(key_vec(group));
    seeds.push(key_vec(mint));
    seeds.push(to_le_bytes(bank_seed));
    assert(seeds@.map_values(|s: Vec<u8>| s@) =~= bank_seeds(*group, *mint, bank_seed));
    match try_find_program_address(&seeds, &program_id.to_bytes()) {
        Some((address, _bump)) => Some(address),
        None => None,
    }
}

/// A fresh metadata record of `bank`: empty ticker and description.
pub open spec fn fresh_metadata(m: BankMetadata, bank: Pubkey, bump: u8) -> bool {
    &&& m.bank == bank
    &&& m.bump == bump
    &&& m.ticker@ == Seq::new(TICKER_CAPACITY as nat, |i: int| 0u8)
    &&& m.description@ == Seq::new(DESCRIPTION_CAPACITY as nat, |i: int| 0u8)
    &&& m.end_ticker_byte == 0
    &&& m.end_description_byte == 0
}

/// Whether the account holds a bank with a known seed whose derived address is not `bank_key`.
pub open spec fn seed_mismatch(bank: Option<&Bank>, bank_key: Pubkey, program_id: Pubkey) -> bool {
    match bank {
        Some(b) => b.flags & BANK_SEED_KNOWN != 0 && derived_address(
            bank_seeds(b.group, b.mint, b.bank_seed),
            key_bytes(program_id),
        ) != Some(key_bytes(bank_key)),
        None => false,
    }
}

/// Creates the metadata record of the bank at `bank_key` (with the record's `bump`). When the
/// account holds a bank of this program (`bank`) whose seed is known, the bank's address is
/// derived from its group, mint and seed and must be `bank_key` (`InvalidBankAccount`
/// otherwise); an account that holds no bank yet, or a bank without a known seed, is trusted.
pub fn init_bank_metadata(bank_key: &Pubkey, bank: Option<&Bank>, program_id: &Pubkey, bump: u8) -> (r:
    Result<BankMetadata, MarginfiError>)
    ensures
        seed_mismatch(bank, *bank_key, *program_id) ==> r == Err::<BankMetadata, MarginfiError>(MarginfiError::InvalidBankAccount),
        !seed_mismatch(bank, *bank_key, *program_id) ==> (r matches Ok(m) && fresh_metadata(
            m,
            *bank_key,
            bump,
        )),
{
    if let Some(b) = bank {
        if b.flags & BANK_SEED_KNOWN != 0 {
            match bank_address(&b.group, &b.mint, b.bank_seed, program_id) {
                Some(expected) => {
                    if !bank_key.has_bytes(&expected) {
                        return Err(MarginfiError::InvalidBankAccount);
                    }
                },
                None => {
                    return Err(MarginfiError::InvalidBankAccount);
                },
            }
        }
    }
    let m = BankMetadata {
        bank: *bank_key,
        bump,
        ticker: [0u8; 64],
        description: [0u8; 256],
        end_ticker_byte: 0,
        end_description_byte: 0,
    };
    assert(m.ticker@ == Seq::new(TICKER_CAPACITY as nat, |i: int| 0u8));
    assert(m.description@ == Seq::new(DESCRIPTION_CAPACITY as nat, |i: int| 0u8));
    Ok(m)
}

/// The program under which a bank's seed is checked: staging when either this build or the
/// invoked program is staging, else mainnet.
pub open spec fn seed_program(this_program: Pubkey, invoked_program: Pubkey, staging_id: Pubkey, mainnet_id: Pubkey) -> Pubkey {
    if this_program == staging_id || invoked_program == staging_id {
        staging_id
    } else {
        mainnet_id
    }
}

/// What backfilling a pre-upgrade bank gives, on success the bank: with a seed given, the
/// bank's address derived under `program` must be `bank_key`, and the seed is recorded as known;
/// then a bank whose mint belongs to Token-2022 is flagged `IS_T22`.
pub open spec fn spec_backfill_t22(
    bank: Bank,
    bank_key: Pubkey,
    group_key: Pubkey,
    mint_key: Pubkey,
    mint_owner: Pubkey,
    bank_seed: Option<u64>,
    program: Pubkey,
    token_2022_id: Pubkey,
) -> Result<Bank, MarginfiError> {
    let derived_ok = match bank_seed {
        Some(seed) => derived_address(bank_seeds(group_key, mint_key, seed), key_bytes(program))
            == Some(key_bytes(bank_key)),
        None => true,
    };
    if !derived_ok {
        Err(MarginfiError::InvalidBankAccount)
    } else {
        let seeded = match bank_seed {
            Some(seed) => Bank { bank_seed: seed, flags: bank.flags | BANK_SEED_KNOWN, ..bank },
            None => bank,
        };
        if seeded.flags & IS_T22 == 0 && mint_owner == token_2022_id {
            Ok(Bank { flags: seeded.flags | IS_T22, ..seeded })
        } else {
            Ok(seeded)
        }
    }
}

/// The backfills are idempotent: running either one again on the bank it produced, with the
/// same inputs, gives that bank back.
pub proof fn lemma_backfills_are_idempotent(
    bank: Bank,
    bank_key: Pubkey,
    group_key: Pubkey,
    mint_key: Pubkey,
    mint_owner: Pubkey,
    bank_seed: Option<u64>,
    program: Pubkey,
    token_2022_id: Pubkey,
    vote: Pubkey,
    vote_owner: Pubkey,
    vote_program: Pubkey,
    single_pool_program: Pubkey,
)
    ensures
        spec_backfill_t22(bank, bank_key, group_key, mint_key, mint_owner, bank_seed, program, token_2022_id) matches Ok(
            b,
        ) ==> spec_backfill_t22(b, bank_key, group_key, mint_key, mint_owner, bank_seed, program, token_2022_id)
            == Ok::<Bank, MarginfiError>(b),
        spec_backfill_vote(bank, vote, vote_owner, vote_program, single_pool_program) matches Ok(b)
            ==> spec_backfill_vote(b, vote, vote_owner, vote_program, single_pool_program) == Ok::<
            Bank,
            MarginfiError,
        >(b),
{
    let f = bank.flags;
    assert((f | BANK_SEED_KNOWN) | BANK_SEED_KNOWN == f | BANK_SEED_KNOWN) by (bit_vector);
    assert((f | IS_T22) & IS_T22 != 0) by (bit_vector);
    assert(((f | BANK_SEED_KNOWN) | IS_T22) | BANK_SEED_KNOWN == (f | BANK_SEED_KNOWN) | IS_T22) by (bit_vector);
    assert(((f | BANK_SEED_KNOWN) | IS_T22) & IS_T22 != 0) by (bit_vector);
    assert((f | BANK_SEED_KNOWN) & IS_T22 == f & IS_T22) by (bit_vector);
}

/// Backfills a pre-upgrade bank: with `bank_seed` given, the bank's address is derived from its
/// group, mint and that seed (under the staging or the mainnet program) and must be `bank_key`
/// (`InvalidBankAccount` otherwise, the bank unchanged), and the seed is recorded as known;
/// then a bank whose mint belongs to Token-2022 is flagged `IS_T22`.
pub fn lending_pool_backfill_bank_is_t22_flag(
    bank: &mut Bank,
    bank_key: &Pubkey,
    group_key: &Pubkey,
    mint_key: &Pubkey,
    mint_owner: &Pubkey,
    bank_seed: Option<u64>,
    this_program: &Pubkey,
    invoked_program: &Pubkey,
    staging_id: &Pubkey,
    mainnet_id: &Pubkey,
    token_2022_id: &Pubkey,
) -> (r: Result<(), MarginfiError>)
    ensures
        match spec_backfill_t22(
            *old(bank),
            *bank_key,
            *group_key,
            *mint_key,
            *mint_owner,
            bank_seed,
            seed_program(*this_program, *invoked_program, *staging_id, *mainnet_id),
            *token_2022_id,
        ) {
            Ok(b) => r is Ok && *final(bank) == b,
            Err(e) => r == Err::<(), MarginfiError>(e) && *final(bank) == *old(bank),
        },
{
    if let Some(seed) = bank_seed {
        let program = if this_program.same(staging_id) || invoked_program.same(staging_id) {
            *staging_id
        } else {
            *mainnet_id
        };
        match bank_address(group_key, mint_key, seed, &program) {
            Some(derived) => {
                if !bank_key.has_bytes(&derived) {
                    return Err(MarginfiError::InvalidBankAccount);
                }
            },
            None => {
                return Err(MarginfiError::InvalidBankAccount);
            },
        }
        bank.bank_seed = seed;
        bank.flags = bank.flags | BANK_SEED_KNOWN;
    }
    if bank.flags & IS_T22 == 0 && mint_owner.same(token_2022_id) {
        bank.flags = bank.flags | IS_T22;
    }
    Ok(())
}

/// The keys of the SPL single pool of a validator vote account: the stake pool, its mint and its
/// SOL pool, each derived under the single-pool program; none when one of them cannot be derived.
pub open spec fn single_pool_keys(vote: Pubkey, single_pool_program: Pubkey) -> Option<(Seq<u8>, Seq<u8>, Seq<u8>)> {
    let program = key_bytes(single_pool_program);
    match derived_address(seq![seq![112u8, 111u8, 111u8, 108u8], key_bytes(vote)], program) {
        Some(pool) => match (
            derived_address(seq![seq![109u8, 105u8, 110u8, 116u8], pool], program),
            derived_address(seq![seq![115u8, 116u8, 97u8, 107u8, 101u8], pool], program),
        ) {
            (Some(mint), Some(sol_pool)) => Some((pool, mint, sol_pool)),
            _ => None,
        },
        None => None,
    }
}

/// A list of two seeds.
fn seed_pair(tag: Vec<u8>, key: Vec<u8>) -> (r: Vec<Vec<u8>>)
    ensures
        r@.len() == 2,
        r@[0]@ == tag@,
        r@[1]@ == key@,
        r@.map_values(|s: Vec<u8>| s@) == seq![tag@, key@],
{
    let mut seeds: Vec<Vec<u8>> = Vec::new();
    seeds.push(tag);
    seeds.push(key);
    assert(seeds@.map_values(|s: Vec<u8>| s@) =~= seq![tag@, key@]);
    seeds
}

/// The bytes of a derived address as a vector.
fn array_vec(a: &[u8; 32]) -> (r: Vec<u8>)
    ensures
        r@ == a@,
{
    let mut out: Vec<u8> = Vec::new();
    let mut i: usize = 0;
    while i < 32
        invariant
            i <= 32,
            out@ == a@.subrange(0, i as int),
        decreases 32 - i,
    {
        out.push(a[i]);
        i = i + 1;
    }
    assert(out@ == a@);
    out
}

/// Checks that the vote account belongs to the vote program (`StakePoolValidationFailed`
/// otherwise) and derives its single pool's stake pool, mint and SOL pool; where one of them
/// cannot be derived, no single pool exists for the account (`StakePoolValidationFailed`).
pub fn derive_single_pool_keys_from_vote_and_validate_owner(
    vote_key: &Pubkey,
    vote_owner: &Pubkey,
    vote_program: &Pubkey,
    single_pool_program: &Pubkey,
) -> (r: Result<([u8; 32], [u8; 32], [u8; 32]), MarginfiError>)
    ensures
        *vote_owner != *vote_program ==> r == Err::<([u8; 32], [u8; 32], [u8; 32]), MarginfiError>(
            MarginfiError::StakePoolValidationFailed,
        ),
        *vote_owner == *vote_program ==> match single_pool_keys(*vote_key, *single_pool_program) {
            Some(k) => r matches Ok(keys) && (keys.0@, keys.1@, keys.2@) == k,
            None => r == Err::<([u8; 32], [u8; 32], [u8; 32]), MarginfiError>(
                MarginfiError::StakePoolValidationFailed,
            ),
        },
{
    if !vote_owner.same(vote_program) {
        return Err(MarginfiError::StakePoolValidationFailed);
    }
    let program = single_pool_program.to_bytes();
    let pool_seeds = seed_pair(vec![112u8, 111u8, 111u8, 108u8], key_vec(vote_key));
    let stake_pool = match try_find_program_address(&pool_seeds, &program) {
        Some((address, _)) => address,
        None => {
            return Err(MarginfiError::StakePoolValidationFailed);
        },
    };
    let mint_seeds = seed_pair(vec![109u8, 105u8, 110u8, 116u8], array_vec(&stake_pool));
    let sol_seeds = seed_pair(vec![115u8, 116u8, 97u8, 107u8, 101u8], array_vec(&stake_pool));
    let lst_mint = match try_find_program_address(&mint_seeds, &program) {
        Some((address, _)) => address,
        None => {
            return Err(MarginfiError::StakePoolValidationFailed);
        },
    };
    let sol_pool = match try_find_program_address(&sol_seeds, &program) {
        Some((address, _)) => address,
        None => {
            return Err(MarginfiError::StakePoolValidationFailed);
        },
    };
    Ok((stake_pool, lst_mint, sol_pool))
}

/// What backfilling a staked bank's validator vote account gives, on success the bank.
pub open spec fn spec_backfill_vote(bank: Bank, vote: Pubkey, vote_owner: Pubkey, vote_program: Pubkey, single_pool_program: Pubkey) -> Result<Bank, MarginfiError> {
    let keys = single_pool_keys(vote, single_pool_program);
    if bank.config.asset_tag != ASSET_TAG_STAKED {
        Err(MarginfiError::AssetTagMismatch)
    } else if bank.config.oracle_setup != OracleSetup::StakedWithPythPush {
        Err(MarginfiError::StakePoolValidationFailed)
    } else if vote_owner != vote_program {
        Err(MarginfiError::StakePoolValidationFailed)
    } else {
        match keys {
            None => Err(MarginfiError::StakePoolValidationFailed),
            Some(keys) => if keys.1 != key_bytes(bank.mint) || keys.1 != key_bytes(
                bank.config.oracle_keys@[1],
            ) || keys.2 != key_bytes(bank.config.oracle_keys@[2]) {
                Err(MarginfiError::StakePoolValidationFailed)
            } else if bank.integration_acc_1 != spec_default_key() {
                if bank.integration_acc_1 != vote {
                    Err(MarginfiError::StakePoolValidationFailed)
                } else {
                    Ok(bank)
                }
            } else {
                Ok(Bank { integration_acc_1: vote, ..bank })
            },
        }
    }
}

/// Backfills the validator vote account of a pre-upgrade staked bank. The bank must be a staked
/// bank (`AssetTagMismatch`) priced as one (`StakePoolValidationFailed`); the vote account must
/// belong to the vote program and its single pool's mint must be the bank's mint and its first
/// oracle key, the pool's SOL account its second (`StakePoolValidationFailed`). A vote account
/// already recorded must be this one; otherwise it is recorded.
pub fn lending_pool_backfill_staked_bank_validator_vote_account(
    bank: &mut Bank,
    vote_key: &Pubkey,
    vote_owner: &Pubkey,
    vote_program: &Pubkey,
    single_pool_program: &Pubkey,
) -> (r: Result<(), MarginfiError>)
    requires
        old(bank).config.oracle_keys@.len() >= 3,
    ensures
        match spec_backfill_vote(*old(bank), *vote_key, *vote_owner, *vote_program, *single_pool_program) {
            Ok(b) => r is Ok && *final(bank) == b,
            Err(e) => r == Err::<(), MarginfiError>(e) && *final(bank) == *old(bank),
        },
{
    if bank.config.asset_tag != ASSET_TAG_STAKED {
        return Err(MarginfiError::AssetTagMismatch);
    }
    if bank.config.oracle_setup != OracleSetup::StakedWithPythPush {
        return Err(MarginfiError::StakePoolValidationFailed);
    }
    let (_stake_pool, exp_mint, exp_sol_pool) = derive_single_pool_keys_from_vote_and_validate_owner(
        vote_key,
        vote_owner,
        vote_program,
        single_pool_program,
    )?;
    if !bank.mint.has_bytes(&exp_mint) {
        return Err(MarginfiError::StakePoolValidationFailed);
    }
    if !bank.config.oracle_keys[1].has_bytes(&exp_mint) {
        return Err(MarginfiError::StakePoolValidationFailed);
    }
    if !bank.config.oracle_keys[2].has_bytes(&exp_sol_pool) {
        return Err(MarginfiError::StakePoolValidationFailed);
    }
    if !bank.integration_acc_1.same(&Pubkey::default_key()) {
        if !bank.integration_acc_1.same(vote_key) {
            return Err(MarginfiError::StakePoolValidationFailed);
        }
        return Ok(());
    }
    bank.integration_acc_1 = *vote_key;
    Ok(())
}

// ---------------------------------------------------------------------------------------------
// Global fee state
// ---------------------------------------------------------------------------------------------

/// The protocol's emergency pause state.
#[derive(PartialEq, Eq, Structural, Clone, Copy, Debug)]
pub struct PanicState {
    pub pause_flags: u8,
    pub daily_pause_count: u8,
    pub consecutive_pause_count: u8,
    pub pause_start_timestamp: i64,
    pub last_daily_reset_timestamp: i64,
}

/// The program-wide fee settings.
#[derive(PartialEq, Eq, Structural, Clone, Copy, Debug)]
pub struct FeeState {
    pub key: Pubkey,
    pub global_fee_admin: Pubkey,
    pub global_fee_wallet: Pubkey,
    pub placeholder0: u64,
    pub bank_init_flat_sol_fee: u32,
    pub bump_seed: u8,
    pub liquidation_max_fee: i128,
    pub program_fee_fixed: i128,
    pub program_fee_rate: i128,
    pub panic_state: PanicState,
    pub placeholder1: u64,
    pub liquidation_flat_sol_fee: u32,
    pub order_init_flat_sol_fee: u32,
    pub order_execution_max_fee: i128,
    pub pause_delegate_admin: Pubkey,
}

/// The second version of the fee settings, an account of its own.
#[derive(PartialEq, Eq, Structural, Clone, Copy, Debug)]
pub struct FeeStateV2 {
    pub key: Pubkey,
    pub global_fee_admin: Pubkey,
    pub global_fee_wallet: Pubkey,
    pub placeholder0: u64,
    pub bank_init_flat_sol_fee: u32,
    pub bump_seed: u8,
    pub liquidation_max_fee: i128,
    pub program_fee_fixed: i128,
    pub program_fee_rate: i128,
    pub panic_state: PanicState,
    pub placeholder1: u64,
    pub liquidation_flat_sol_fee: u32,
    pub order_init_flat_sol_fee: u32,
    pub order_execution_max_fee: i128,
    pub pause_delegate_admin: Pubkey,
}

/// Records the second fee account's own address and bump on its creation.
pub fn initialize_fee_state_v2(fee_state_v2: &mut FeeStateV2, key: Pubkey, bump: u8)
    ensures
        *final(fee_state_v2) == (FeeStateV2 { key, bump_seed: bump, ..*old(fee_state_v2) }),
{
    fee_state_v2.key = key;
    fee_state_v2.bump_seed = bump;
}

/// Copies the fee settings into the second fee account, which keeps its own address and bump.
pub fn copy_fee_state_to_v2(fee_state: &FeeState, fee_state_v2: &mut FeeStateV2)
    ensures
        *final(fee_state_v2) == (FeeStateV2 {
            key: old(fee_state_v2).key,
            global_fee_admin: fee_state.global_fee_admin,
            global_fee_wallet: fee_state.global_fee_wallet,
            placeholder0: fee_state.placeholder0,
            bank_init_flat_sol_fee: fee_state.bank_init_flat_sol_fee,
            bump_seed: old(fee_state_v2).bump_seed,
            liquidation_max_fee: fee_state.liquidation_max_fee,
            program_fee_fixed: fee_state.program_fee_fixed,
            program_fee_rate: fee_state.program_fee_rate,
            panic_state: fee_state.panic_state,
            placeholder1: fee_state.placeholder1,
            liquidation_flat_sol_fee: fee_state.liquidation_flat_sol_fee,
            order_init_flat_sol_fee: fee_state.order_init_flat_sol_fee,
            order_execution_max_fee: fee_state.order_execution_max_fee,
            pause_delegate_admin: fee_state.pause_delegate_admin,
        }),
{
    let v2_key = fee_state_v2.key;
    let v2_bump_seed = fee_state_v2.bump_seed;
    fee_state_v2.key = v2_key;
    fee_state_v2.bump_seed = v2_bump_seed;
    fee_state_v2.global_fee_admin = fee_state.global_fee_admin;
    fee_state_v2.global_fee_wallet = fee_state.global_fee_wallet;
    fee_state_v2.placeholder0 = fee_state.placeholder0;
    fee_state_v2.bank_init_flat_sol_fee = fee_state.bank_init_flat_sol_fee;
    fee_state_v2.liquidation_max_fee = fee_state.liquidation_max_fee;
    fee_state_v2.program_fee_fixed = fee_state.program_fee_fixed;
    fee_state_v2.program_fee_rate = fee_state.program_fee_rate;
    fee_state_v2.panic_state = fee_state.panic_state;
    fee_state_v2.placeholder1 = fee_state.placeholder1;
    fee_state_v2.liquidation_flat_sol_fee = fee_state.liquidation_flat_sol_fee;
    fee_state_v2.order_init_flat_sol_fee = fee_state.order_init_flat_sol_fee;
    fee_state_v2.order_execution_max_fee = fee_state.order_execution_max_fee;
    fee_state_v2.pause_delegate_admin = fee_state.pause_delegate_admin;
}

} // verus!
