//! Decisions of the command-line client: which profile is active, what a profile command writes
//! or refuses, the program a profile targets and who signs its transactions. Reading and writing
//! the files under the configuration directory is left to the caller.

use crate::state::Pubkey;
use vstd::prelude::*;
use vstd::string::StringExecFns;

verus! {

broadcast use vstd::seq_lib::group_to_multiset_ensures;

/// The file `config.json` of the configuration directory: the active profile.
#[derive(PartialEq, Eq, Clone, Debug)]
pub struct CliConfig {
    pub profile_name: String,
}

/// One saved marginfi account of a profile.
#[derive(PartialEq, Eq, Clone, Debug)]
pub struct AccountEntry {
    /// The account's address, in base58.
    pub address: String,
    /// The file that holds the account data.
    pub filename: String,
}

/// How a transaction leaves the client.
#[derive(PartialEq, Eq, Structural, Clone, Copy, Debug)]
pub enum TxMode {
    /// Simulate, sign and broadcast.
    SendTx,
    /// Simulate and print the unsigned transaction for external signing.
    MultisigOutput,
}

/// The cluster a profile targets.
#[derive(PartialEq, Eq, Clone, Debug)]
pub enum Cluster {
    Testnet,
    Mainnet,
    Devnet,
    Localnet,
    Debug,
    /// A cluster given by its RPC and websocket URLs.
    Custom(String, String),
}

/// Commitment level of the client's requests.
#[derive(PartialEq, Eq, Structural, Clone, Copy, Debug)]
pub enum CommitmentLevel {
    Processed,
    Confirmed,
    Finalized,
}

/// A saved profile: where and as whom the client works.
#[derive(PartialEq, Eq, Clone, Debug)]
pub struct Profile {
    pub name: String,
    pub cluster: Cluster,
    pub keypair_path: String,
    pub multisig: Option<Pubkey>,
    pub rpc_url: String,
    pub program_id: Option<Pubkey>,
    pub commitment: Option<CommitmentLevel>,
    pub marginfi_group: Option<Pubkey>,
    pub marginfi_account: Option<Pubkey>,
}

/// The errors of the client's profile handling.
#[derive(PartialEq, Eq, Clone, Debug)]
pub enum CliError {
    /// No configuration file: no profile was ever created.
    ProfilesNotConfigured,
    /// No profile file of that name.
    ProfileDoesNotExist(String),
    /// A profile of that name exists already.
    ProfileAlreadyExists(String),
    /// The active profile cannot be deleted.
    CannotDeleteActiveProfile(String),
    /// The profile names no program and its cluster has no default one.
    NoDefaultProgramId,
    /// The profile names no marginfi account (the profile's name is given).
    NoDefaultMarginfiAccount(String),
    /// The authority is a multisig, whose keypair the client does not hold.
    MultisigAuthority,
}

/// The message of a profile error.
pub open spec fn cli_error_text(e: CliError) -> Seq<char> {
    match e {
        CliError::ProfilesNotConfigured => "Profiles not configured, run `p0 profile create`"@,
        CliError::ProfileDoesNotExist(name) => "Profile "@ + name@ + " does not exist"@,
        CliError::ProfileAlreadyExists(name) => "Profile "@ + name@ + " already exists"@,
        CliError::CannotDeleteActiveProfile(name) => "Cannot delete the active profile "@ + name@
            + "; set another active profile first"@,
        CliError::NoDefaultProgramId => "cluster does not have a default target program ID, please provide it through the --pid option"@,
        CliError::NoDefaultMarginfiAccount(name) => "No default marginfi account set for profile \""@
            + name@
            + "\". Use `p0 account list`, `p0 account use <ACCOUNT>`, or `p0 account create`."@,
        CliError::MultisigAuthority => "Cannot get authority keypair for multisig"@,
    }
}

/// `prefix`, then `name`, then `suffix`.
fn framed(prefix: &str, name: &String, suffix: &str) -> (r: String)
    ensures
        r@ == prefix@ + name@ + suffix@,
{
    String::from_str(prefix).concat(name.as_str()).concat(suffix)
}

impl CliError {
    /// The message the client prints for the error.
    pub fn message(&self) -> (r: String)
        ensures
            r@ == cli_error_text(*self),
    {
        match self {
            CliError::ProfilesNotConfigured => String::from_str(
                "Profiles not configured, run `p0 profile create`",
            ),
            CliError::ProfileDoesNotExist(name) => framed("Profile ", name, " does not exist"),
            CliError::ProfileAlreadyExists(name) => framed("Profile ", name, " already exists"),
            CliError::CannotDeleteActiveProfile(name) => framed(
                "Cannot delete the active profile ",
                name,
                "; set another active profile first",
            ),
            CliError::NoDefaultProgramId => String::from_str(
                "cluster does not have a default target program ID, please provide it through the --pid option",
            ),
            CliError::NoDefaultMarginfiAccount(name) => framed(
                "No default marginfi account set for profile \"",
                name,
                "\". Use `p0 account list`, `p0 account use <ACCOUNT>`, or `p0 account create`.",
            ),
            CliError::MultisigAuthority => String::from_str(
                "Cannot get authority keypair for multisig",
            ),
        }
    }
}

/// The command-line options that apply to every command.
#[derive(PartialEq, Eq, Clone, Debug)]
pub struct GlobalOptions {
    /// A profile to use for this command only.
    pub profile_name: Option<String>,
    /// Do not sign and broadcast the transaction.
    pub no_send_tx: bool,
    pub skip_confirmation: bool,
    pub compute_unit_price: Option<u64>,
    pub compute_unit_limit: Option<u32>,
    /// Address lookup tables for versioned transactions.
    pub lookup_tables: Vec<Pubkey>,
    pub json_output: bool,
}

/// How the client sends transactions: a profile together with the command's options. The fee
/// payer is the public key of the keypair the profile points to.
#[derive(PartialEq, Eq, Clone, Debug)]
pub struct Config {
    pub cluster: Cluster,
    pub fee_payer: Pubkey,
    pub multisig: Option<Pubkey>,
    pub program_id: Pubkey,
    pub commitment: CommitmentLevel,
    pub send_tx: bool,
    pub json_output: bool,
    pub compute_unit_price: Option<u64>,
    pub compute_unit_limit: Option<u32>,
    pub lookup_tables: Vec<Pubkey>,
}

/// The profile commands of the client.
#[derive(PartialEq, Eq, Clone, Debug)]
pub enum ProfileCommand {
    /// Create a new profile.
    Create {
        name: String,
        cluster: Cluster,
        keypair_path: String,
        multisig: Option<Pubkey>,
        rpc_url: String,
        program_id: Option<Pubkey>,
        commitment: Option<CommitmentLevel>,
        group: Option<Pubkey>,
        account: Option<Pubkey>,
    },
    /// Show the active profile, or the one named.
    Show { name: Option<String> },
    /// List all profiles.
    List,
    /// Switch the active profile.
    SetActive { name: String },
    /// Update a profile's settings.
    Update {
        name: String,
        new_name: Option<String>,
        cluster: Option<Cluster>,
        keypair_path: Option<String>,
        multisig: Option<Pubkey>,
        rpc_url: Option<String>,
        program_id: Option<Pubkey>,
        commitment: Option<CommitmentLevel>,
        group: Option<Pubkey>,
        account: Option<Pubkey>,
    },
    /// Delete a profile.
    Delete { name: String },
}

/// The client's top-level commands. Only the profile commands work on local state; the others
/// read and write the chain.
#[derive(PartialEq, Eq, Clone, Debug)]
pub enum Command {
    /// Group state and permissionless group operations.
    Group,
    /// Bank state and permissionless bank operations.
    Bank,
    /// Profile management.
    Profile { subcmd: ProfileCommand },
    /// Marginfi accounts: deposit, withdraw, borrow, repay, liquidate, orders.
    Account,
    /// The Kamino integration.
    Kamino,
    /// The Drift integration.
    Drift,
    /// The JupLend integration.
    Juplend,
    /// Debug and utility commands.
    Util,
}

/// The program deployed for local tests.
pub open spec fn localnet_program_id() -> Pubkey {
    Pubkey {
        w0: 0x19afd6c22d20dfce,
        w1: 0x272ff1cfa3d68d5a,
        w2: 0x347ed5638e04209d,
        w3: 0x9ad2cb457ce4314d,
    }
}

/// The program deployed on devnet.
pub open spec fn devnet_program_id() -> Pubkey {
    Pubkey {
        w0: 0x0bb1b60ac9e25fb5,
        w1: 0x61e409b09163d9a7,
        w2: 0x1c5c57478acb1b92,
        w3: 0x8161712d7b46d8c7,
    }
}

/// The program deployed on mainnet.
pub open spec fn mainnet_program_id() -> Pubkey {
    Pubkey {
        w0: 0x05307ad6454bbc5e,
        w1: 0x1e4e92059253a18b,
        w2: 0xb8c8868c58a6312e,
        w3: 0xc86a39e6224e373b,
    }
}

/// The program a profile targets: its own, or its cluster's default.
pub open spec fn spec_resolved_program_id(profile: Profile) -> Result<Pubkey, CliError> {
    match profile.program_id {
        Some(pid) => Ok(pid),
        None => match profile.cluster {
            Cluster::Localnet => Ok(localnet_program_id()),
            Cluster::Devnet => Ok(devnet_program_id()),
            Cluster::Mainnet => Ok(mainnet_program_id()),
            _ => Err(CliError::NoDefaultProgramId),
        },
    }
}

/// An optional setting: the new value where one is given.
pub open spec fn updated<T>(current: T, update: Option<T>) -> T {
    match update {
        Some(v) => v,
        None => current,
    }
}

/// An optional setting that is itself optional: set where a value is given.
pub open spec fn updated_opt<T>(current: Option<T>, update: Option<T>) -> Option<T> {
    match update {
        Some(v) => Some(v),
        None => current,
    }
}

impl Profile {
    /// A profile with the given settings.
    pub fn new(
        name: String,
        cluster: Cluster,
        keypair_path: String,
        multisig: Option<Pubkey>,
        rpc_url: String,
        program_id: Option<Pubkey>,
        commitment: Option<CommitmentLevel>,
        marginfi_group: Option<Pubkey>,
        marginfi_account: Option<Pubkey>,
    ) -> (r: Profile)
        ensures
            r == (Profile {
                name,
                cluster,
                keypair_path,
                multisig,
                rpc_url,
                program_id,
                commitment,
                marginfi_group,
                marginfi_account,
            }),
    {
        Profile {
            name,
            cluster,
            keypair_path,
            multisig,
            rpc_url,
            program_id,
            commitment,
            marginfi_group,
            marginfi_account,
        }
    }

    /// The program the profile targets: its own program id, else the default of its cluster
    /// (local, devnet and mainnet have one); `NoDefaultProgramId` otherwise.
    pub fn resolved_program_id(&self) -> (r: Result<Pubkey, CliError>)
        ensures
            r == spec_resolved_program_id(*self),
    {
        match self.program_id {
            Some(pid) => Ok(pid),
            None => match self.cluster {
                Cluster::Localnet => Ok(
                    Pubkey {
                        w0: 0x19afd6c22d20dfce,
                        w1: 0x272ff1cfa3d68d5a,
                        w2: 0x347ed5638e04209d,
                        w3: 0x9ad2cb457ce4314d,
                    },
                ),
                Cluster::Devnet => Ok(
                    Pubkey {
                        w0: 0x0bb1b60ac9e25fb5,
                        w1: 0x61e409b09163d9a7,
                        w2: 0x1c5c57478acb1b92,
                        w3: 0x8161712d7b46d8c7,
                    },
                ),
                Cluster::Mainnet => Ok(
                    Pubkey {
                        w0: 0x05307ad6454bbc5e,
                        w1: 0x1e4e92059253a18b,
                        w2: 0xb8c8868c58a6312e,
                        w3: 0xc86a39e6224e373b,
                    },
                ),
                _ => Err(CliError::NoDefaultProgramId),
            },
        }
    }

    /// Updates the settings that are given and keeps the others. A multisig, program, group or
    /// account that is given is set; none is ever cleared.
    pub fn config(
        &mut self,
        new_name: Option<String>,
        cluster: Option<Cluster>,
        keypair_path: Option<String>,
        multisig: Option<Pubkey>,
        rpc_url: Option<String>,
        program_id: Option<Pubkey>,
        commitment: Option<CommitmentLevel>,
        group: Option<Pubkey>,
        account: Option<Pubkey>,
    )
        ensures
            *final(self) == (Profile {
                name: updated(old(self).name, new_name),
                cluster: updated(old(self).cluster, cluster),
                keypair_path: updated(old(self).keypair_path, keypair_path),
                multisig: updated_opt(old(self).multisig, multisig),
                rpc_url: updated(old(self).rpc_url, rpc_url),
                program_id: updated_opt(old(self).program_id, program_id),
                commitment: updated_opt(old(self).commitment, commitment),
                marginfi_group: updated_opt(old(self).marginfi_group, group),
                marginfi_account: updated_opt(old(self).marginfi_account, account),
            }),
    {
        if let Some(name) = new_name {
            self.name = name;
        }
        if let Some(cluster) = cluster {
            self.cluster = cluster;
        }
        if let Some(keypair_path) = keypair_path {
            self.keypair_path = keypair_path;
        }
        if let Some(multisig) = multisig {
            self.multisig = Some(multisig);
        }
        if let Some(rpc_url) = rpc_url {
            self.rpc_url = rpc_url;
        }
        if let Some(program_id) = program_id {
            self.program_id = Some(program_id);
        }
        if let Some(commitment) = commitment {
            self.commitment = Some(commitment);
        }
        if let Some(group) = group {
            self.marginfi_group = Some(group);
        }
        if let Some(account) = account {
            self.marginfi_account = Some(account);
        }
    }

    /// The profile's default marginfi account; `NoDefaultMarginfiAccount` when it has none.
    pub fn get_marginfi_account(&self) -> (r: Result<Pubkey, CliError>)
        ensures
            r == match self.marginfi_account {
                Some(a) => Ok(a),
                None => Err(CliError::NoDefaultMarginfiAccount(self.name)),
            },
    {
        match self.marginfi_account {
            Some(a) => Ok(a),
            None => Err(CliError::NoDefaultMarginfiAccount(self.name.clone())),
        }
    }

    /// Makes `address` the profile's group.
    pub fn set_marginfi_group(&mut self, address: Pubkey)
        ensures
            *final(self) == (Profile { marginfi_group: Some(address), ..*old(self) }),
    {
        self.marginfi_group = Some(address);
    }

    /// Makes `address` the profile's default account, or clears it.
    pub fn set_marginfi_account(&mut self, address: Option<Pubkey>)
        ensures
            *final(self) == (Profile { marginfi_account: address, ..*old(self) }),
    {
        self.marginfi_account = address;
    }

    /// The client configuration of the profile, with `fee_payer` the key of its keypair: the
    /// transactions are sent unless the options say otherwise, the program is the resolved one
    /// (which may fail), the commitment defaults to `Processed`, and the output, compute-unit
    /// and lookup-table settings come from the options where they are given.
    pub fn get_config(&self, fee_payer: Pubkey, global_options: Option<&GlobalOptions>) -> (r: Result<
        Config,
        CliError,
    >)
        ensures
            match spec_resolved_program_id(*self) {
                Err(e) => r == Err::<Config, CliError>(e),
                Ok(pid) => r matches Ok(c) && c.cluster == self.cluster && c.fee_payer == fee_payer
                    && c.multisig == self.multisig && c.program_id == pid && c.commitment == updated(
                    CommitmentLevel::Processed,
                    self.commitment,
                ) && match global_options {
                    Some(o) => c.send_tx == !o.no_send_tx && c.json_output == o.json_output
                        && c.compute_unit_price == o.compute_unit_price && c.compute_unit_limit
                        == o.compute_unit_limit && c.lookup_tables@ == o.lookup_tables@,
                    None => c.send_tx && !c.json_output && c.compute_unit_price is None
                        && c.compute_unit_limit is None && c.lookup_tables@.len() == 0,
                },
            },
    {
        let program_id = self.resolved_program_id()?;
        let commitment = match self.commitment {
            Some(c) => c,
            None => CommitmentLevel::Processed,
        };
        let (send_tx, json_output, compute_unit_price, compute_unit_limit, lookup_tables) =
            match global_options {
            Some(opts) => (
                !opts.no_send_tx,
                opts.json_output,
                opts.compute_unit_price,
                opts.compute_unit_limit,
                copy_keys(&opts.lookup_tables),
            ),
            None => (true, false, None, None, Vec::new()),
        };
        Ok(
            Config {
                cluster: self.cluster.duplicate(),
                fee_payer,
                multisig: self.multisig,
                program_id,
                commitment,
                send_tx,
                json_output,
                compute_unit_price,
                compute_unit_limit,
                lookup_tables,
            },
        )
    }
}

/// A copy of a list of keys.
fn copy_keys(keys: &Vec<Pubkey>) -> (r: Vec<Pubkey>)
    ensures
        r@ == keys@,
{
    let mut out: Vec<Pubkey> = Vec::new();
    let mut i: usize = 0;
    while i < keys.len()
        invariant
            i <= keys@.len(),
            out@ == keys@.subrange(0, i as int),
        decreases keys@.len() - i,
    {
        out.push(keys[i]);
        i = i + 1;
    }
    assert(keys@.subrange(0, keys@.len() as int) == keys@);
    out
}

impl Cluster {
    /// A copy of the cluster.
    pub fn duplicate(&self) -> (r: Cluster)
        ensures
            r == *self,
    {
        match self {
            Cluster::Testnet => Cluster::Testnet,
            Cluster::Mainnet => Cluster::Mainnet,
            Cluster::Devnet => Cluster::Devnet,
            Cluster::Localnet => Cluster::Localnet,
            Cluster::Debug => Cluster::Debug,
            Cluster::Custom(rpc, ws) => Cluster::Custom(rpc.clone(), ws.clone()),
        }
    }
}

impl Config {
    /// The payer written into instructions: when transactions are not sent, the multisig if
    /// there is one (so that it can sign the output), else the fee payer.
    pub fn explicit_fee_payer(&self) -> (r: Pubkey)
        ensures
            r == if !self.send_tx && self.multisig is Some {
                self.multisig->0
            } else {
                self.fee_payer
            },
    {
        if !self.send_tx {
            match self.multisig {
                Some(m) => m,
                None => self.fee_payer,
            }
        } else {
            self.fee_payer
        }
    }

    /// The authority: the multisig if there is one, else the fee payer.
    pub fn authority(&self) -> (r: Pubkey)
        ensures
            r == match self.multisig {
                Some(m) => m,
                None => self.fee_payer,
            },
    {
        match self.multisig {
            Some(m) => m,
            None => self.fee_payer,
        }
    }

    /// Sending or printing for a multisig.
    pub fn get_tx_mode(&self) -> (r: TxMode)
        ensures
            r == if self.send_tx {
                TxMode::SendTx
            } else {
                TxMode::MultisigOutput
            },
    {
        if self.send_tx {
            TxMode::SendTx
        } else {
            TxMode::MultisigOutput
        }
    }

    /// The keys whose keypairs sign: the fee payer when it is written explicitly or there is no
    /// multisig, else none.
    pub fn get_signers(&self, explicit_fee_payer: bool) -> (r: Vec<Pubkey>)
        ensures
            r@ == if explicit_fee_payer || self.multisig is None {
                seq![self.fee_payer]
            } else {
                Seq::<Pubkey>::empty()
            },
    {
        if explicit_fee_payer || self.multisig.is_none() {
            let mut v: Vec<Pubkey> = Vec::new();
            v.push(self.fee_payer);
            v
        } else {
            Vec::new()
        }
    }

    /// The key of the authority's keypair, which the client holds unless the authority is a
    /// multisig (`MultisigAuthority`).
    pub fn get_non_ms_authority_keypair(&self) -> (r: Result<Pubkey, CliError>)
        ensures
            r == if self.multisig is None {
                Ok::<Pubkey, CliError>(self.fee_payer)
            } else {
                Err(CliError::MultisigAuthority)
            },
    {
        if self.multisig.is_none() {
            Ok(self.fee_payer)
        } else {
            Err(CliError::MultisigAuthority)
        }
    }
}

/// What creating a profile does, in order: the configuration file is written, naming the new
/// profile active, when there is none yet; then the creation is refused when a profile of that
/// name exists.
#[derive(PartialEq, Eq, Debug)]
pub struct ProfileCreation {
    /// The configuration to write first, if any.
    pub config_to_write: Option<CliConfig>,
    /// Whether the profile file is then written, or the error.
    pub result: Result<(), CliError>,
}

/// Creating profile `profile`, given whether a configuration file and a file of the profile's
/// name exist.
pub fn create_profile(profile: &Profile, config_exists: bool, profile_exists: bool) -> (r:
    ProfileCreation)
    ensures
        r.config_to_write == if config_exists {
            None
        } else {
            Some(CliConfig { profile_name: profile.name })
        },
        r.result == if profile_exists {
            Err::<(), CliError>(CliError::ProfileAlreadyExists(profile.name))
        } else {
            Ok(())
        },
{
    let config_to_write = if config_exists {
        None
    } else {
        Some(CliConfig { profile_name: profile.name.clone() })
    };
    let result = if profile_exists {
        Err(CliError::ProfileAlreadyExists(profile.name.clone()))
    } else {
        Ok(())
    };
    ProfileCreation { config_to_write, result }
}

/// The profile that `profile show` prints, and whether it is the active one: the requested
/// profile when a name was given, else the active one; it is active when its name is the active
/// profile's.
pub fn show_profile(requested: Option<Profile>, active: Profile) -> (r: (Profile, bool))
    ensures
        r.0 == match requested {
            Some(p) => p,
            None => active,
        },
        r.1 == (r.0.name@ == active.name@),
{
    match requested {
        Some(p) => {
            let is_active = p.name == active.name;
            (p, is_active)
        },
        None => (active, true),
    }
}

/// What switching the active profile gives: the configuration to write, or the error.
pub open spec fn spec_set_profile(name: String, profile_exists: bool, config: Option<CliConfig>) -> Result<
    CliConfig,
    CliError,
> {
    if !profile_exists {
        Err(CliError::ProfileDoesNotExist(name))
    } else if config is None {
        Err(CliError::ProfilesNotConfigured)
    } else {
        Ok(CliConfig { profile_name: name })
    }
}

/// What deleting a profile gives: whether its file may be removed, or the error.
pub open spec fn spec_delete_profile(name: String, config: Option<CliConfig>, profile_exists: bool) -> Result<
    (),
    CliError,
> {
    if config matches Some(c) && c.profile_name@ == name@ {
        Err(CliError::CannotDeleteActiveProfile(name))
    } else if !profile_exists {
        Err(CliError::ProfileDoesNotExist(name))
    } else {
        Ok(())
    }
}

/// The active profile cannot be deleted: once `name` has been made active, deleting it is
/// refused, whether or not its file exists.
pub proof fn lemma_active_profile_is_protected(
    name: String,
    profile_exists: bool,
    config: Option<CliConfig>,
    file_exists_later: bool,
)
    ensures
        spec_set_profile(name, profile_exists, config) matches Ok(written) ==> spec_delete_profile(
            name,
            Some(written),
            file_exists_later,
        ) == Err::<(), CliError>(CliError::CannotDeleteActiveProfile(name)),
{
}

/// Switching the active profile to `name`: refused when no profile of that name exists, or
/// when no configuration file exists; else the configuration to write.
pub fn set_profile(name: String, profile_exists: bool, config: Option<CliConfig>) -> (r: Result<
    CliConfig,
    CliError,
>)
    ensures
        r == spec_set_profile(name, profile_exists, config),
{
    if !profile_exists {
        return Err(CliError::ProfileDoesNotExist(name));
    }
    match config {
        None => Err(CliError::ProfilesNotConfigured),
        Some(mut cli_config) => {
            cli_config.profile_name = name;
            Ok(cli_config)
        },
    }
}

/// Deleting profile `name`: the active profile cannot be deleted, nor one whose file does not
/// exist; otherwise the file may be removed.
pub fn delete_profile(name: String, config: Option<CliConfig>, profile_exists: bool) -> (r: Result<
    (),
    CliError,
>)
    ensures
        r == spec_delete_profile(name, config, profile_exists),
{
    if let Some(cli_config) = config {
        if cli_config.profile_name == name {
            return Err(CliError::CannotDeleteActiveProfile(name));
        }
    }
    if !profile_exists {
        return Err(CliError::ProfileDoesNotExist(name));
    }
    Ok(())
}

/// What renaming a profile does besides writing it: the configuration is rewritten when the
/// renamed profile was the active one, and the old profile file is removed.
#[derive(PartialEq, Eq, Clone, Debug)]
pub struct ProfileRename {
    pub config_to_write: Option<CliConfig>,
    /// The name whose file is removed.
    pub remove: String,
}

/// Updating a loaded profile: the settings given are applied (`Profile::config`); when it is
/// renamed, the rename steps that follow. `config` is the configuration file, if any.
pub fn configure_profile(
    profile: &mut Profile,
    new_name: Option<String>,
    cluster: Option<Cluster>,
    keypair_path: Option<String>,
    multisig: Option<Pubkey>,
    rpc_url: Option<String>,
    program_id: Option<Pubkey>,
    commitment: Option<CommitmentLevel>,
    group: Option<Pubkey>,
    account: Option<Pubkey>,
    config: Option<CliConfig>,
) -> (r: Option<ProfileRename>)
    ensures
        *final(profile) == (Profile {
            name: updated(old(profile).name, new_name),
            cluster: updated(old(profile).cluster, cluster),
            keypair_path: updated(old(profile).keypair_path, keypair_path),
            multisig: updated_opt(old(profile).multisig, multisig),
            rpc_url: updated(old(profile).rpc_url, rpc_url),
            program_id: updated_opt(old(profile).program_id, program_id),
            commitment: updated_opt(old(profile).commitment, commitment),
            marginfi_group: updated_opt(old(profile).marginfi_group, group),
            marginfi_account: updated_opt(old(profile).marginfi_account, account),
        }),
        r == match new_name {
            None => None,
            Some(n) => Some(
                ProfileRename {
                    config_to_write: if config matches Some(c) && c.profile_name@ == old(
                        profile,
                    ).name@ {
                        Some(CliConfig { profile_name: n })
                    } else {
                        None
                    },
                    remove: old(profile).name,
                },
            ),
        },
{
    let old_name = profile.name.clone();
    let renamed_to = match &new_name {
        Some(n) => Some(n.clone()),
        None => None,
    };
    profile.config(
        new_name,
        cluster,
        keypair_path,
        multisig,
        rpc_url,
        program_id,
        commitment,
        group,
        account,
    );
    match renamed_to {
        None => None,
        Some(n) => {
            let config_to_write = match config {
                Some(c) => {
                    if c.profile_name == old_name {
                        Some(CliConfig { profile_name: n })
                    } else {
                        None
                    }
                },
                None => None,
            };
            Some(ProfileRename { config_to_write, remove: old_name })
        },
    }
}

/// The profile a command uses: the one named in the options, else the active one.
pub fn load_profile_for_command(global_options: &GlobalOptions) -> (r: Option<String>)
    ensures
        r == global_options.profile_name,
{
    match &global_options.profile_name {
        Some(name) => Some(name.clone()),
        None => None,
    }
}

/// Whether text `a` comes strictly before text `b`: character by character, a proper prefix
/// first (the order of `str`).
pub open spec fn text_lt(a: Seq<char>, b: Seq<char>) -> bool
    decreases a.len(),
{
    if a.len() == 0 {
        b.len() > 0
    } else if b.len() == 0 {
        false
    } else if a[0] != b[0] {
        (a[0] as u32) < (b[0] as u32)
    } else {
        text_lt(a.drop_first(), b.drop_first())
    }
}

/// No text comes before itself.
proof fn lemma_text_irreflexive(a: Seq<char>)
    ensures
        !text_lt(a, a),
    decreases a.len(),
{
    if a.len() > 0 {
        lemma_text_irreflexive(a.drop_first());
    }
}

/// Of two different texts one comes first, and not both.
proof fn lemma_text_total(a: Seq<char>, b: Seq<char>)
    ensures
        a != b ==> text_lt(a, b) || text_lt(b, a),
        text_lt(a, b) ==> !text_lt(b, a),
    decreases a.len(),
{
    if a.len() > 0 && b.len() > 0 {
        lemma_text_total(a.drop_first(), b.drop_first());
        if a[0] == b[0] && a.drop_first() == b.drop_first() {
            assert(a =~= seq![a[0]] + a.drop_first());
            assert(b =~= seq![b[0]] + b.drop_first());
        }
        if a[0] != b[0] {
            vstd::utf8::char_u32_cast(a[0], a[0] as u32);
            vstd::utf8::char_u32_cast(b[0], b[0] as u32);
        }
    } else if a.len() == 0 && b.len() == 0 {
        assert(a =~= b);
    }
}

/// The order of texts is transitive.
proof fn lemma_text_transitive(a: Seq<char>, b: Seq<char>, c: Seq<char>)
    requires
        text_lt(a, b),
        text_lt(b, c),
    ensures
        text_lt(a, c),
    decreases a.len(),
{
    if a.len() > 0 && b.len() > 0 && c.len() > 0 && a[0] == b[0] && b[0] == c[0] {
        lemma_text_transitive(a.drop_first(), b.drop_first(), c.drop_first());
    }
}

/// Whether `a` comes strictly before `b`.
fn text_less(a: &String, b: &String) -> (r: bool)
    ensures
        r == text_lt(a@, b@),
{
    let x = crate::rate_point::chars_of(a.as_str());
    let y = crate::rate_point::chars_of(b.as_str());
    let mut i: usize = 0;
    assert(x@.skip(0) == x@);
    assert(y@.skip(0) == y@);
    while i < x.len() && i < y.len()
        invariant
            i <= x@.len(),
            i <= y@.len(),
            x@ == a@,
            y@ == b@,
            text_lt(a@, b@) == text_lt(x@.skip(i as int), y@.skip(i as int)),
        decreases x@.len() - i,
    {
        if x[i] != y[i] {
            return (x[i] as u32) < (y[i] as u32);
        }
        assert(x@.skip(i as int).drop_first() == x@.skip(i + 1));
        assert(y@.skip(i as int).drop_first() == y@.skip(i + 1));
        i = i + 1;
    }
    i < y.len()
}

/// Texts in non-decreasing order.
pub open spec fn texts_sorted(s: Seq<String>) -> bool {
    forall|i: int, j: int| 0 <= i < j < s.len() ==> !text_lt(#[trigger] s[j]@, #[trigger] s[i]@)
}

/// The profile names that `profile list` prints, in order: the file names of the profiles
/// directory, sorted; `ProfilesNotConfigured` when that directory does not exist (`None`).
pub fn list_profiles(names: Option<Vec<String>>) -> (r: Result<Vec<String>, CliError>)
    ensures
        match names {
            None => r == Err::<Vec<String>, CliError>(CliError::ProfilesNotConfigured),
            Some(v) => r matches Ok(sorted) && texts_sorted(sorted@) && sorted@.to_multiset()
                == v@.to_multiset(),
        },
{
    let names = match names {
        None => return Err(CliError::ProfilesNotConfigured),
        Some(v) => v,
    };
    let ghost given = names@;
    let mut sorted: Vec<String> = Vec::new();
    let mut rest = names;
    proof {
        assert(rest@ == given);
    }
    while rest.len() > 0
        invariant
            texts_sorted(sorted@),
            sorted@.to_multiset().add(rest@.to_multiset()) == given.to_multiset(),
        decreases rest@.len(),
    {
        let ghost before_rest = rest@;
        let name = rest.pop().unwrap();
        proof {
            assert(before_rest == rest@.push(name));
        }
        let mut p: usize = 0;
        while p < sorted.len() && !text_less(&name, &sorted[p])
            invariant
                p <= sorted@.len(),
                forall|k: int| 0 <= k < p ==> !text_lt(name@, #[trigger] sorted@[k]@),
            decreases sorted@.len() - p,
        {
            p = p + 1;
        }
        let ghost before = sorted@;
        proof {
            if p < before.len() {
                assert(text_lt(name@, before[p as int]@));
                assert forall|k: int| p <= k < before.len() implies text_lt(name@, #[trigger] before[k]@) by {
                    if k > p {
                        assert(!text_lt(before[k]@, before[p as int]@));
                        lemma_text_total(before[k]@, before[p as int]@);
                        if before[p as int]@ != before[k]@ {
                            lemma_text_transitive(name@, before[p as int]@, before[k]@);
                        }
                    }
                }
            }
        }
        sorted.insert(p, name);
        proof {
            assert(sorted@ == before.insert(p as int, name));
            assert forall|i: int, j: int| 0 <= i < j < sorted@.len() implies !text_lt(
                #[trigger] sorted@[j]@,
                #[trigger] sorted@[i]@,
            ) by {
                if i < p && j == p {
                    lemma_text_total(name@, before[i]@);
                } else if i == p && j > p {
                    lemma_text_total(name@, before[j - 1]@);
                }
            }
            vstd::seq_lib::to_multiset_insert(before, p as int, name);
        }
    }
    proof {
        assert(rest@ =~= Seq::<String>::empty());
    }
    Ok(sorted)
}

/// Whether a confirmation goes ahead: the line typed, without surrounding white space, must be
/// the name of the profile in use.
pub fn get_consent(input: &str, profile: &Profile) -> (r: bool)
    ensures
        r == (crate::rate_point::trim(input@) == profile.name@),
{
    let typed = crate::rate_point::trim_chars(&crate::rate_point::chars_of(input));
    let name = crate::rate_point::chars_of(profile.name.as_str());
    if typed.len() != name.len() {
        return false;
    }
    let mut i: usize = 0;
    while i < typed.len()
        invariant
            i <= typed@.len() == name@.len(),
            typed@ == crate::rate_point::trim(input@),
            name@ == profile.name@,
            forall|k: int| 0 <= k < i ==> typed@[k] == name@[k],
        decreases typed@.len() - i,
    {
        if typed[i] != name[i] {
            return false;
        }
        i = i + 1;
    }
    assert(typed@ =~= name@);
    true
}

} // verus!
