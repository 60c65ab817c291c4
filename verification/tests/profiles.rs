use marginfi::cli::{
    configure_profile, create_profile, delete_profile, get_consent, list_profiles,
    load_profile_for_command,
    set_profile, show_profile, CliConfig, CliError, Cluster, CommitmentLevel, Config, GlobalOptions,
    Profile, TxMode,
};
use marginfi::rate_point::{IntErrorKind, RatePoint, RatePointArg, RatePointError, RiskTierArg};
use marginfi::state::{Pubkey, RiskTier};

fn key(n: u64) -> Pubkey {
    Pubkey { w0: n, w1: 0, w2: 0, w3: 0 }
}

fn profile(name: &str, cluster: Cluster) -> Profile {
    Profile::new(
        name.to_string(),
        cluster,
        "~/.config/solana/id.json".to_string(),
        None,
        "http://localhost:8899".to_string(),
        None,
        None,
        None,
        None,
    )
}

fn config(name: &str) -> CliConfig {
    CliConfig { profile_name: name.to_string() }
}

#[test]
fn resolved_program_id_defaults() {
    let mainnet = profile("m", Cluster::Mainnet).resolved_program_id().unwrap();
    assert_eq!(mainnet.w0, 0x05307ad6454bbc5e);
    let local = profile("l", Cluster::Localnet).resolved_program_id().unwrap();
    assert_eq!(local.w3, 0x9ad2cb457ce4314d);
    assert_eq!(
        profile("t", Cluster::Testnet).resolved_program_id(),
        Err(CliError::NoDefaultProgramId)
    );
    let mut p = profile("t", Cluster::Testnet);
    p.program_id = Some(key(9));
    assert_eq!(p.resolved_program_id(), Ok(key(9)));
}

#[test]
fn create_profile_writes_config_only_when_missing() {
    let p = profile("alpha", Cluster::Devnet);
    let plan = create_profile(&p, false, false);
    assert_eq!(plan.config_to_write, Some(config("alpha")));
    assert_eq!(plan.result, Ok(()));
    let plan = create_profile(&p, true, true);
    assert_eq!(plan.config_to_write, None);
    assert_eq!(plan.result, Err(CliError::ProfileAlreadyExists("alpha".to_string())));
}

#[test]
fn show_profile_reports_whether_active() {
    let (shown, active) = show_profile(None, profile("a", Cluster::Devnet));
    assert_eq!(shown.name, "a");
    assert!(active);
    let (shown, active) =
        show_profile(Some(profile("b", Cluster::Devnet)), profile("a", Cluster::Devnet));
    assert_eq!(shown.name, "b");
    assert!(!active);
}

#[test]
fn set_profile_cases() {
    assert_eq!(
        set_profile("x".to_string(), false, Some(config("a"))),
        Err(CliError::ProfileDoesNotExist("x".to_string()))
    );
    assert_eq!(set_profile("x".to_string(), true, None), Err(CliError::ProfilesNotConfigured));
    assert_eq!(set_profile("x".to_string(), true, Some(config("a"))), Ok(config("x")));
}

#[test]
fn active_profile_cannot_be_deleted() {
    let written = set_profile("x".to_string(), true, Some(config("a"))).unwrap();
    assert_eq!(
        delete_profile("x".to_string(), Some(written), true),
        Err(CliError::CannotDeleteActiveProfile("x".to_string()))
    );
    assert_eq!(
        delete_profile("y".to_string(), Some(config("x")), false),
        Err(CliError::ProfileDoesNotExist("y".to_string()))
    );
    assert_eq!(delete_profile("y".to_string(), None, true), Ok(()));
}

#[test]
fn configure_profile_renames_the_active_profile() {
    let mut p = profile("old", Cluster::Devnet);
    let rename = configure_profile(
        &mut p,
        Some("new".to_string()),
        Some(Cluster::Mainnet),
        None,
        Some(key(5)),
        None,
        None,
        Some(CommitmentLevel::Finalized),
        None,
        Some(key(6)),
        Some(config("old")),
    )
    .unwrap();
    assert_eq!(p.name, "new");
    assert_eq!(p.cluster, Cluster::Mainnet);
    assert_eq!(p.multisig, Some(key(5)));
    assert_eq!(p.commitment, Some(CommitmentLevel::Finalized));
    assert_eq!(p.marginfi_account, Some(key(6)));
    assert_eq!(p.rpc_url, "http://localhost:8899");
    assert_eq!(rename.config_to_write, Some(config("new")));
    assert_eq!(rename.remove, "old");

    let mut q = profile("q", Cluster::Devnet);
    let none = configure_profile(
        &mut q, None, None, None, None, None, None, None, None, None, Some(config("q")),
    );
    assert!(none.is_none());
}

#[test]
fn list_profiles_sorts() {
    let names = vec!["b.json".to_string(), "a.json".to_string(), "ab.json".to_string()];
    assert_eq!(
        list_profiles(Some(names)).unwrap(),
        vec!["a.json".to_string(), "ab.json".to_string(), "b.json".to_string()]
    );
    assert_eq!(list_profiles(None), Err(CliError::ProfilesNotConfigured));
}

#[test]
fn get_config_and_signers() {
    let mut p = profile("a", Cluster::Mainnet);
    p.multisig = Some(key(77));
    let opts = GlobalOptions {
        profile_name: None,
        no_send_tx: true,
        skip_confirmation: false,
        compute_unit_price: Some(5),
        compute_unit_limit: None,
        lookup_tables: vec![key(1)],
        json_output: true,
    };
    let c: Config = p.get_config(key(3), Some(&opts)).unwrap();
    assert!(!c.send_tx);
    assert_eq!(c.commitment, CommitmentLevel::Processed);
    assert_eq!(c.lookup_tables, vec![key(1)]);
    assert_eq!(c.explicit_fee_payer(), key(77));
    assert_eq!(c.authority(), key(77));
    assert_eq!(c.get_tx_mode(), TxMode::MultisigOutput);
    assert_eq!(c.get_signers(false), Vec::<Pubkey>::new());
    assert_eq!(c.get_signers(true), vec![key(3)]);
    assert_eq!(c.get_non_ms_authority_keypair(), Err(CliError::MultisigAuthority));
    let d = profile("b", Cluster::Devnet).get_config(key(3), None).unwrap();
    assert!(d.send_tx);
    assert_eq!(d.explicit_fee_payer(), key(3));
    assert_eq!(d.get_non_ms_authority_keypair(), Ok(key(3)));
}

#[test]
fn marginfi_account_of_profile() {
    let mut p = profile("a", Cluster::Devnet);
    assert_eq!(
        p.get_marginfi_account(),
        Err(CliError::NoDefaultMarginfiAccount("a".to_string()))
    );
    p.set_marginfi_account(Some(key(4)));
    p.set_marginfi_group(key(8));
    assert_eq!(p.get_marginfi_account(), Ok(key(4)));
    assert_eq!(p.marginfi_group, Some(key(8)));
}

#[test]
fn profile_for_command() {
    let mut opts = GlobalOptions {
        profile_name: Some("x".to_string()),
        no_send_tx: false,
        skip_confirmation: false,
        compute_unit_price: None,
        compute_unit_limit: None,
        lookup_tables: vec![],
        json_output: false,
    };
    assert_eq!(load_profile_for_command(&opts), Some("x".to_string()));
    opts.profile_name = None;
    assert_eq!(load_profile_for_command(&opts), None);
}

#[test]
fn rate_point_parses() {
    assert_eq!(RatePointArg::parse("50,100"), Ok(RatePointArg { util: 50, rate: 100 }));
    assert_eq!(
        " +7 ,\t4294967295\n".parse::<RatePointArg>(),
        Ok(RatePointArg { util: 7, rate: 4294967295 })
    );
    assert_eq!(RatePointArg::parse("1,2,3"), Err(RatePointError::InvalidRate(IntErrorKind::InvalidDigit)));
    assert_eq!(RatePointArg::parse("12"), Err(RatePointError::MissingComma));
    assert_eq!(RatePointArg::parse(",5"), Err(RatePointError::InvalidUtil(IntErrorKind::Empty)));
    assert_eq!(
        RatePointArg::parse("4294967296,5"),
        Err(RatePointError::InvalidUtil(IntErrorKind::PosOverflow))
    );
    assert_eq!(RatePointArg::parse("-1,5"), Err(RatePointError::InvalidUtil(IntErrorKind::InvalidDigit)));
    assert_eq!(RatePointArg::parse("+,5"), Err(RatePointError::InvalidUtil(IntErrorKind::InvalidDigit)));
    assert_eq!(
        RatePointArg::parse("\u{a0}3,\u{3000}4"),
        Ok(RatePointArg { util: 3, rate: 4 })
    );
}

#[test]
fn rate_point_from_str_messages() {
    assert_eq!("50, 100".parse::<RatePointArg>(), Ok(RatePointArg { util: 50, rate: 100 }));
    assert_eq!("12".parse::<RatePointArg>(), Err("expected format: util,rate".to_string()));
    assert_eq!(
        "x,1".parse::<RatePointArg>(),
        Err("invalid util u32: invalid digit found in string".to_string())
    );
    assert_eq!(
        "1,".parse::<RatePointArg>(),
        Err("invalid rate u32: cannot parse integer from empty string".to_string())
    );
    assert_eq!(
        "1,4294967296".parse::<RatePointArg>(),
        Err("invalid rate u32: number too large to fit in target type".to_string())
    );
}

#[test]
fn rate_point_parse_agrees_with_std() {
    for text in ["0,0", "00012,34", " 1 , 2 ", "99999999999x,1", "1,99999999999x", "a,1", "1,", "7,+"] {
        let ours = RatePointArg::parse(text);
        let (lhs, rhs) = text.split_once(',').unwrap();
        let std_util = lhs.trim().parse::<u32>();
        let std_rate = rhs.trim().parse::<u32>();
        match (std_util, std_rate) {
            (Ok(u), Ok(r)) => assert_eq!(ours, Ok(RatePointArg { util: u, rate: r })),
            (Err(_), _) => assert!(matches!(ours, Err(RatePointError::InvalidUtil(_)))),
            (Ok(_), Err(_)) => assert!(matches!(ours, Err(RatePointError::InvalidRate(_)))),
        }
    }
}

#[test]
fn conversions() {
    let p: RatePoint = RatePointArg { util: 3, rate: 4 }.into();
    assert_eq!(p, RatePoint { util: 3, rate: 4 });
    assert_eq!(RiskTier::from(RiskTierArg::Isolated), RiskTier::Isolated);
    assert_eq!(RiskTier::from(RiskTierArg::Collateral), RiskTier::Collateral);
}

#[test]
fn consent_needs_the_profile_name() {
    let p = profile("alpha", Cluster::Devnet);
    assert!(get_consent("alpha\n", &p));
    assert!(get_consent("  alpha \t", &p));
    assert!(!get_consent("alph", &p));
    assert!(!get_consent("alpha2", &p));
    assert!(!get_consent("", &p));
}

#[test]
fn rate_point_error_messages_match_std() {
    assert_eq!("12".parse::<RatePointArg>(), Err("expected format: util,rate".to_string()));
    let std_err = "x".parse::<u32>().unwrap_err();
    assert_eq!("x,1".parse::<RatePointArg>(), Err(format!("invalid util u32: {std_err}")));
    let std_err = "".parse::<u32>().unwrap_err();
    assert_eq!("1, ".parse::<RatePointArg>(), Err(format!("invalid rate u32: {std_err}")));
    let std_err = "4294967296".parse::<u32>().unwrap_err();
    assert_eq!(
        "4294967296,1".parse::<RatePointArg>(),
        Err(format!("invalid util u32: {std_err}"))
    );
    assert_eq!(IntErrorKind::Empty.description(), "cannot parse integer from empty string");
}

#[test]
fn cli_error_messages() {
    assert_eq!(
        CliError::ProfileDoesNotExist("x".to_string()).message(),
        "Profile x does not exist"
    );
    assert_eq!(
        CliError::CannotDeleteActiveProfile("y".to_string()).message(),
        "Cannot delete the active profile y; set another active profile first"
    );
    assert_eq!(
        CliError::NoDefaultMarginfiAccount("z".to_string()).message(),
        "No default marginfi account set for profile \"z\". Use `p0 account list`, `p0 account use <ACCOUNT>`, or `p0 account create`."
    );
}
