use precompile_core::bench::{
    nofile_action, plan_senders, rate_quota, resolve_settings, sender_nonces, total_transactions,
    tps_sample, transactions_per_sender, BenchConfig, BenchError, BenchmarkConfig, MaxTpsArgs,
    NofileAction, SenderPlan,
};
use precompile_core::primitives::Address;
use precompile_core::state_dump::{
    estimate_size, midpoint_slots, size_unit, thread_seed, validate_ranges, RangeError, SizeUnit,
};
use precompile_core::token_logs::{
    role_change_from_log, token_from_log, RoleMembershipLog, TempoToken, TokenCreatedLog,
};
use precompile_core::primitives::U256;

fn no_args() -> MaxTpsArgs {
    MaxTpsArgs {
        config: None,
        tps: None,
        duration: None,
        accounts: None,
        workers: None,
        mnemonic: None,
        chain_id: None,
        token_address: None,
        target_urls: None,
        total_connections: None,
        disable_thread_pinning: None,
        fd_limit: None,
    }
}

#[test]
fn child_settings_count_before_parent_settings() {
    let mut child = BenchmarkConfig::empty();
    child.duration = Some(60);
    child.mnemonic = Some("child".to_string());
    let mut parent = BenchmarkConfig::empty();
    parent.duration = Some(10);
    parent.accounts = Some(5);
    parent.token_address = Some(Address::new([3; 20]));
    parent.ratelimit_thresholds = Some(vec![[100, 20]]);
    let merged = child.merge(parent);
    assert_eq!(merged.duration, Some(60));
    assert_eq!(merged.accounts, Some(5));
    assert_eq!(merged.mnemonic.as_deref(), Some("child"));
    assert_eq!(merged.token_address, Some(Address::new([3; 20])));
    assert_eq!(merged.ratelimit_thresholds, Some(vec![[100, 20]]));
    assert_eq!(merged.workers, None);
}

#[test]
fn files_inherit_from_their_parent() {
    let mut settings = BenchmarkConfig::empty();
    settings.chain_id = Some(7);
    let child = BenchConfig { inherits: Some("base.toml".to_string()), benchmark: None };
    let parent = BenchConfig { inherits: None, benchmark: Some(settings) };
    let merged = child.merge(parent);
    assert_eq!(merged.inherits.as_deref(), Some("base.toml"));
    assert_eq!(merged.benchmark.unwrap().chain_id, Some(7));
    let a = BenchConfig { inherits: None, benchmark: None };
    let b = BenchConfig { inherits: None, benchmark: None };
    assert!(a.merge(b).benchmark.is_none());
}

#[test]
fn settings_fall_back_to_the_defaults() {
    assert_eq!(
        resolve_settings(no_args(), BenchmarkConfig::empty()).unwrap_err(),
        BenchError::MissingTps
    );
    let mut file = BenchmarkConfig::empty();
    file.initial_ratelimit = Some(500);
    let s = resolve_settings(no_args(), file).unwrap();
    assert_eq!(s.tps, 500);
    assert_eq!(s.duration, 30);
    assert_eq!(s.accounts, 100);
    assert_eq!(s.workers, 10);
    assert_eq!(s.mnemonic, "test test test test test test test test test test test junk");
    assert_eq!(s.chain_id, 1337);
    let mut token = [0u8; 20];
    token[0] = 0x20;
    token[1] = 0xc0;
    assert_eq!(s.token_address, Address::new(token));
    assert_eq!(s.target_urls, vec!["http://localhost:8545".to_string()]);
    assert_eq!(s.total_connections, 100);
    assert!(!s.disable_thread_pinning);
    assert_eq!(s.fd_limit, None);
}

#[test]
fn command_line_counts_before_the_file() {
    let mut args = no_args();
    args.tps = Some(1000);
    args.workers = Some(4);
    args.target_urls = Some(vec!["http://a".to_string(), "http://b".to_string()]);
    let mut file = BenchmarkConfig::empty();
    file.initial_ratelimit = Some(500);
    file.workers = Some(8);
    file.duration = Some(5);
    file.fd_limit = Some(4096);
    file.disable_thread_pinning = Some(true);
    let s = resolve_settings(args, file).unwrap();
    assert_eq!((s.tps, s.workers, s.duration), (1000, 4, 5));
    assert_eq!(s.target_urls.len(), 2);
    assert_eq!(s.fd_limit, Some(4096));
    assert!(s.disable_thread_pinning);
}

#[test]
fn transactions_are_counted_and_shared_out() {
    assert_eq!(total_transactions(1000, 30), Some(30_000));
    assert_eq!(total_transactions(0, 30), Some(0));
    assert_eq!(total_transactions(u64::MAX, 1), Some(u64::MAX));
    assert_eq!(total_transactions(u64::MAX, 2), None);
    assert_eq!(total_transactions(1 << 32, 1 << 32), None);
    assert_eq!(transactions_per_sender(30_000, 100), Ok(300));
    assert_eq!(transactions_per_sender(199, 100), Ok(1));
    assert_eq!(transactions_per_sender(99, 100), Err(BenchError::NoTransactionsPerSender));
    assert_eq!(sender_nonces(7, 3), vec![7, 8, 9]);
    assert_eq!(sender_nonces(7, 0), Vec::<u64>::new());
    assert_eq!(sender_nonces(u64::MAX - 1, 1), vec![u64::MAX - 1]);
}

#[test]
fn senders_cover_all_transactions() {
    let plan = |start, end, core| SenderPlan { core, start, end };
    assert_eq!(
        plan_senders(10, 4, 8),
        vec![plan(0, 3, 0), plan(3, 6, 1), plan(6, 9, 2), plan(9, 10, 3)]
    );
    assert_eq!(
        plan_senders(5, 4, 2),
        vec![plan(0, 3, 0), plan(3, 5, 1)]
    );
    assert_eq!(
        plan_senders(5, 4, 4),
        vec![plan(0, 2, 0), plan(2, 4, 1), plan(4, 5, 2), plan(5, 5, 3)]
    );
    assert_eq!(plan_senders(0, 2, 2), vec![plan(0, 0, 0), plan(0, 0, 1)]);
    assert_eq!(plan_senders(usize::MAX, 1, 1), vec![plan(0, usize::MAX, 0)]);
    let shares = plan_senders(usize::MAX, 3, 3);
    assert_eq!(shares[2].end, usize::MAX);
    assert_eq!(shares[0].end, usize::MAX / 3);
}

#[test]
fn limits_and_rates() {
    assert_eq!(rate_quota(1000), Some(1000));
    assert_eq!(rate_quota(0), None);
    assert_eq!(rate_quota(1 << 32), None);
    assert_eq!(rate_quota((1 << 32) + 5), Some(5));
    assert_eq!(nofile_action(1024, 4096, 8192), NofileAction::Refuse);
    assert_eq!(nofile_action(1024, 4096, 4096), NofileAction::Raise);
    assert_eq!(nofile_action(4096, 4096, 1), NofileAction::Keep);
    assert_eq!(tps_sample(10, 25), 15);
    assert_eq!(tps_sample(25, 25), 0);
}

#[test]
fn dump_size_is_estimated() {
    assert_eq!(estimate_size(1000, 100, 100, 10_000, 100, 2), Some(1_289_280));
    assert_eq!(estimate_size(0, 0, 0, 0, 0, 0), Some(80));
    assert_eq!(estimate_size(1, 0, u64::MAX, u64::MAX, 0, u64::MAX), Some(330));
    assert_eq!(estimate_size(1, 1, u64::MAX, u64::MAX, 0, 0), None);
    assert_eq!(estimate_size(u64::MAX, 0, 0, 0, 0, 0), None);
    assert_eq!(estimate_size(0, 0, 0, 0, 1 << 32, 1 << 32), None);
    assert_eq!(estimate_size(0, 0, 0, 0, 1 << 30, 1 << 30), None);
    assert_eq!(estimate_size(0, 0, 0, 0, 1 << 28, 1 << 28), Some(80 + 140 * (1 << 56)));
    assert_eq!(midpoint_slots(1, 1000), 500);
    assert_eq!(midpoint_slots(u64::MAX, u64::MAX), u64::MAX);
    assert_eq!(thread_seed(42, 3), Some(45));
    assert_eq!(thread_seed(u64::MAX, 1), None);
}

#[test]
fn sizes_are_shown_in_the_largest_unit() {
    assert_eq!(size_unit(0), SizeUnit::Bytes);
    assert_eq!(size_unit(1023), SizeUnit::Bytes);
    assert_eq!(size_unit(1024), SizeUnit::KB);
    assert_eq!(size_unit(1024 * 1024 - 1), SizeUnit::KB);
    assert_eq!(size_unit(1024 * 1024), SizeUnit::MB);
    assert_eq!(size_unit(1024 * 1024 * 1024), SizeUnit::GB);
    assert_eq!(size_unit(u64::MAX), SizeUnit::GB);
}

#[test]
fn ranges_are_checked_in_order() {
    assert_eq!(validate_ranges(1, 1000, 100, 10_000), Ok(()));
    assert_eq!(validate_ranges(5, 5, 7, 7), Ok(()));
    assert_eq!(
        validate_ranges(2, 1, 9, 8),
        Err(RangeError::StorageRange { min: 2, max: 1 })
    );
    assert_eq!(validate_ranges(1, 2, 9, 8), Err(RangeError::CodeRange { min: 9, max: 8 }));
}

fn created(timestamp: Option<u64>, byte: u8) -> TokenCreatedLog {
    TokenCreatedLog {
        block_timestamp: timestamp,
        emitter: Address::new([0xFA; 20]),
        token: Address::new([byte; 20]),
        token_id: U256::from_u64(byte as u64),
        name: format!("Token {byte}"),
        symbol: "TKN".to_string(),
        currency: "USD".to_string(),
    }
}

#[test]
fn tokens_are_reported_from_their_logs() {
    let t = token_from_log(&created(Some(1700), 9));
    assert_eq!(t.created_at, 1700);
    assert_eq!(t.address, Address::new([9; 20]));
    assert_eq!(t.creator, Address::new([0xFA; 20]));
    assert_eq!(t.quote_token, Address::new([9; 20]));
    assert_eq!(
        (t.decimals, t.paused, t.supply_cap, t.total_supply, t.transfer_policy_id),
        (2, false, 0, 0, 0)
    );
    assert_eq!(t.token_id, U256::from_u64(9));
    assert_eq!(
        (t.name.as_str(), t.symbol.as_str(), t.currency.as_str()),
        ("Token 9", "TKN", "USD")
    );
    let logs = vec![created(None, 1), created(Some(5), 2), created(Some(6), 3)];
    let all = TempoToken.tokens_using_logs(&logs);
    assert!(all.next_cursor.is_none());
    assert_eq!(all.tokens.len(), 3);
    assert_eq!(all.tokens.iter().map(|t| t.created_at).collect::<Vec<_>>(), vec![0, 5, 6]);
    assert_eq!(all.tokens[2].name, "Token 3");
    assert!(TempoToken.tokens_using_logs(&vec![]).tokens.is_empty());
    let logs = vec![created(None, 1), created(Some(5), 2), created(Some(6), 1)];
    let held = TempoToken.tokens_by_addresses_using_logs(&Address::new([1; 20]), &logs);
    assert!(held.next_cursor.is_none());
    assert_eq!(held.tokens.len(), 2);
    assert_eq!(held.tokens[1].balance, U256::zero());
    assert!(held.tokens[1].roles.is_empty());
    assert_eq!(held.tokens[1].token.address, Address::new([1; 20]));
    assert_eq!(held.tokens[1].token.created_at, 6);
    let none = TempoToken.tokens_by_addresses_using_logs(&Address::new([9; 20]), &logs);
    assert!(none.tokens.is_empty());
}

#[test]
fn role_changes_are_reported_from_their_logs() {
    let log = RoleMembershipLog {
        block_timestamp: None,
        block_number: Some(12),
        transaction_hash: None,
        emitter: Address::new([1; 20]),
        has_role: true,
        account: Address::new([2; 20]),
        role: U256::from_u64(77),
        sender: Address::new([3; 20]),
    };
    let change = role_change_from_log(&log);
    assert_eq!((change.timestamp, change.block_number), (0, 12));
    assert_eq!(change.transaction_hash, U256::zero());
    assert_eq!(change.token, Address::new([1; 20]));
    assert!(change.granted);
    assert_eq!(change.account, Address::new([2; 20]));
    assert_eq!(change.role, U256::from_u64(77));
    assert_eq!(change.sender, Address::new([3; 20]));
    let history = TempoToken.roles_using_logs(&vec![log]);
    assert!(history.next_cursor.is_none());
    assert_eq!(history.role_changes.len(), 1);
    assert_eq!(history.role_changes[0].block_number, 12);
}

#[test]
fn system_transactions_have_their_gas_limit() {
    assert_eq!(precompile_core::constants::SYSTEM_TX_GAS_LIMIT_ADAGIO, 30_000_000);
    assert_eq!(precompile_core::constants::SYSTEM_TX_GAS_LIMIT_MODERATO, 150_000_000);
}
