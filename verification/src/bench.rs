//! The decisions of the throughput benchmark: how settings from the command
//! line, from a configuration file and from the defaults combine, and how the
//! transactions are shared out among senders.

use vstd::prelude::*;
use crate::primitives::Address;

verus! {

/// The first of two optional values that is there.
pub fn or<T>(first: Option<T>, second: Option<T>) -> (r: Option<T>)
    ensures
        r == if first is Some {
            first
        } else {
            second
        },
{
    match first {
        Some(v) => Some(v),
        None => second,
    }
}

/// The benchmark settings of a configuration file. A setting that the file
/// does not give is `None`.
#[derive(Debug)]
pub struct BenchmarkConfig {
    /// The rate, in transactions per second, to start with.
    pub initial_ratelimit: Option<u64>,
    /// Pairs of a count of sent transactions and the rate to go on with from
    /// there.
    pub ratelimit_thresholds: Option<Vec<[u64; 2]>>,
    /// The duration of the test in seconds.
    pub duration: Option<u64>,
    /// The number of accounts that are made beforehand.
    pub accounts: Option<u64>,
    /// The number of workers that send transactions.
    pub workers: Option<usize>,
    /// The mnemonic that the accounts are made from.
    pub mnemonic: Option<String>,
    /// The chain id.
    pub chain_id: Option<u64>,
    /// The address of the token that is transferred.
    pub token_address: Option<Address>,
    /// The URLs that connections go to.
    pub target_urls: Option<Vec<String>>,
    /// The number of connections in all.
    pub total_connections: Option<u64>,
    /// Whether worker threads are left unbound to cores.
    pub disable_thread_pinning: Option<bool>,
    /// The limit of open files to set.
    pub fd_limit: Option<u64>,
}

impl BenchmarkConfig {
    /// The settings of a file that gives none.
    pub fn empty() -> (r: BenchmarkConfig)
        ensures
            r.initial_ratelimit is None,
            r.ratelimit_thresholds is None,
            r.duration is None,
            r.accounts is None,
            r.workers is None,
            r.mnemonic is None,
            r.chain_id is None,
            r.token_address is None,
            r.target_urls is None,
            r.total_connections is None,
            r.disable_thread_pinning is None,
            r.fd_limit is None,
    {
        BenchmarkConfig {
            initial_ratelimit: None,
            ratelimit_thresholds: None,
            duration: None,
            accounts: None,
            workers: None,
            mnemonic: None,
            chain_id: None,
            token_address: None,
            target_urls: None,
            total_connections: None,
            disable_thread_pinning: None,
            fd_limit: None,
        }
    }

    /// These settings over those of `parent`: each setting is taken from here
    /// where it is given, and else from `parent`.
    pub fn merge(self, parent: BenchmarkConfig) -> (r: BenchmarkConfig)
        ensures
            merged_fields(self, parent, r),
    {
        BenchmarkConfig {
            initial_ratelimit: or(self.initial_ratelimit, parent.initial_ratelimit),
            ratelimit_thresholds: or(self.ratelimit_thresholds, parent.ratelimit_thresholds),
            duration: or(self.duration, parent.duration),
            accounts: or(self.accounts, parent.accounts),
            workers: or(self.workers, parent.workers),
            mnemonic: or(self.mnemonic, parent.mnemonic),
            chain_id: or(self.chain_id, parent.chain_id),
            token_address: or(self.token_address, parent.token_address),
            target_urls: or(self.target_urls, parent.target_urls),
            total_connections: or(self.total_connections, parent.total_connections),
            disable_thread_pinning: or(self.disable_thread_pinning, parent.disable_thread_pinning),
            fd_limit: or(self.fd_limit, parent.fd_limit),
        }
    }
}

/// A configuration file: the file that it inherits from, and its benchmark
/// settings.
#[derive(Debug)]
pub struct BenchConfig {
    pub inherits: Option<String>,
    pub benchmark: Option<BenchmarkConfig>,
}

impl BenchConfig {
    /// This file over the file `parent` that it inherits from: what this file
    /// gives counts, and what it leaves open is taken from `parent`.
    pub fn merge(self, parent: BenchConfig) -> (r: BenchConfig)
        ensures
            r.inherits == if self.inherits is Some {
                self.inherits
            } else {
                parent.inherits
            },
            r.benchmark is Some <==> self.benchmark is Some || parent.benchmark is Some,
            self.benchmark is Some && parent.benchmark is None ==> r.benchmark == self.benchmark,
            self.benchmark is None ==> r.benchmark == parent.benchmark,
            self.benchmark is Some && parent.benchmark is Some ==> r.benchmark is Some
                && merged_fields(self.benchmark->0, parent.benchmark->0, r.benchmark->0),
    {
        BenchConfig {
            inherits: or(self.inherits, parent.inherits),
            benchmark: match (self.benchmark, parent.benchmark) {
                (Some(child), Some(parent)) => Some(child.merge(parent)),
                (Some(child), None) => Some(child),
                (None, Some(parent)) => Some(parent),
                (None, None) => None,
            },
        }
    }
}

/// Whether `merged` holds each setting of `child` that is given, and else that
/// of `parent`.
pub open spec fn merged_fields(
    child: BenchmarkConfig,
    parent: BenchmarkConfig,
    merged: BenchmarkConfig,
) -> bool {
    &&& merged.initial_ratelimit == if child.initial_ratelimit is Some {
        child.initial_ratelimit
    } else {
        parent.initial_ratelimit
    }
    &&& merged.ratelimit_thresholds == if child.ratelimit_thresholds is Some {
        child.ratelimit_thresholds
    } else {
        parent.ratelimit_thresholds
    }
    &&& merged.duration == if child.duration is Some {
        child.duration
    } else {
        parent.duration
    }
    &&& merged.accounts == if child.accounts is Some {
        child.accounts
    } else {
        parent.accounts
    }
    &&& merged.workers == if child.workers is Some {
        child.workers
    } else {
        parent.workers
    }
    &&& merged.mnemonic == if child.mnemonic is Some {
        child.mnemonic
    } else {
        parent.mnemonic
    }
    &&& merged.chain_id == if child.chain_id is Some {
        child.chain_id
    } else {
        parent.chain_id
    }
    &&& merged.token_address == if child.token_address is Some {
        child.token_address
    } else {
        parent.token_address
    }
    &&& merged.target_urls == if child.target_urls is Some {
        child.target_urls
    } else {
        parent.target_urls
    }
    &&& merged.total_connections == if child.total_connections is Some {
        child.total_connections
    } else {
        parent.total_connections
    }
    &&& merged.disable_thread_pinning == if child.disable_thread_pinning is Some {
        child.disable_thread_pinning
    } else {
        parent.disable_thread_pinning
    }
    &&& merged.fd_limit == if child.fd_limit is Some {
        child.fd_limit
    } else {
        parent.fd_limit
    }
}

/// The arguments of the throughput benchmark. An argument that was not given
/// is `None`.
#[derive(Debug)]
pub struct MaxTpsArgs {
    /// The path of the configuration file.
    pub config: Option<String>,
    /// The rate to send at, in transactions per second.
    pub tps: Option<u64>,
    /// The duration of the test in seconds.
    pub duration: Option<u64>,
    /// The number of accounts that are made beforehand.
    pub accounts: Option<u64>,
    /// The number of workers that send transactions.
    pub workers: Option<usize>,
    /// The mnemonic that the accounts are made from.
    pub mnemonic: Option<String>,
    /// The chain id.
    pub chain_id: Option<u64>,
    /// The address of the token that is transferred.
    pub token_address: Option<Address>,
    /// The URLs that connections go to.
    pub target_urls: Option<Vec<String>>,
    /// The number of connections in all.
    pub total_connections: Option<u64>,
    /// Whether worker threads are left unbound to cores.
    pub disable_thread_pinning: Option<bool>,
    /// The limit of open files to set.
    pub fd_limit: Option<u64>,
}

/// The settings that a run of the benchmark goes by.
#[derive(Debug)]
pub struct RunSettings {
    pub tps: u64,
    pub duration: u64,
    pub accounts: u64,
    pub workers: usize,
    pub mnemonic: String,
    pub chain_id: u64,
    pub token_address: Address,
    pub target_urls: Vec<String>,
    pub total_connections: u64,
    pub disable_thread_pinning: bool,
    pub fd_limit: Option<u64>,
}

/// Why a run of the benchmark cannot be set up.
#[derive(Clone, Copy, Debug, PartialEq, Eq, Structural)]
pub enum BenchError {
    /// Neither the command line nor the configuration file gives a rate.
    MissingTps,
    /// There are more senders than transactions.
    NoTransactionsPerSender,
}

/// The bytes of the address of the token that is transferred by default.
pub open spec fn default_token_address() -> Seq<u8> {
    seq![
        0x20u8, 0xc0u8, 0u8, 0u8, 0u8, 0u8, 0u8, 0u8, 0u8, 0u8,
        0u8, 0u8, 0u8, 0u8, 0u8, 0u8, 0u8, 0u8, 0u8, 0u8,
    ]
}

/// The value of an optional setting, or `default` where it is not given.
pub open spec fn given_or<T>(setting: Option<T>, default: T) -> T {
    match setting {
        Some(v) => v,
        None => default,
    }
}

/// The setting that counts: that of the command line, else that of the file.
pub open spec fn chosen<T>(arg: Option<T>, configured: Option<T>) -> Option<T> {
    if arg is Some {
        arg
    } else {
        configured
    }
}

/// The value of an optional setting, or `default` where it is not given.
pub fn unwrap_or<T>(setting: Option<T>, default: T) -> (r: T)
    ensures
        r == given_or(setting, default),
{
    match setting {
        Some(v) => v,
        None => default,
    }
}

/// Combines the arguments of the command line with the settings of the
/// configuration file and the defaults. The command line counts before the
/// file, and the file before the defaults. Only the rate has no default.
pub fn resolve_settings(args: MaxTpsArgs, config: BenchmarkConfig) -> (r: Result<
    RunSettings,
    BenchError,
>)
    ensures
        r is Err <==> args.tps is None && config.initial_ratelimit is None,
        r is Err ==> r->Err_0 == BenchError::MissingTps,
        r is Ok ==> {
            let s = r->Ok_0;
            &&& Some(s.tps) == chosen(args.tps, config.initial_ratelimit)
            &&& s.duration == given_or(chosen(args.duration, config.duration), 30)
            &&& s.accounts == given_or(chosen(args.accounts, config.accounts), 100)
            &&& s.workers == given_or(chosen(args.workers, config.workers), 10)
            &&& s.mnemonic@ == match chosen(args.mnemonic, config.mnemonic) {
                Some(m) => m@,
                None => "test test test test test test test test test test test junk"@,
            }
            &&& s.chain_id == given_or(chosen(args.chain_id, config.chain_id), 1337)
            &&& s.token_address@ == match chosen(args.token_address, config.token_address) {
                Some(a) => a@,
                None => default_token_address(),
            }
            &&& match chosen(args.target_urls, config.target_urls) {
                Some(urls) => s.target_urls == urls,
                None => s.target_urls@.len() == 1 && s.target_urls@[0]@
                    == "http://localhost:8545"@,
            }
            &&& s.total_connections == given_or(
                chosen(args.total_connections, config.total_connections),
                100,
            )
            &&& s.disable_thread_pinning == given_or(
                chosen(args.disable_thread_pinning, config.disable_thread_pinning),
                false,
            )
            &&& s.fd_limit == chosen(args.fd_limit, config.fd_limit)
        },
{
    let tps = match or(args.tps, config.initial_ratelimit) {
        Some(tps) => tps,
        None => {
            return Err(BenchError::MissingTps);
        },
    };
    let mnemonic = match or(args.mnemonic, config.mnemonic) {
        Some(m) => m,
        None => String::from_str("test test test test test test test test test test test junk"),
    };
    let token_address = match or(args.token_address, config.token_address) {
        Some(a) => a,
        None => {
            let a = Address::new(
                [0x20, 0xc0, 0, 0, 0, 0, 0, 0, 0, 0, 0, 0, 0, 0, 0, 0, 0, 0, 0, 0],
            );
            assert(a@ =~= default_token_address());
            a
        },
    };
    let target_urls = match or(args.target_urls, config.target_urls) {
        Some(urls) => urls,
        None => {
            let mut urls: Vec<String> = Vec::new();
            urls.push(String::from_str("http://localhost:8545"));
            urls
        },
    };
    Ok(
        RunSettings {
            tps,
            duration: unwrap_or(or(args.duration, config.duration), 30),
            accounts: unwrap_or(or(args.accounts, config.accounts), 100),
            workers: unwrap_or(or(args.workers, config.workers), 10),
            mnemonic,
            chain_id: unwrap_or(or(args.chain_id, config.chain_id), 1337),
            token_address,
            target_urls,
            total_connections: unwrap_or(
                or(args.total_connections, config.total_connections),
                100,
            ),
            disable_thread_pinning: unwrap_or(
                or(args.disable_thread_pinning, config.disable_thread_pinning),
                false,
            ),
            fd_limit: or(args.fd_limit, config.fd_limit),
        },
    )
}

/// The number of transactions of a run: the rate times the duration. There is
/// none where the product is beyond the range of the counter.
pub fn total_transactions(tps: u64, duration: u64) -> (r: Option<u64>)
    ensures
        r is Some <==> tps * duration <= u64::MAX,
        r is Some ==> r->0 == tps * duration,
{
    if duration == 0 || tps <= u64::MAX / duration {
        assert(tps * duration <= u64::MAX) by (nonlinear_arith)
            requires
                duration == 0 || tps <= u64::MAX / duration,
        ;
        Some(tps * duration)
    } else {
        assert(tps * duration > u64::MAX) by (nonlinear_arith)
            requires
                duration > 0,
                tps > u64::MAX / duration,
        ;
        None
    }
}

/// The number of transactions that each sender signs: the transactions shared
/// out evenly, what is left over dropped. It is an error where no sender gets
/// a transaction.
pub fn transactions_per_sender(total_txs: u64, num_accounts: u64) -> (r: Result<u64, BenchError>)
    requires
        num_accounts > 0,
    ensures
        r is Ok <==> total_txs >= num_accounts,
        r is Ok ==> r->Ok_0 == total_txs / num_accounts,
        r is Err ==> r->Err_0 == BenchError::NoTransactionsPerSender,
{
    let per_sender = total_txs / num_accounts;
    assert(per_sender > 0 <==> total_txs >= num_accounts) by (nonlinear_arith)
        requires
            num_accounts > 0,
            per_sender == total_txs / num_accounts,
    ;
    if per_sender > 0 {
        Ok(per_sender)
    } else {
        Err(BenchError::NoTransactionsPerSender)
    }
}

/// The nonces of the transactions of one sender: `count` nonces from
/// `current_nonce` on.
pub fn sender_nonces(current_nonce: u64, count: u64) -> (r: Vec<u64>)
    requires
        current_nonce + count <= u64::MAX,
    ensures
        r@ == Seq::new(count as nat, |i: int| (current_nonce + i) as u64),
{
    let mut out: Vec<u64> = Vec::new();
    let mut i: u64 = 0;
    while i < count
        invariant
            i <= count,
            current_nonce + count <= u64::MAX,
            out@ == Seq::new(i as nat, |k: int| (current_nonce + k) as u64),
        decreases count - i,
    {
        out.push(current_nonce + i);
        assert(out@ =~= Seq::new((i + 1) as nat, |k: int| (current_nonce + k) as u64));
        i = i + 1;
    }
    out
}

/// The share of one sender thread: the core that it is bound to, and the
/// transactions from `start` up to `end` that it sends.
#[derive(Clone, Copy, Debug, PartialEq, Eq, Structural)]
pub struct SenderPlan {
    pub core: usize,
    pub start: usize,
    pub end: usize,
}

/// The number of sender threads: one for each worker, but no more than there
/// are cores.
pub open spec fn sender_threads(num_workers: nat, num_cores: nat) -> nat {
    if num_workers <= num_cores {
        num_workers
    } else {
        num_cores
    }
}

/// The number of transactions of a full share: the total divided by the number
/// of threads, rounded up.
pub open spec fn chunk_size(total: nat, threads: nat) -> nat
    recommends
        threads > 0,
{
    ((total + threads - 1) / threads as int) as nat
}

/// The smaller of two numbers.
pub open spec fn at_most(a: int, b: int) -> int {
    if a <= b {
        a
    } else {
        b
    }
}

/// The share of the thread `id`.
pub open spec fn sender_plan(total: nat, threads: nat, num_cores: nat, id: int) -> SenderPlan {
    let chunk = chunk_size(total, threads);
    let start = at_most(id * chunk, total as int);
    SenderPlan {
        core: (id % num_cores as int) as usize,
        start: start as usize,
        end: at_most(start + chunk, total as int) as usize,
    }
}

/// Shares `total` transactions out among the sender threads. The shares follow
/// one another and cover all transactions.
pub fn plan_senders(total: usize, num_workers: usize, num_cores: usize) -> (r: Vec<SenderPlan>)
    requires
        num_workers > 0,
        num_cores > 0,
    ensures
        r@.len() == sender_threads(num_workers as nat, num_cores as nat),
        forall|id: int|
            0 <= id < r@.len() ==> #[trigger] r@[id] == sender_plan(
                total as nat,
                r@.len(),
                num_cores as nat,
                id,
            ),
        r@[0].start == 0,
        forall|id: int| 0 <= id < r@.len() - 1 ==> (#[trigger] r@[id]).end == r@[id + 1].start,
        r@[r@.len() - 1].end == total,
{
    let threads: usize = if num_workers <= num_cores {
        num_workers
    } else {
        num_cores
    };
    let chunk: usize = if total == 0 {
        0
    } else {
        (total - 1) / threads + 1
    };
    proof {
        assert(chunk == chunk_size(total as nat, threads as nat)) by (nonlinear_arith)
            requires
                threads > 0,
                chunk == if total == 0 {
                    0
                } else {
                    (total - 1) / (threads as int) + 1
                },
        {
            if total > 0 {
                assert((total + threads - 1) == (total - 1) + threads);
                assert(((total - 1) + threads) / (threads as int) == (total - 1) / (threads as int)
                    + 1);
            } else {
                assert((threads - 1) / (threads as int) == 0);
            }
        }
        assert(chunk * threads >= total) by (nonlinear_arith)
            requires
                threads > 0,
                chunk == if total == 0 {
                    0
                } else {
                    (total - 1) / (threads as int) + 1
                },
        ;
    }
    let mut out: Vec<SenderPlan> = Vec::new();
    let mut id: usize = 0;
    let mut start: usize = 0;
    while id < threads
        invariant
            id <= threads,
            threads > 0,
            num_cores > 0,
            chunk == chunk_size(total as nat, threads as nat),
            chunk * threads >= total,
            out@.len() == id,
            start <= total,
            start == at_most(id * chunk, total as int),
            forall|k: int|
                0 <= k < id ==> #[trigger] out@[k] == sender_plan(
                    total as nat,
                    threads as nat,
                    num_cores as nat,
                    k,
                ),
            forall|k: int| 0 <= k < id - 1 ==> (#[trigger] out@[k]).end == out@[k + 1].start,
            id > 0 ==> out@[0].start == 0 && out@[id - 1].end == start,
        decreases threads - id,
    {
        let end: usize = if chunk <= total - start {
            start + chunk
        } else {
            total
        };
        proof {
            assert((id + 1) * chunk == id * chunk + chunk) by (nonlinear_arith);
            assert(end == at_most((id + 1) * chunk, total as int));
        }
        out.push(SenderPlan { core: id % num_cores, start, end });
        start = end;
        id = id + 1;
    }
    proof {
        assert(threads * chunk == chunk * threads) by (nonlinear_arith);
    }
    out
}

/// The rate that the limiter is set to: the low-order 32 bits of the rate.
/// There is none where they are zero.
pub fn rate_quota(tps: u64) -> (r: Option<u32>)
    ensures
        r is Some <==> tps % 0x1_0000_0000 != 0,
        r is Some ==> r->0 == tps % 0x1_0000_0000,
{
    let low: u32 = (tps % 0x1_0000_0000) as u32;
    if low == 0 {
        None
    } else {
        Some(low)
    }
}

/// What is done about the limit of open files.
#[derive(Clone, Copy, Debug, PartialEq, Eq, Structural)]
pub enum NofileAction {
    /// The hard limit is below what is asked for: nothing can be done.
    Refuse,
    /// The soft limit is the hard limit already.
    Keep,
    /// The soft limit is raised to the hard limit.
    Raise,
}

/// Decides what is done about the limit of open files, given the limits that
/// are in force and the limit that is asked for.
pub fn nofile_action(soft: u64, hard: u64, min_limit: u64) -> (r: NofileAction)
    ensures
        r == if hard < min_limit {
            NofileAction::Refuse
        } else if soft != hard {
            NofileAction::Raise
        } else {
            NofileAction::Keep
        },
{
    if hard < min_limit {
        NofileAction::Refuse
    } else if soft != hard {
        NofileAction::Raise
    } else {
        NofileAction::Keep
    }
}

/// The number of transactions that were sent since the counter was last read.
pub fn tps_sample(last_count: u64, current_count: u64) -> (r: u64)
    requires
        last_count <= current_count,
    ensures
        r == current_count - last_count,
{
    current_count - last_count
}

} // verus!
