//! The settings of the service.
use vstd::prelude::*;

verus! {

/// Number of leaders to keep connections to.
pub const DEFAULT_TPU_CONNECTION_POOL_SIZE: usize = 4;

/// Port on which requests are served.
pub const DEFAULT_PORT: u16 = 4040;

/// Number of leaders that a transaction is sent to.
pub const DEFAULT_NUM_LEADERS: usize = 2;

/// How many leaders the window of upcoming leaders is moved ahead.
pub const DEFAULT_LEADER_OFFSET: i64 = 0;

/// Threads that send transactions.
pub const DEFAULT_TXN_SENDER_THREADS: usize = 4;

/// Most retries that a transaction is granted.
pub const DEFAULT_MAX_TXN_SEND_RETRIES: usize = 5;

/// Seconds between two rounds of retries.
pub const DEFAULT_TXN_SEND_RETRY_INTERVAL: usize = 2;

/// Largest request that is read, in bytes.
pub const MAX_REQUEST_BODY_SIZE: u32 = 15_000_000;

/// Most clients that are served at once.
pub const MAX_CONNECTIONS: u32 = 1_000_000;

/// The settings that the environment may hold.
pub struct AtlasTxnSenderEnv {
    pub identity_keypair_file: Option<String>,
    pub grpc_url: Option<String>,
    pub rpc_url: Option<String>,
    pub port: Option<u16>,
    pub tpu_connection_pool_size: Option<usize>,
    pub x_token: Option<String>,
    pub num_leaders: Option<usize>,
    pub leader_offset: Option<i64>,
    pub txn_sender_threads: Option<usize>,
    pub max_txn_send_retries: Option<usize>,
    pub txn_send_retry_interval: Option<usize>,
    pub max_retry_queue_size: Option<usize>,
}

/// The settings that the service runs with.
pub struct Settings {
    pub identity_keypair_file: Option<String>,
    pub grpc_url: String,
    pub rpc_url: String,
    pub port: u16,
    pub tpu_connection_pool_size: usize,
    pub x_token: Option<String>,
    pub num_leaders: usize,
    pub leader_offset: i64,
    pub txn_sender_threads: usize,
    pub max_txn_send_retries: usize,
    pub txn_send_retry_interval_seconds: usize,
    pub max_retry_queue_size: Option<usize>,
}

/// A setting, or what it is where the environment does not hold it.
pub open spec fn or_default<T>(setting: Option<T>, default: T) -> T {
    match setting {
        Some(value) => value,
        None => default,
    }
}

/// The service cannot run without the URLs that it reads from.
#[derive(Clone, Copy, Debug, PartialEq, Eq, Structural)]
pub enum MissingSetting {
    GrpcUrl,
    RpcUrl,
}

impl AtlasTxnSenderEnv {
    /// The settings that the service runs with.
    pub fn settings(self) -> (r: Result<Settings, MissingSetting>)
        ensures
            match r {
                Ok(s) => {
                    &&& self.grpc_url == Some(s.grpc_url)
                    &&& self.rpc_url == Some(s.rpc_url)
                    &&& s.identity_keypair_file == self.identity_keypair_file
                    &&& s.x_token == self.x_token
                    &&& s.port == or_default(self.port, DEFAULT_PORT)
                    &&& s.tpu_connection_pool_size == or_default(
                        self.tpu_connection_pool_size,
                        DEFAULT_TPU_CONNECTION_POOL_SIZE,
                    )
                    &&& s.num_leaders == or_default(self.num_leaders, DEFAULT_NUM_LEADERS)
                    &&& s.leader_offset == or_default(self.leader_offset, DEFAULT_LEADER_OFFSET)
                    &&& s.txn_sender_threads == or_default(
                        self.txn_sender_threads,
                        DEFAULT_TXN_SENDER_THREADS,
                    )
                    &&& s.max_txn_send_retries == or_default(
                        self.max_txn_send_retries,
                        DEFAULT_MAX_TXN_SEND_RETRIES,
                    )
                    &&& s.txn_send_retry_interval_seconds == or_default(
                        self.txn_send_retry_interval,
                        DEFAULT_TXN_SEND_RETRY_INTERVAL,
                    )
                    &&& s.max_retry_queue_size == self.max_retry_queue_size
                },
                Err(MissingSetting::GrpcUrl) => self.grpc_url is None,
                Err(MissingSetting::RpcUrl) => self.grpc_url is Some && self.rpc_url is None,
            },
    {
        let grpc_url = match self.grpc_url {
            Some(url) => url,
            None => {
                return Err(MissingSetting::GrpcUrl);
            },
        };
        let rpc_url = match self.rpc_url {
            Some(url) => url,
            None => {
                return Err(MissingSetting::RpcUrl);
            },
        };
        Ok(
            Settings {
                identity_keypair_file: self.identity_keypair_file,
                grpc_url,
                rpc_url,
                port: self.port.unwrap_or(DEFAULT_PORT),
                tpu_connection_pool_size: self.tpu_connection_pool_size.unwrap_or(
                    DEFAULT_TPU_CONNECTION_POOL_SIZE,
                ),
                x_token: self.x_token,
                num_leaders: self.num_leaders.unwrap_or(DEFAULT_NUM_LEADERS),
                leader_offset: self.leader_offset.unwrap_or(DEFAULT_LEADER_OFFSET),
                txn_sender_threads: self.txn_sender_threads.unwrap_or(
                    DEFAULT_TXN_SENDER_THREADS,
                ),
                max_txn_send_retries: self.max_txn_send_retries.unwrap_or(
                    DEFAULT_MAX_TXN_SEND_RETRIES,
                ),
                txn_send_retry_interval_seconds: self.txn_send_retry_interval.unwrap_or(
                    DEFAULT_TXN_SEND_RETRY_INTERVAL,
                ),
                max_retry_queue_size: self.max_retry_queue_size,
            },
        )
    }
}

/// What the environment holds counts, and the default only where it holds nothing.
pub proof fn law_environment_comes_first<T>(value: T, default: T, setting: Option<T>)
    ensures
        or_default(Some(value), default) == value,
        or_default(None, default) == default,
        or_default(setting, default) != default ==> setting == Some(or_default(setting, default)),
{
}

} // verus!
