//! The coordinator's side of block execution on remote shards: the channels to
//! the shards, and what is sent over them for a block.

use crate::remote_addresses::SocketAddress;
use crate::text::{decimal, push_decimal};
use vstd::prelude::*;
use vstd::string::*;

verus! {

/// The most transactions that go into one message.
pub const BATCH_SIZE: usize = 200;

/// The number of threads that fetch state values.
pub const NUM_FETCH_THREADS: usize = 24;

/// How long the coordinator waits for the network, in milliseconds.
pub const NETWORK_TIMEOUT_MS: u64 = 5000;

/// Calls `num_cpus::get`.
///
/// Trusted: the number depends on the machine, and nothing is claimed of it.
#[verifier::external_body]
fn cpu_count() -> (cpus: usize) {
    num_cpus::get()
}

/// Calls `Rng::gen_range` of `rand` on the generator of the current thread.
///
/// Trusted: the number is picked at random from those below `bound`. There has to
/// be one, else the call panics.
#[verifier::external_body]
pub(crate) fn random_below(bound: usize) -> (picked: usize)
    requires
        bound > 0,
    ensures
        picked < bound,
{
    rand::Rng::gen_range(&mut rand::thread_rng(), 0, bound)
}

/// The type of the messages with commands for a shard.
pub open spec fn command_type(shard_id: nat) -> Seq<char> {
    "execute_command_"@ + decimal(shard_id)
}

/// The type of the messages with results of a shard.
pub open spec fn result_type(shard_id: nat) -> Seq<char> {
    "execute_result_"@ + decimal(shard_id)
}

/// `prefix` followed by a number.
pub(crate) fn numbered(prefix: &str, number: usize) -> (text: String)
    ensures
        text@ == prefix@ + decimal(number as nat),
{
    let mut text = prefix.to_string();
    push_decimal(&mut text, number as u64);
    text
}

/// The number of senders for each of `num_shards` shards: they share half of the
/// threads, and each has at least one.
pub open spec fn senders_per_shard(num_threads: nat, num_shards: nat) -> nat {
    let share = num_threads / (2 * num_shards);
    if share >= 1 {
        share
    } else {
        1
    }
}

/// The channels between the coordinator and one shard.
#[derive(Debug, PartialEq, Eq)]
pub struct ShardChannels {
    /// Where the shard listens.
    pub address: SocketAddress,
    /// The type of the messages with commands.
    pub command_type: String,
    /// The type of the messages with results.
    pub result_type: String,
    /// The number of senders that take turns with the commands.
    pub num_command_senders: usize,
}

/// The coordinator's client of the executor shards.
#[derive(Debug, PartialEq, Eq)]
pub struct RemoteExecutorClient {
    shards: Vec<ShardChannels>,
}

/// How the coordinator takes part in the network.
#[derive(Debug, PartialEq, Eq)]
pub struct NetworkControllerConfig {
    pub service: String,
    pub listen_address: SocketAddress,
    pub timeout_ms: u64,
}

/// A block executor on remote shards.
#[derive(Debug, PartialEq, Eq)]
pub struct RemoteShardedBlockExecutor {
    pub network_controller: NetworkControllerConfig,
    pub client: RemoteExecutorClient,
}

impl RemoteExecutorClient {
    /// The channels to the shards, in the order of the shards.
    pub closed spec fn shards(self) -> Seq<ShardChannels> {
        self.shards@
    }

    #[verifier::type_invariant]
    spec fn well_formed(self) -> bool {
        forall|i: int|
            0 <= i < self.shards@.len() ==> (#[trigger] self.shards@[i]).num_command_senders >= 1
    }

    /// Whether the client has one shard at each of `addresses`, in their order, and
    /// shares `num_threads` threads out among them.
    pub open spec fn is_client_of(
        self,
        addresses: Seq<SocketAddress>,
        num_threads: nat,
    ) -> bool {
        &&& self.shards().len() == addresses.len()
        &&& forall|i: int|
            0 <= i < addresses.len() ==> {
                let shard = #[trigger] self.shards()[i];
                &&& shard.address == addresses[i]
                &&& shard.command_type@ == command_type(i as nat)
                &&& shard.result_type@ == result_type(i as nat)
                &&& shard.num_command_senders == senders_per_shard(num_threads, addresses.len())
            }
    }

    /// Whether the client serves shards at `addresses` with `num_threads` threads,
    /// or with as many as there are processors where no number of threads is given.
    pub open spec fn serves(
        self,
        addresses: Seq<SocketAddress>,
        num_threads: Option<usize>,
    ) -> bool {
        match num_threads {
            Some(threads) => self.is_client_of(addresses, threads as nat),
            None => exists|cpus: usize| #[trigger] self.is_client_of(addresses, cpus as nat),
        }
    }

    /// A client of the shards at the given addresses. Where no number of threads
    /// is given, it is the number of processors.
    pub fn new(
        remote_shard_addresses: Vec<SocketAddress>,
        num_threads: Option<usize>,
    ) -> (client: Self)
        ensures
            client.serves(remote_shard_addresses@, num_threads),
    {
        let threads = match num_threads {
            Some(threads) => threads,
            None => cpu_count(),
        };
        Self::with_threads(remote_shard_addresses, threads)
    }

    /// A client of the shards at the given addresses that shares `num_threads`
    /// threads out among them.
    pub fn with_threads(
        remote_shard_addresses: Vec<SocketAddress>,
        num_threads: usize,
    ) -> (client: Self)
        ensures
            client.is_client_of(remote_shard_addresses@, num_threads as nat),
    {
        let num_shards = remote_shard_addresses.len();
        let mut shards: Vec<ShardChannels> = Vec::new();
        for shard_id in 0..num_shards
            invariant
                num_shards == remote_shard_addresses@.len(),
                shards@.len() == shard_id,
                forall|i: int|
                    0 <= i < shard_id ==> {
                        let shard = #[trigger] shards@[i];
                        &&& shard.address == remote_shard_addresses@[i]
                        &&& shard.command_type@ == command_type(i as nat)
                        &&& shard.result_type@ == result_type(i as nat)
                        &&& shard.num_command_senders == senders_per_shard(
                            num_threads as nat,
                            num_shards as nat,
                        )
                    },
        {
            let share = num_threads / 2 / num_shards;
            proof {
                vstd::arithmetic::div_mod::lemma_div_denominator(
                    num_threads as int,
                    2,
                    num_shards as int,
                );
            }
            let num_command_senders = if share >= 1 {
                share
            } else {
                1
            };
            shards.push(
                ShardChannels {
                    address: remote_shard_addresses[shard_id],
                    command_type: numbered("execute_command_", shard_id),
                    result_type: numbered("execute_result_", shard_id),
                    num_command_senders,
                },
            );
        }
        RemoteExecutorClient { shards }
    }

    /// A block executor on the shards at the given addresses, coordinated from
    /// `coordinator_address`.
    pub fn create_remote_sharded_block_executor(
        coordinator_address: SocketAddress,
        remote_shard_addresses: Vec<SocketAddress>,
        num_threads: Option<usize>,
    ) -> (executor: RemoteShardedBlockExecutor)
        ensures
            executor.network_controller.service@ == "remote-executor-coordinator"@,
            executor.network_controller.listen_address == coordinator_address,
            executor.network_controller.timeout_ms == NETWORK_TIMEOUT_MS,
            executor.client.serves(remote_shard_addresses@, num_threads),
    {
        RemoteShardedBlockExecutor {
            network_controller: NetworkControllerConfig {
                service: "remote-executor-coordinator".to_string(),
                listen_address: coordinator_address,
                timeout_ms: NETWORK_TIMEOUT_MS,
            },
            client: RemoteExecutorClient::new(remote_shard_addresses, num_threads),
        }
    }

    /// Whether the shards are other machines: they are.
    pub fn is_remote_executor_client(&self) -> (remote: bool)
        ensures
            remote,
    {
        true
    }

    /// The number of shards.
    pub fn num_shards(&self) -> (num_shards: usize)
        ensures
            num_shards == self.shards().len(),
    {
        self.shards.len()
    }

    /// The channels to one shard.
    pub fn shard(&self, shard_id: usize) -> (channels: &ShardChannels)
        requires
            shard_id < self.shards().len(),
        ensures
            *channels == self.shards()[shard_id as int],
            channels.num_command_senders >= 1,
    {
        proof {
            use_type_invariant(self);
        }
        &self.shards[shard_id]
    }
}

} // verus!
