//! Channel registry: builds and validates the ordered table of per-channel
//! configurations consumed by both the client and the server builders.

use vstd::prelude::*;

use crate::errors::ConfigError;

verus! {

/// Delivery guarantee requested for a channel.
#[derive(Clone, Debug)]
pub enum SendType {
    /// Messages can be lost or arrive out of order.
    Unreliable,
    /// Messages always arrive, possibly out of order.
    ReliableUnordered,
    /// Messages always arrive, in order, resent every `resend_ms` until
    /// acknowledged.
    ReliableOrdered { resend_ms: u64 },
}

/// Memory budget a channel gets by default.
pub const DEFAULT_MAX_MEMORY_USAGE_BYTES: usize = 5 * 1024 * 1024;

/// Resend interval applied when a reliable channel does not name one.
pub const DEFAULT_RESEND_MS: u64 = 300;

/// Per-tick byte budget applied when a request does not name one.
pub const DEFAULT_AVAILABLE_BYTES_PER_TICK: u64 = 60_000;

/// Per-channel configuration supplied by the application.
#[derive(Clone, Debug)]
pub struct NetworkConfig {
    pub send_type: SendType,
    pub max_memory_usage_bytes: usize,
}

impl Default for NetworkConfig {
    /// One reliable-ordered channel with the default memory budget and resend
    /// interval.
    fn default() -> (r: Self)
        ensures
            r.send_type == (SendType::ReliableOrdered { resend_ms: DEFAULT_RESEND_MS }),
            r.max_memory_usage_bytes == DEFAULT_MAX_MEMORY_USAGE_BYTES,
    {
        NetworkConfig {
            send_type: SendType::ReliableOrdered { resend_ms: DEFAULT_RESEND_MS },
            max_memory_usage_bytes: DEFAULT_MAX_MEMORY_USAGE_BYTES,
        }
    }
}

/// Ordered list of channel configurations to register; list position decides
/// the transport channel index.
#[derive(Clone, Debug)]
pub struct NetworkConfigs(pub Vec<NetworkConfig>);

impl Default for NetworkConfigs {
    /// A single default channel.
    fn default() -> (r: Self)
        ensures
            r.0@.len() == 1,
            r.0@[0].send_type == (SendType::ReliableOrdered { resend_ms: DEFAULT_RESEND_MS }),
            r.0@[0].max_memory_usage_bytes == DEFAULT_MAX_MEMORY_USAGE_BYTES,
    {
        let mut v: Vec<NetworkConfig> = Vec::new();
        v.push(NetworkConfig::default());
        NetworkConfigs(v)
    }
}

/// Delivery mode as handed to the transport: reliable modes always carry an
/// explicit resend interval.
#[derive(Clone, Copy, PartialEq, Eq, Structural, Debug)]
pub enum ChannelDelivery {
    Unreliable,
    ReliableUnordered { resend_ms: u64 },
    ReliableOrdered { resend_ms: u64 },
}

/// A validated transport-facing channel entry.
#[derive(Clone, Debug)]
pub struct ChannelConfig {
    /// Transport channel index; assigned by list position on `build`.
    pub channel_id: u8,
    /// Bytes this channel may hold before it is full.
    pub max_memory_usage_bytes: usize,
    pub delivery: ChannelDelivery,
}

/// Most channels a single connection can address: channel ids are one byte.
pub const MAX_CHANNELS: usize = 256;

/// The ordered channel table for one session, together with the shared
/// per-tick byte budget.  Built anew each time a connection or a server
/// starts.
#[derive(Clone, Debug)]
pub struct ChannelSet {
    pub channels: Vec<ChannelConfig>,
    pub available_bytes_per_tick: u64,
}

/// How a requested delivery mode reaches the transport: a reliable-unordered
/// channel gets the default resend interval.
pub open spec fn normalize_send_type(t: SendType) -> ChannelDelivery {
    match t {
        SendType::Unreliable => ChannelDelivery::Unreliable,
        SendType::ReliableUnordered => ChannelDelivery::ReliableUnordered {
            resend_ms: DEFAULT_RESEND_MS,
        },
        SendType::ReliableOrdered { resend_ms } => ChannelDelivery::ReliableOrdered { resend_ms },
    }
}

impl ChannelSet {
    /// Channel ids are exactly the list positions `0..N-1`, with at most
    /// `MAX_CHANNELS` entries.
    pub open spec fn wf(self) -> bool {
        &&& self.channels@.len() <= MAX_CHANNELS
        &&& forall|i: int|
            0 <= i < self.channels@.len() ==> (#[trigger] self.channels@[i]).channel_id == i
    }

    /// The set of channel ids this table addresses.
    pub open spec fn id_set(self) -> Set<u8> {
        Set::new(|id: u8| (id as int) < self.channels@.len())
    }

    /// The channel ids whose delivery mode is reliable.
    pub open spec fn reliable_id_set(self) -> Set<u8> {
        Set::new(
            |id: u8|
                (id as int) < self.channels@.len() && !(self.channels@[id as int].delivery
                    is Unreliable),
        )
    }
}

/// What a channel table built from `configs` with byte budget `budget`
/// looks like: same length, ids assigned by position, per-entry fields
/// carried over with the delivery mode normalized.
pub open spec fn built_from(cs: ChannelSet, configs: NetworkConfigs, budget: u64) -> bool {
    &&& cs.wf()
    &&& cs.available_bytes_per_tick == budget
    &&& cs.channels@.len() == configs.0@.len()
    &&& forall|i: int|
        0 <= i < configs.0@.len() ==> {
            &&& (#[trigger] cs.channels@[i]).channel_id == i
            &&& cs.channels@[i].max_memory_usage_bytes == configs.0@[i].max_memory_usage_bytes
            &&& cs.channels@[i].delivery == normalize_send_type(configs.0@[i].send_type)
        }
}

impl NetworkConfigs {
    /// Builds the validated channel table.  Transport channel indices are
    /// assigned by list position, `0..N-1` in registration order; a list of
    /// more than `MAX_CHANNELS` entries is rejected.
    pub fn build(&self, available_bytes_per_tick: u64) -> (r: Result<ChannelSet, ConfigError>)
        ensures
            r is Ok <==> self.0@.len() <= MAX_CHANNELS,
            r matches Ok(cs) ==> built_from(cs, *self, available_bytes_per_tick),
            r matches Err(e) ==> e == (ConfigError::TooManyChannels { supplied: self.0@.len() as usize }),
    {
        if self.0.len() > MAX_CHANNELS {
            return Err(ConfigError::TooManyChannels { supplied: self.0.len() });
        }
        let mut channels: Vec<ChannelConfig> = Vec::new();
        let mut i: usize = 0;
        while i < self.0.len()
            invariant
                i <= self.0@.len() <= MAX_CHANNELS,
                channels@.len() == i,
                forall|j: int|
                    0 <= j < i ==> {
                        &&& (#[trigger] channels@[j]).channel_id == j
                        &&& channels@[j].max_memory_usage_bytes
                            == self.0@[j].max_memory_usage_bytes
                        &&& channels@[j].delivery == normalize_send_type(self.0@[j].send_type)
                    },
            decreases self.0@.len() - i,
        {
            let c = &self.0[i];
            let delivery = match &c.send_type {
                SendType::Unreliable => ChannelDelivery::Unreliable,
                SendType::ReliableUnordered => ChannelDelivery::ReliableUnordered {
                    resend_ms: DEFAULT_RESEND_MS,
                },
                SendType::ReliableOrdered { resend_ms } => ChannelDelivery::ReliableOrdered {
                    resend_ms: *resend_ms,
                },
            };
            channels.push(
                ChannelConfig {
                    channel_id: i as u8,
                    max_memory_usage_bytes: c.max_memory_usage_bytes,
                    delivery,
                },
            );
            i = i + 1;
        }
        Ok(ChannelSet { channels, available_bytes_per_tick })
    }
}

} // verus!
