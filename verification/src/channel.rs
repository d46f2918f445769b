//! Channel configurations.

use core::time::Duration;

use vstd::prelude::*;

verus! {

/// How the messages of a channel travel.
#[derive(Debug, Clone, Copy)]
pub enum SendType {
    /// Messages can be lost or received out of order.
    Unreliable,
    /// Messages arrive in the order they were sent; a lost one is sent again after `resend_time`.
    ReliableOrdered { resend_time: Duration },
    /// Messages arrive in any order; a lost one is sent again after `resend_time`.
    ReliableUnordered { resend_time: Duration },
}

/// Configuration of one channel.
#[derive(Debug, Clone, Copy)]
pub struct ChannelConfig {
    /// Channel identifier, unique within its own list.
    pub channel_id: u8,
    /// Maximum number of bytes that the channel may hold without acknowledgement.
    pub max_memory_usage_bytes: usize,
    /// Delivery guarantee of the channel.
    pub send_type: SendType,
}

/// Delivery guarantee that a replication channel asks for.
#[derive(Debug, Clone, Copy)]
pub enum ChannelKind {
    /// Unreliable and unordered.
    Unreliable,
    /// Reliable and unordered.
    Unordered,
    /// Reliable and ordered.
    Ordered,
}

/// Configuration of one replication channel.
#[derive(Debug, Clone, Copy)]
pub struct RepliconChannel {
    /// Delivery guarantee.
    pub kind: ChannelKind,
    /// Time to wait before a lost message is sent again.
    pub resend_time: Duration,
    /// Maximum number of bytes, if the channel has a limit of its own.
    pub max_bytes: Option<usize>,
}

/// The replication channels of both directions. The position of a channel is its identifier.
pub struct RepliconChannels {
    /// Channels from the server to its clients.
    pub server: Vec<RepliconChannel>,
    /// Channels from a client to the server.
    pub client: Vec<RepliconChannel>,
    /// Limit of the channels that have none of their own.
    pub default_max_bytes: usize,
}

/// The configuration that stands for the replication channel at position `index`.
pub open spec fn channel_config(
    channel: RepliconChannel,
    index: int,
    default_max_bytes: usize,
) -> ChannelConfig {
    ChannelConfig {
        channel_id: (index % 256) as u8,
        max_memory_usage_bytes: match channel.max_bytes {
            Some(bytes) => bytes,
            None => default_max_bytes,
        },
        send_type: match channel.kind {
            ChannelKind::Unreliable => SendType::Unreliable,
            ChannelKind::Unordered => SendType::ReliableUnordered {
                resend_time: channel.resend_time,
            },
            ChannelKind::Ordered => SendType::ReliableOrdered { resend_time: channel.resend_time },
        },
    }
}

/// The configurations that stand for a list of replication channels, in the same order.
pub open spec fn channel_configs(
    channels: Seq<RepliconChannel>,
    default_max_bytes: usize,
) -> Seq<ChannelConfig> {
    Seq::new(channels.len(), |i: int| channel_config(channels[i], i, default_max_bytes))
}

/// Conversion of replication channels into channel configurations.
pub trait RenetChannelsExt: Sized {
    /// The channels from the server to its clients.
    spec fn server_channels(&self) -> Seq<RepliconChannel>;

    /// The channels from a client to the server.
    spec fn client_channels(&self) -> Seq<RepliconChannel>;

    /// Limit of the channels that have none of their own.
    spec fn default_limit(&self) -> usize;

    /// Returns the server channel configurations.
    fn get_server_configs(&self) -> (r: Vec<ChannelConfig>)
        ensures
            r@ == channel_configs(self.server_channels(), self.default_limit()),
    ;

    /// Same as [`RenetChannelsExt::get_server_configs`], but for clients.
    fn get_client_configs(&self) -> (r: Vec<ChannelConfig>)
        ensures
            r@ == channel_configs(self.client_channels(), self.default_limit()),
    ;
}

impl RenetChannelsExt for RepliconChannels {
    open spec fn server_channels(&self) -> Seq<RepliconChannel> {
        self.server@
    }

    open spec fn client_channels(&self) -> Seq<RepliconChannel> {
        self.client@
    }

    open spec fn default_limit(&self) -> usize {
        self.default_max_bytes
    }

    fn get_server_configs(&self) -> (r: Vec<ChannelConfig>) {
        create_configs(&self.server, self.default_max_bytes)
    }

    fn get_client_configs(&self) -> (r: Vec<ChannelConfig>) {
        create_configs(&self.client, self.default_max_bytes)
    }
}

/// Converts replication channels into channel configurations.
///
/// Identifiers are single bytes, so they start over after 256 channels.
pub fn create_configs(channels: &[RepliconChannel], default_max_bytes: usize) -> (r: Vec<
    ChannelConfig,
>)
    ensures
        r@ == channel_configs(channels@, default_max_bytes),
{
    let mut configs: Vec<ChannelConfig> = Vec::with_capacity(channels.len());
    for index in 0..channels.len()
        invariant
            configs@ =~= channel_configs(channels@, default_max_bytes).take(index as int),
    {
        let channel = &channels[index];
        let send_type = match channel.kind {
            ChannelKind::Unreliable => SendType::Unreliable,
            ChannelKind::Unordered => SendType::ReliableUnordered {
                resend_time: channel.resend_time,
            },
            ChannelKind::Ordered => SendType::ReliableOrdered { resend_time: channel.resend_time },
        };
        let max_memory_usage_bytes: usize = match channel.max_bytes {
            Some(bytes) => bytes,
            None => default_max_bytes,
        };
        configs.push(
            ChannelConfig { channel_id: (index % 256) as u8, max_memory_usage_bytes, send_type },
        );
    }
    configs
}

/// Two channels of a list that are fewer than 256 places apart get identifiers that differ.
pub proof fn channel_ids_are_distinct(
    channels: Seq<RepliconChannel>,
    default_max_bytes: usize,
    i: int,
    j: int,
)
    requires
        0 <= i < j < channels.len(),
        j - i < 256,
    ensures
        channel_configs(channels, default_max_bytes)[i].channel_id != channel_configs(
            channels,
            default_max_bytes,
        )[j].channel_id,
{
}

/// A channel gets the delivery guarantee that it asks for, whatever its limit, and no other. A
/// reliable one waits as long as it asks for before it sends again. The limit is the channel's own,
/// or else the default. Nothing is added or left out, and the place of a channel is its identifier,
/// as far as a byte can tell.
pub proof fn channels_get_what_they_ask_for(
    channels: &[RepliconChannel],
    default_max_bytes: usize,
    configs: Vec<ChannelConfig>,
    i: int,
)
    requires
        call_ensures(create_configs, (channels, default_max_bytes), configs),
        0 <= i < channels@.len(),
    ensures
        configs@.len() == channels@.len(),
        configs@[i].channel_id as int == i % 256,
        configs@[i].send_type is Unreliable <==> channels@[i].kind is Unreliable,
        configs@[i].send_type is ReliableUnordered <==> channels@[i].kind is Unordered,
        configs@[i].send_type is ReliableOrdered <==> channels@[i].kind is Ordered,
        configs@[i].send_type matches SendType::ReliableUnordered { resend_time } ==> resend_time
            == channels@[i].resend_time,
        configs@[i].send_type matches SendType::ReliableOrdered { resend_time } ==> resend_time
            == channels@[i].resend_time,
        channels@[i].max_bytes matches Some(bytes) ==> configs@[i].max_memory_usage_bytes == bytes,
        channels@[i].max_bytes is None ==> configs@[i].max_memory_usage_bytes == default_max_bytes,
{
}

/// The configurations for the server are those of the channels to the clients, and the configurations
/// for the clients are those of the channels to the server, with the default limit of the channels.
pub proof fn directions_are_kept_apart(
    channels: RepliconChannels,
    server: &[RepliconChannel],
    client: &[RepliconChannel],
    server_configs: Vec<ChannelConfig>,
    client_configs: Vec<ChannelConfig>,
    of_server: Vec<ChannelConfig>,
    of_client: Vec<ChannelConfig>,
)
    requires
        call_ensures(RepliconChannels::get_server_configs, (&channels,), server_configs),
        call_ensures(RepliconChannels::get_client_configs, (&channels,), client_configs),
        server@ == channels.server@,
        client@ == channels.client@,
        call_ensures(create_configs, (server, channels.default_max_bytes), of_server),
        call_ensures(create_configs, (client, channels.default_max_bytes), of_client),
    ensures
        server_configs@ == of_server@,
        client_configs@ == of_client@,
{
}

} // verus!
