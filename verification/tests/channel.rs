use std::time::Duration;

use renet2::channel::{
    create_configs, ChannelKind, RenetChannelsExt, RepliconChannel, RepliconChannels, SendType,
};

fn channel(kind: ChannelKind, millis: u64, max_bytes: Option<usize>) -> RepliconChannel {
    RepliconChannel { kind, resend_time: Duration::from_millis(millis), max_bytes }
}

#[test]
fn kinds_become_send_types() {
    let channels = vec![
        channel(ChannelKind::Unreliable, 1, None),
        channel(ChannelKind::Unordered, 2, Some(20)),
        channel(ChannelKind::Ordered, 3, Some(30)),
    ];
    let configs = create_configs(&channels, 10);
    assert_eq!(configs.len(), 3);
    assert_eq!(configs[0].channel_id, 0);
    assert_eq!(configs[0].max_memory_usage_bytes, 10);
    assert!(matches!(configs[0].send_type, SendType::Unreliable));
    assert_eq!(configs[1].channel_id, 1);
    assert_eq!(configs[1].max_memory_usage_bytes, 20);
    assert!(matches!(
        configs[1].send_type,
        SendType::ReliableUnordered { resend_time } if resend_time == Duration::from_millis(2)
    ));
    assert_eq!(configs[2].channel_id, 2);
    assert_eq!(configs[2].max_memory_usage_bytes, 30);
    assert!(matches!(
        configs[2].send_type,
        SendType::ReliableOrdered { resend_time } if resend_time == Duration::from_millis(3)
    ));
}

#[test]
fn both_directions_are_converted() {
    let channels = RepliconChannels {
        server: vec![channel(ChannelKind::Ordered, 1, None)],
        client: vec![
            channel(ChannelKind::Unreliable, 1, None),
            channel(ChannelKind::Unreliable, 1, Some(5)),
        ],
        default_max_bytes: 7,
    };
    let server = channels.get_server_configs();
    let client = channels.get_client_configs();
    assert_eq!(server.len(), 1);
    assert_eq!(server[0].max_memory_usage_bytes, 7);
    assert_eq!(client.len(), 2);
    assert_eq!(client[0].max_memory_usage_bytes, 7);
    assert_eq!(client[1].max_memory_usage_bytes, 5);
}

#[test]
fn identifiers_start_over() {
    let channels = vec![channel(ChannelKind::Unreliable, 0, None); 258];
    let configs = create_configs(&channels, 1);
    assert_eq!(configs[255].channel_id, 255);
    assert_eq!(configs[256].channel_id, 0);
    assert_eq!(configs[257].channel_id, 1);
}
