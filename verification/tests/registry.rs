use server_bot::config::{
    resolve_server, servers_for_guild, CommandDefinition, Config, CustomServer, Docker,
    ServerType, StatusCommand, VoiceChatConfig,
};

fn sample_servers() -> Vec<(String, ServerType)> {
    vec![
        (
            "survival".to_string(),
            ServerType::Docker(Docker {
                container_name: "mc-survival".to_string(),
                connect: "$PUBLIC_IP:25565".to_string(),
                guild_ids: vec![11, 22],
            }),
        ),
        (
            "creative".to_string(),
            ServerType::Docker(Docker {
                container_name: "mc-creative".to_string(),
                connect: "mc.example.net:25566".to_string(),
                guild_ids: vec![22],
            }),
        ),
    ]
}

#[test]
fn known_and_authorized_server_resolves() {
    let servers = sample_servers();
    let s = resolve_server(&servers, "survival", 11);
    match s {
        Some(ServerType::Docker(d)) => assert_eq!(d.container_name, "mc-survival"),
        None => panic!("expected the server to resolve"),
    }
}

#[test]
fn unknown_name_does_not_resolve() {
    let servers = sample_servers();
    assert!(resolve_server(&servers, "hardcore", 11).is_none());
}

#[test]
fn unauthorized_guild_is_indistinguishable_from_unknown() {
    let servers = sample_servers();
    assert!(resolve_server(&servers, "creative", 11).is_none());
    assert!(resolve_server(&servers, "creative", 22).is_some());
}

#[test]
fn guild_listing_filters_by_authorization() {
    let servers = sample_servers();
    assert_eq!(servers_for_guild(&servers, 11), vec!["survival".to_string()]);
    assert_eq!(
        servers_for_guild(&servers, 22),
        vec!["survival".to_string(), "creative".to_string()]
    );
    assert!(servers_for_guild(&servers, 33).is_empty());
}

#[test]
fn guild_ids_come_from_the_backend_entry() {
    let servers = sample_servers();
    assert_eq!(servers[0].1.get_guild_ids(), &vec![11, 22]);
}

#[test]
fn a_full_configuration_can_be_assembled() {
    let config = Config {
        discord_token: "not-a-real-token".to_string(),
        servers: sample_servers(),
        vcs: vec![(
            5,
            VoiceChatConfig {
                voice_channel_ids: vec![10],
                text_channel_id: 100,
                guild_ids: vec![11],
                start_msgs: vec!["hey".to_string()],
                end_msgs: vec!["bye".to_string()],
            },
        )],
    };
    assert_eq!(config.servers.len(), 2);
    assert_eq!(config.vcs[0].1.voice_channel_ids, vec![10]);

    let custom = CustomServer {
        connect: "mc.example.net".to_string(),
        start: CommandDefinition { cmd: "svc".to_string(), args: vec!["up".to_string()] },
        stop: CommandDefinition { cmd: "svc".to_string(), args: vec!["down".to_string()] },
        pause: None,
        unpause: None,
        restart: None,
        status: StatusCommand {
            cmd: "svc".to_string(),
            args: vec!["status".to_string()],
            running_status: "up".to_string(),
            paused_status: "frozen".to_string(),
            stopped_status: "down".to_string(),
            pending_status: "starting".to_string(),
        },
        guild_ids: vec![11],
    };
    assert_eq!(custom.status.running_status, "up");
    assert!(custom.pause.is_none());
}
