use server_bot::command::SlashCommand;

#[test]
fn command_names_match_their_wire_form() {
    assert_eq!(SlashCommand::Connect.name(), "connect-server");
    assert_eq!(SlashCommand::Start.name(), "start-server");
    assert_eq!(SlashCommand::Stop.name(), "stop-server");
    assert_eq!(SlashCommand::Restart.name(), "restart-server");
    assert_eq!(SlashCommand::Pause.name(), "pause-server");
    assert_eq!(SlashCommand::Unpause.name(), "unpause-server");
    assert_eq!(SlashCommand::Resume.name(), "resume-server");
    assert_eq!(SlashCommand::Status.name(), "server-status");
    assert_eq!(SlashCommand::List.name(), "list-servers");
}

#[test]
fn every_command_parses_back_from_its_name() {
    for cmd in SlashCommand::all() {
        assert_eq!(SlashCommand::parse(&cmd.name()), Some(cmd));
    }
}

#[test]
fn unknown_names_do_not_parse() {
    assert_eq!(SlashCommand::parse("destroy-server"), None);
    assert_eq!(SlashCommand::parse(""), None);
    assert_eq!(SlashCommand::parse("start-server "), None);
}

#[test]
fn all_commands_are_listed_once_in_registration_order() {
    let all = SlashCommand::all();
    assert_eq!(all.len(), 9);
    assert_eq!(all[0], SlashCommand::Connect);
    assert_eq!(all[8], SlashCommand::List);
    for (i, a) in all.iter().enumerate() {
        for (j, b) in all.iter().enumerate() {
            if i != j {
                assert_ne!(a, b);
            }
        }
    }
}

#[test]
fn only_the_listing_command_takes_no_server_option() {
    for cmd in SlashCommand::all() {
        assert_eq!(cmd.takes_server_option(), cmd != SlashCommand::List);
    }
    assert_eq!(SlashCommand::server_option(), "server");
}

#[test]
fn descriptions_and_pending_messages_are_stated() {
    assert_eq!(
        SlashCommand::Start.description(),
        "Starts the server if it is not already running"
    );
    assert_eq!(
        SlashCommand::Resume.description(),
        "Resumes the server if it is paused, otherwise starts it"
    );
    assert_eq!(SlashCommand::Start.pending_msg(), "Starting server...");
    assert_eq!(
        SlashCommand::List.pending_msg(),
        "Getting available server list..."
    );
}
