use vstd::prelude::*;
use vstd::string::StringExecFns;
use crate::text::str_eq;

verus! {

/// The commands a user can invoke on a server, plus the listing command.
#[derive(Debug, Clone, Copy, PartialEq, Eq, Structural)]
pub enum SlashCommand {
    Connect,
    Start,
    Stop,
    Restart,
    Pause,
    Unpause,
    Resume,
    Status,
    List,
}

impl SlashCommand {
    /// The wire name each command is registered and invoked under.
    pub open spec fn spec_name(self) -> Seq<char> {
        match self {
            SlashCommand::Connect => "connect-server"@,
            SlashCommand::Start => "start-server"@,
            SlashCommand::Stop => "stop-server"@,
            SlashCommand::Restart => "restart-server"@,
            SlashCommand::Pause => "pause-server"@,
            SlashCommand::Unpause => "unpause-server"@,
            SlashCommand::Resume => "resume-server"@,
            SlashCommand::Status => "server-status"@,
            SlashCommand::List => "list-servers"@,
        }
    }

    /// The wire name each command is registered and invoked under.
    pub fn name(&self) -> (r: String)
        ensures
            r@ == self.spec_name(),
    {
        match self {
            SlashCommand::Connect => String::from_str("connect-server"),
            SlashCommand::Start => String::from_str("start-server"),
            SlashCommand::Stop => String::from_str("stop-server"),
            SlashCommand::Restart => String::from_str("restart-server"),
            SlashCommand::Pause => String::from_str("pause-server"),
            SlashCommand::Unpause => String::from_str("unpause-server"),
            SlashCommand::Resume => String::from_str("resume-server"),
            SlashCommand::Status => String::from_str("server-status"),
            SlashCommand::List => String::from_str("list-servers"),
        }
    }

    /// Which command a wire name denotes, if any.
    pub open spec fn spec_parse(s: Seq<char>) -> Option<SlashCommand> {
        if s == "connect-server"@ {
            Some(SlashCommand::Connect)
        } else if s == "start-server"@ {
            Some(SlashCommand::Start)
        } else if s == "stop-server"@ {
            Some(SlashCommand::Stop)
        } else if s == "restart-server"@ {
            Some(SlashCommand::Restart)
        } else if s == "pause-server"@ {
            Some(SlashCommand::Pause)
        } else if s == "unpause-server"@ {
            Some(SlashCommand::Unpause)
        } else if s == "resume-server"@ {
            Some(SlashCommand::Resume)
        } else if s == "server-status"@ {
            Some(SlashCommand::Status)
        } else if s == "list-servers"@ {
            Some(SlashCommand::List)
        } else {
            None
        }
    }

    /// Parses a wire name back into a command.
    pub fn parse(s: &str) -> (r: Option<SlashCommand>)
        ensures
            r == Self::spec_parse(s@),
    {
        if str_eq(s, "connect-server") {
            Some(SlashCommand::Connect)
        } else if str_eq(s, "start-server") {
            Some(SlashCommand::Start)
        } else if str_eq(s, "stop-server") {
            Some(SlashCommand::Stop)
        } else if str_eq(s, "restart-server") {
            Some(SlashCommand::Restart)
        } else if str_eq(s, "pause-server") {
            Some(SlashCommand::Pause)
        } else if str_eq(s, "unpause-server") {
            Some(SlashCommand::Unpause)
        } else if str_eq(s, "resume-server") {
            Some(SlashCommand::Resume)
        } else if str_eq(s, "server-status") {
            Some(SlashCommand::Status)
        } else if str_eq(s, "list-servers") {
            Some(SlashCommand::List)
        } else {
            None
        }
    }

    /// Every command, in registration order.
    pub fn all() -> (r: Vec<SlashCommand>)
        ensures
            r@ == seq![
                SlashCommand::Connect,
                SlashCommand::Start,
                SlashCommand::Stop,
                SlashCommand::Restart,
                SlashCommand::Pause,
                SlashCommand::Unpause,
                SlashCommand::Resume,
                SlashCommand::Status,
                SlashCommand::List,
            ],
    {
        let r: Vec<SlashCommand> = vec![
            SlashCommand::Connect,
            SlashCommand::Start,
            SlashCommand::Stop,
            SlashCommand::Restart,
            SlashCommand::Pause,
            SlashCommand::Unpause,
            SlashCommand::Resume,
            SlashCommand::Status,
            SlashCommand::List,
        ];
        proof {
            assert(r@ =~= seq![
                SlashCommand::Connect,
                SlashCommand::Start,
                SlashCommand::Stop,
                SlashCommand::Restart,
                SlashCommand::Pause,
                SlashCommand::Unpause,
                SlashCommand::Resume,
                SlashCommand::Status,
                SlashCommand::List,
            ]);
        }
        r
    }

    /// Whether the command takes a server name as its option.
    pub fn takes_server_option(&self) -> (r: bool)
        ensures
            r == (*self != SlashCommand::List),
    {
        !matches!(self, SlashCommand::List)
    }

    /// The name of the single option each server command takes.
    pub fn server_option() -> (r: String)
        ensures
            r@ == "server"@,
    {
        String::from_str("server")
    }

    /// Every command's wire name parses back to that command.
    pub proof fn lemma_name_parse_roundtrip(cmd: SlashCommand)
        ensures
            SlashCommand::spec_parse(cmd.spec_name()) == Some(cmd),
    {
        reveal_strlit("connect-server");
        reveal_strlit("start-server");
        reveal_strlit("stop-server");
        reveal_strlit("restart-server");
        reveal_strlit("pause-server");
        reveal_strlit("unpause-server");
        reveal_strlit("resume-server");
        reveal_strlit("server-status");
        reveal_strlit("list-servers");
        assert(("connect-server"@).len() == 14);
        assert(("start-server"@).len() == 12);
        assert(("stop-server"@).len() == 11);
        assert(("restart-server"@).len() == 14);
        assert(("pause-server"@).len() == 12);
        assert(("unpause-server"@).len() == 14);
        assert(("resume-server"@).len() == 13);
        assert(("server-status"@).len() == 13);
        assert(("list-servers"@).len() == 12);
        assert(("restart-server"@)[0] != ("connect-server"@)[0]);
        assert(("pause-server"@)[0] != ("start-server"@)[0]);
        assert(("unpause-server"@)[0] != ("connect-server"@)[0]);
        assert(("unpause-server"@)[0] != ("restart-server"@)[0]);
        assert(("server-status"@)[0] != ("resume-server"@)[0]);
        assert(("list-servers"@)[0] != ("start-server"@)[0]);
        assert(("list-servers"@)[0] != ("pause-server"@)[0]);
    }

    /// The help text shown for the server option of each server command;
    /// the listing command takes no option.
    pub fn option_description(&self) -> (r: String)
        requires
            *self != SlashCommand::List,
        ensures
            r@ == match *self {
                SlashCommand::Connect => "The server to get the connection string for"@,
                SlashCommand::Start => "The server to start"@,
                SlashCommand::Stop => "The server to stop"@,
                SlashCommand::Restart => "The server to restart"@,
                SlashCommand::Pause => "The server to pause"@,
                SlashCommand::Unpause => "The server to unpause"@,
                SlashCommand::Resume => "The server to resume"@,
                SlashCommand::Status => "The server to check the status of"@,
                SlashCommand::List => Seq::<char>::empty(),
            },
    {
        match self {
            SlashCommand::Connect => String::from_str("The server to get the connection string for"),
            SlashCommand::Start => String::from_str("The server to start"),
            SlashCommand::Stop => String::from_str("The server to stop"),
            SlashCommand::Restart => String::from_str("The server to restart"),
            SlashCommand::Pause => String::from_str("The server to pause"),
            SlashCommand::Unpause => String::from_str("The server to unpause"),
            SlashCommand::Resume => String::from_str("The server to resume"),
            SlashCommand::Status => String::from_str("The server to check the status of"),
            SlashCommand::List => String::new(),
        }
    }

    /// The help text shown when the command is registered.
    pub fn description(&self) -> (r: String)
        ensures
            r@ == match *self {
                SlashCommand::Connect => "Returns the connect string for the server"@,
                SlashCommand::Start => "Starts the server if it is not already running"@,
                SlashCommand::Stop => "Stops the server if it is running"@,
                SlashCommand::Restart => "Restarts the server if it is running; otherwise starts it"@,
                SlashCommand::Pause => "Pauses the server if it is running"@,
                SlashCommand::Unpause => "Unpauses the server if it is paused"@,
                SlashCommand::Resume => "Resumes the server if it is paused, otherwise starts it"@,
                SlashCommand::Status => "Returns the status of the server"@,
                SlashCommand::List => "Returns a list of available servers"@,
            },
    {
        match self {
            SlashCommand::Connect => String::from_str("Returns the connect string for the server"),
            SlashCommand::Start => String::from_str(
                "Starts the server if it is not already running",
            ),
            SlashCommand::Stop => String::from_str("Stops the server if it is running"),
            SlashCommand::Restart => String::from_str(
                "Restarts the server if it is running; otherwise starts it",
            ),
            SlashCommand::Pause => String::from_str("Pauses the server if it is running"),
            SlashCommand::Unpause => String::from_str("Unpauses the server if it is paused"),
            SlashCommand::Resume => String::from_str(
                "Resumes the server if it is paused, otherwise starts it",
            ),
            SlashCommand::Status => String::from_str("Returns the status of the server"),
            SlashCommand::List => String::from_str("Returns a list of available servers"),
        }
    }

    /// The provisional reply sent while the command is still running.
    pub fn pending_msg(&self) -> (r: String)
        ensures
            r@ == match *self {
                SlashCommand::Connect => "Getting connect string..."@,
                SlashCommand::Start => "Starting server..."@,
                SlashCommand::Stop => "Stopping server..."@,
                SlashCommand::Restart => "Restarting server..."@,
                SlashCommand::Pause => "Pausing server..."@,
                SlashCommand::Unpause => "Unpausing server..."@,
                SlashCommand::Resume => "Resuming server..."@,
                SlashCommand::Status => "Getting server status..."@,
                SlashCommand::List => "Getting available server list..."@,
            },
    {
        match self {
            SlashCommand::Connect => String::from_str("Getting connect string..."),
            SlashCommand::Start => String::from_str("Starting server..."),
            SlashCommand::Stop => String::from_str("Stopping server..."),
            SlashCommand::Restart => String::from_str("Restarting server..."),
            SlashCommand::Pause => String::from_str("Pausing server..."),
            SlashCommand::Unpause => String::from_str("Unpausing server..."),
            SlashCommand::Resume => String::from_str("Resuming server..."),
            SlashCommand::Status => String::from_str("Getting server status..."),
            SlashCommand::List => String::from_str("Getting available server list..."),
        }
    }
}

} // verus!
