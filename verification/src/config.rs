use vstd::prelude::*;
use crate::text::str_eq;

verus! {

/// The set of servers known at startup, keyed by their unique names.
pub type ServerMap = Vec<(String, ServerType)>;

/// The notification groups known at startup, keyed by their unique role ids.
pub type VoiceChannelConfigs = Vec<(u64, VoiceChatConfig)>;

/// Everything the process is configured with at startup.
pub struct Config {
    pub discord_token: String,
    pub servers: ServerMap,
    pub vcs: VoiceChannelConfigs,
}

/// The closed set of backend drivers a server can be managed through.
pub enum ServerType {
    Docker(Docker),
}

/// A server managed through a container runtime.
pub struct Docker {
    pub container_name: String,
    pub connect: String,
    pub guild_ids: Vec<u64>,
}

/// A server managed through user-supplied shell commands.
pub struct CustomServer {
    pub connect: String,
    pub start: CommandDefinition,
    pub stop: CommandDefinition,
    pub pause: Option<CommandDefinition>,
    pub unpause: Option<CommandDefinition>,
    pub restart: Option<CommandDefinition>,
    pub status: StatusCommand,
    pub guild_ids: Vec<u64>,
}

/// A command line to run for one lifecycle operation.
pub struct CommandDefinition {
    pub cmd: String,
    pub args: Vec<String>,
}

/// A command line to run to learn a server's status, with the markers that
/// identify each status in its output.
pub struct StatusCommand {
    pub cmd: String,
    pub args: Vec<String>,
    pub running_status: String,
    pub paused_status: String,
    pub stopped_status: String,
    pub pending_status: String,
}

/// One notification group: the voice channels it watches, where its
/// notifications go, the guilds it is valid in, and its message pools.
#[derive(Debug, Clone)]
pub struct VoiceChatConfig {
    pub voice_channel_ids: Vec<u64>,
    pub text_channel_id: u64,
    pub guild_ids: Vec<u64>,
    pub start_msgs: Vec<String>,
    pub end_msgs: Vec<String>,
}

impl ServerType {
    /// The guilds this server may be managed from.
    pub open spec fn spec_guild_ids(&self) -> Seq<u64> {
        match self {
            ServerType::Docker(d) => d.guild_ids@,
        }
    }

    /// The guilds this server may be managed from.
    pub fn get_guild_ids(&self) -> (r: &Vec<u64>)
        ensures
            r@ == self.spec_guild_ids(),
    {
        match self {
            ServerType::Docker(docker) => &docker.guild_ids,
        }
    }
}

/// True when `id` is among `ids`.
pub fn contains_id(ids: &Vec<u64>, id: u64) -> (r: bool)
    ensures
        r == ids@.contains(id),
{
    let mut i: usize = 0;
    while i < ids.len()
        invariant
            i <= ids.len(),
            forall|j: int| 0 <= j < i ==> ids@[j] != id,
        decreases ids.len() - i,
    {
        if ids[i] == id {
            return true;
        }
        i += 1;
    }
    false
}

/// A server map is well formed when its names are unique.
pub open spec fn server_map_wf(m: Seq<(String, ServerType)>) -> bool {
    forall|i: int, j: int| 0 <= i < j < m.len() ==> m[i].0@ != m[j].0@
}

/// Looks a server up by name and checks the requesting guild is authorized
/// for it. An unknown name and an unauthorized one are indistinguishable:
/// both give `None`.
pub fn resolve_server<'a>(servers: &'a ServerMap, name: &str, guild_id: u64) -> (r: Option<
    &'a ServerType,
>)
    requires
        server_map_wf(servers@),
    ensures
        r is Some <==> exists|i: int|
            0 <= i < servers@.len() && servers@[i].0@ == name@
                && servers@[i].1.spec_guild_ids().contains(guild_id),
        r is Some ==> exists|i: int|
            0 <= i < servers@.len() && servers@[i].0@ == name@
                && servers@[i].1.spec_guild_ids().contains(guild_id) && r == Some(&servers@[i].1),
{
    let mut i: usize = 0;
    while i < servers.len()
        invariant
            server_map_wf(servers@),
            i <= servers.len(),
            forall|j: int| 0 <= j < i ==> servers@[j].0@ != name@,
        decreases servers.len() - i,
    {
        if str_eq(servers[i].0.as_str(), name) {
            if contains_id(servers[i].1.get_guild_ids(), guild_id) {
                return Some(&servers[i].1);
            } else {
                return None;
            }
        }
        i += 1;
    }
    None
}

/// The names of the servers a guild is authorized for, in map order.
pub open spec fn guild_server_names(m: Seq<(String, ServerType)>, guild_id: u64) -> Seq<Seq<char>>
    decreases m.len(),
{
    if m.len() == 0 {
        Seq::empty()
    } else {
        guild_server_names(m.drop_last(), guild_id) + (if m.last().1.spec_guild_ids().contains(
            guild_id,
        ) {
            seq![m.last().0@]
        } else {
            Seq::<Seq<char>>::empty()
        })
    }
}

/// Lists the names of the servers the requesting guild is authorized for.
pub fn servers_for_guild(servers: &ServerMap, guild_id: u64) -> (r: Vec<String>)
    ensures
        r@.map_values(|s: String| s@) == guild_server_names(servers@, guild_id),
{
    let mut r: Vec<String> = Vec::new();
    let mut i: usize = 0;
    while i < servers.len()
        invariant
            i <= servers.len(),
            r@.map_values(|s: String| s@) == guild_server_names(servers@.take(i as int), guild_id),
        decreases servers.len() - i,
    {
        proof {
            assert(servers@.take(i + 1).drop_last() =~= servers@.take(i as int));
            assert(servers@.take(i + 1).last() == servers@[i as int]);
        }
        if contains_id(servers[i].1.get_guild_ids(), guild_id) {
            r.push(servers[i].0.clone());
        }
        i += 1;
    }
    proof {
        assert(servers@.take(servers@.len() as int) =~= servers@);
    }
    r
}

} // verus!
