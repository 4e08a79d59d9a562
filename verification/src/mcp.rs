//! Model Context Protocol servers and tools as the commands report them:
//! server and tool descriptions, the tool ids, and the messages of the
//! server commands.

use vstd::prelude::*;
use crate::chat::{copy_strings, join_strings};
use crate::text::{append_str, chars_of, decimal, join, push_decimal, string_of, trim, trim_bounds};

verus! {

broadcast use vstd::string::group_string_axioms;

/// A configured server.
#[derive(Debug)]
pub struct McpServerInfo {
    pub name: String,
    pub enabled: bool,
    pub connected: bool,
    pub tool_count: usize,
    pub command: String,
}

/// A tool offered by a server.
#[derive(Debug)]
pub struct McpToolInfo {
    pub id: String,
    pub name: String,
    pub description: String,
    pub server: String,
    pub parameters: Vec<String>,
}

/// The command line of a server: its program, a space, and its arguments
/// separated by spaces.
pub open spec fn command_line(command: Seq<char>, args: Seq<Seq<char>>) -> Seq<char> {
    command + " "@ + join(args, " "@)
}

/// The description of the server `name`: enabled as configured, connected
/// where its name is among the connected servers, with the number of tools
/// counted for it (0 where none was counted) and its command line.
pub fn server_info(
    name: &str,
    enabled: bool,
    command: &str,
    args: &Vec<String>,
    connected_servers: &Vec<String>,
    tool_count: Option<usize>,
) -> (r: McpServerInfo)
    ensures
        r.name@ == name@,
        r.enabled == enabled,
        r.connected == connected_servers.deep_view().contains(name@),
        r.tool_count == match tool_count {
            Some(n) => n,
            None => 0,
        },
        r.command@ == command_line(command@, args.deep_view()),
{
    let mut key = String::new();
    append_str(&mut key, name);
    let mut connected = false;
    let mut i: usize = 0;
    while i < connected_servers.len()
        invariant
            i <= connected_servers.len(),
            key@ == name@,
            connected == connected_servers.deep_view().take(i as int).contains(name@),
        decreases connected_servers.len() - i,
    {
        let ghost pre = connected_servers.deep_view().take(i as int);
        assert(connected_servers.deep_view().take(i + 1) =~= pre.push(connected_servers@[i as int]@));
        if connected_servers[i] == key {
            connected = true;
        }
        proof {
            let next = pre.push(connected_servers@[i as int]@);
            assert(next.contains(name@) == (pre.contains(name@) || connected_servers@[i as int]@
                == name@)) by {
                if pre.contains(name@) {
                    let k = choose|k: int| 0 <= k < pre.len() && pre[k] == name@;
                    assert(next[k] == name@);
                }
                if connected_servers@[i as int]@ == name@ {
                    assert(next[pre.len() as int] == name@);
                }
            }
        }
        i += 1;
    }
    assert(connected_servers.deep_view().take(connected_servers.len() as int)
        =~= connected_servers.deep_view());
    let mut line = String::new();
    append_str(&mut line, command);
    append_str(&mut line, " ");
    let joined = join_strings(args, " ");
    append_str(&mut line, joined.as_str());
    McpServerInfo {
        name: key,
        enabled,
        connected,
        tool_count: match tool_count {
            Some(c) => c,
            None => 0,
        },
        command: line,
    }
}

/// The id of a server's tool: `"mcp_<server>_<tool>"`.
pub open spec fn tool_id(server: Seq<char>, tool: Seq<char>) -> Seq<char> {
    "mcp_"@ + server + "_"@ + tool
}

/// The description of the tool `name` of `server`, with its id, its
/// description (empty where it has none) and its parameters.
pub fn tool_info(server: &str, name: &str, description: &Option<String>, parameters: &Vec<String>) -> (r:
    McpToolInfo)
    ensures
        r.id@ == tool_id(server@, name@),
        r.name@ == name@,
        r.server@ == server@,
        r.description@ == match description {
            Some(d) => d@,
            None => Seq::<char>::empty(),
        },
        r.parameters.deep_view() == parameters.deep_view(),
{
    let mut id = String::new();
    append_str(&mut id, "mcp_");
    append_str(&mut id, server);
    append_str(&mut id, "_");
    append_str(&mut id, name);
    let mut n = String::new();
    append_str(&mut n, name);
    let mut s = String::new();
    append_str(&mut s, server);
    let d = match description {
        Some(d) => d.clone(),
        None => String::new(),
    };
    McpToolInfo { id, name: n, description: d, server: s, parameters: copy_strings(parameters) }
}

/// The report of an initialisation: how many servers were connected and
/// how many tools they offer.
pub fn init_summary(connected: usize, tools: usize) -> (r: String)
    ensures
        r@ == "MCP initialized. Connected to "@ + decimal(connected as nat) + " server(s) with "@
            + decimal(tools as nat) + " tool(s)"@,
{
    let mut r = String::new();
    append_str(&mut r, "MCP initialized. Connected to ");
    push_decimal(&mut r, connected as u64);
    append_str(&mut r, " server(s) with ");
    push_decimal(&mut r, tools as u64);
    append_str(&mut r, " tool(s)");
    r
}

/// The name of the server to enable or disable: the name given, trimmed;
/// an empty one is refused.
pub fn server_name_target(name: &str) -> (r: Result<String, String>)
    ensures
        trim(name@).len() == 0 ==> (r matches Err(e) && e@ == "Server name cannot be empty"@),
        trim(name@).len() > 0 ==> (r matches Ok(t) && t@ == trim(name@)),
{
    let v = chars_of(name);
    let (a, b) = trim_bounds(&v, 0, v.len());
    assert(v@.subrange(0, v@.len() as int) =~= name@);
    if a == b {
        let mut e = String::new();
        append_str(&mut e, "Server name cannot be empty");
        Err(e)
    } else {
        Ok(string_of(&v, a, b))
    }
}

/// `<before>'<name>'<after>`.
fn quoted(before: &str, name: &str, after: &str) -> (r: String)
    ensures
        r@ == before@ + "'"@ + name@ + "'"@ + after@,
{
    let mut r = String::new();
    append_str(&mut r, before);
    append_str(&mut r, "'");
    append_str(&mut r, name);
    append_str(&mut r, "'");
    append_str(&mut r, after);
    r
}

/// `"Server '<name>' not found in configuration"`.
pub fn server_not_found(name: &str) -> (r: String)
    ensures
        r@ == "Server '"@ + name@ + "' not found in configuration"@,
{
    let r = quoted("Server ", name, " not found in configuration");
    proof {
        reveal_strlit("Server ");
        reveal_strlit("'");
        reveal_strlit("Server '");
        reveal_strlit(" not found in configuration");
        reveal_strlit("' not found in configuration");
        assert(r@ =~= "Server '"@ + name@ + "' not found in configuration"@);
    }
    r
}

/// The report of a server enabled (`"Server '<name>' enabled"`) or
/// disabled (`"Server '<name>' disabled"`).
pub fn server_toggled(name: &str, enabled: bool) -> (r: String)
    ensures
        r@ == "Server '"@ + name@ + (if enabled {
            "' enabled"@
        } else {
            "' disabled"@
        }),
{
    let r = if enabled {
        quoted("Server ", name, " enabled")
    } else {
        quoted("Server ", name, " disabled")
    };
    proof {
        reveal_strlit("Server ");
        reveal_strlit("'");
        reveal_strlit("Server '");
        reveal_strlit(" enabled");
        reveal_strlit("' enabled");
        reveal_strlit(" disabled");
        reveal_strlit("' disabled");
        if enabled {
            assert(r@ =~= "Server '"@ + name@ + "' enabled"@);
        } else {
            assert(r@ =~= "Server '"@ + name@ + "' disabled"@);
        }
    }
    r
}

/// The report of a connection (`"Connected to server '<name>'"`) or a
/// disconnection (`"Disconnected from server '<name>'"`).
pub fn connection_report(name: &str, connected: bool) -> (r: String)
    ensures
        r@ == (if connected {
            "Connected to server '"@
        } else {
            "Disconnected from server '"@
        }) + name@ + "'"@,
{
    let r = if connected {
        quoted("Connected to server ", name, "")
    } else {
        quoted("Disconnected from server ", name, "")
    };
    proof {
        reveal_strlit("Connected to server ");
        reveal_strlit("Connected to server '");
        reveal_strlit("Disconnected from server ");
        reveal_strlit("Disconnected from server '");
        reveal_strlit("'");
        reveal_strlit("");
        if connected {
            assert(r@ =~= "Connected to server '"@ + name@ + "'"@);
        } else {
            assert(r@ =~= "Disconnected from server '"@ + name@ + "'"@);
        }
    }
    r
}

/// The report of a stored credential: `"Credential stored for <server> /
/// <key>"`.
pub fn credential_stored(server_name: &str, key: &str) -> (r: String)
    ensures
        r@ == "Credential stored for "@ + server_name@ + " / "@ + key@,
{
    let mut r = String::new();
    append_str(&mut r, "Credential stored for ");
    append_str(&mut r, server_name);
    append_str(&mut r, " / ");
    append_str(&mut r, key);
    r
}

/// The service under which a server's credentials are stored:
/// `"agiworkforce-mcp-<server>"`.
pub fn credential_service(server_name: &str) -> (r: String)
    ensures
        r@ == "agiworkforce-mcp-"@ + server_name@,
{
    let mut r = String::new();
    append_str(&mut r, "agiworkforce-mcp-");
    append_str(&mut r, server_name);
    r
}

} // verus!
