//! The configuration record: one entry per server under `mcpServers`, read
//! from a JSON document exactly as a tolerant record reader would: unknown
//! keys are ignored, absent keys get the documented defaults, the aliases
//! `protocolVersion`, `url` and `defaultProtocolVersion` are accepted, a key
//! given under both its names refuses the record, and a key bound to a value
//! of the wrong type refuses the record.

use vstd::prelude::*;

use crate::json::{member, Json, JsonModel};
use crate::parse::{parse_json, parsed_json};
use vstd::string::StringExecFns;

verus! {

/// The transport name used when a server entry names none.
pub fn default_transport() -> (r: String)
    ensures
        r@ == "stdio"@,
{
    String::from_str("stdio")
}

/// One configured server.
pub struct McpServerConfig {
    pub transport: String,
    pub protocol_version: Option<String>,
    pub request_timeout_secs: Option<u64>,
    pub command: String,
    pub args: Vec<String>,
    pub env: Vec<(String, String)>,
    pub endpoint: String,
    pub headers: Vec<(String, String)>,
}

/// The model of one configured server.
pub struct ServerConfigModel {
    pub transport: Seq<char>,
    pub protocol_version: Option<Seq<char>>,
    pub request_timeout_secs: Option<u64>,
    pub command: Seq<char>,
    pub args: Seq<Seq<char>>,
    pub env: Seq<(Seq<char>, Seq<char>)>,
    pub endpoint: Seq<char>,
    pub headers: Seq<(Seq<char>, Seq<char>)>,
}

/// The characters of each string in a sequence.
pub open spec fn strings_view(s: Seq<String>) -> Seq<Seq<char>> {
    Seq::new(s.len(), |i: int| s[i]@)
}

/// The characters of each pair of strings in a sequence.
pub open spec fn pairs_view(s: Seq<(String, String)>) -> Seq<(Seq<char>, Seq<char>)> {
    Seq::new(s.len(), |i: int| (s[i].0@, s[i].1@))
}

impl View for McpServerConfig {
    type V = ServerConfigModel;

    open spec fn view(&self) -> ServerConfigModel {
        ServerConfigModel {
            transport: self.transport@,
            protocol_version: match self.protocol_version {
                Some(s) => Some(s@),
                None => None,
            },
            request_timeout_secs: self.request_timeout_secs,
            command: self.command@,
            args: strings_view(self.args@),
            env: pairs_view(self.env@),
            endpoint: self.endpoint@,
            headers: pairs_view(self.headers@),
        }
    }
}

/// The whole configuration record.
pub struct McpConfig {
    pub default_protocol_version: Option<String>,
    pub mcp_servers: Vec<(String, McpServerConfig)>,
}

/// The model of the whole configuration record.
pub struct ConfigModel {
    pub default_protocol_version: Option<Seq<char>>,
    pub mcp_servers: Seq<(Seq<char>, ServerConfigModel)>,
}

impl View for McpConfig {
    type V = ConfigModel;

    open spec fn view(&self) -> ConfigModel {
        ConfigModel {
            default_protocol_version: match self.default_protocol_version {
                Some(s) => Some(s@),
                None => None,
            },
            mcp_servers: Seq::new(
                self.mcp_servers@.len(),
                |i: int| (self.mcp_servers@[i].0@, self.mcp_servers@[i].1@),
            ),
        }
    }
}

/// A string field that may be absent or `null`: any other non-string value
/// refuses the record. The outer `None` is the refusal.
pub open spec fn opt_string_field(m: JsonModel, key: Seq<char>) -> Option<Option<Seq<char>>> {
    match member(m, key) {
        None => Some(None),
        Some(JsonModel::Null) => Some(None),
        Some(JsonModel::Str(s)) => Some(Some(s)),
        Some(_) => None,
    }
}

/// An optional string field readable under two names: giving both at once
/// refuses the record.
pub open spec fn aliased_opt_string_field(m: JsonModel, key: Seq<char>, alias: Seq<char>) -> Option<
    Option<Seq<char>>,
> {
    if member(m, key) is Some && member(m, alias) is Some {
        None
    } else if member(m, key) is Some {
        opt_string_field(m, key)
    } else {
        opt_string_field(m, alias)
    }
}

/// A string field with a default for an absent key: a present value must be
/// a string, `null` included in the refusals.
pub open spec fn string_field_or(m: JsonModel, key: Seq<char>, dflt: Seq<char>) -> Option<
    Seq<char>,
> {
    match member(m, key) {
        None => Some(dflt),
        Some(JsonModel::Str(s)) => Some(s),
        Some(_) => None,
    }
}

/// A defaulted string field readable under two names.
pub open spec fn aliased_string_field_or(
    m: JsonModel,
    key: Seq<char>,
    alias: Seq<char>,
    dflt: Seq<char>,
) -> Option<Seq<char>> {
    if member(m, key) is Some && member(m, alias) is Some {
        None
    } else if member(m, key) is Some {
        string_field_or(m, key, dflt)
    } else {
        string_field_or(m, alias, dflt)
    }
}

/// An unsigned integer field that may be absent or `null`.
pub open spec fn opt_u64_field(m: JsonModel, key: Seq<char>) -> Option<Option<u64>> {
    match member(m, key) {
        None => Some(None),
        Some(JsonModel::Null) => Some(None),
        Some(JsonModel::UInt(u)) => Some(Some(u)),
        Some(_) => None,
    }
}

/// Whether every element of a JSON array is a string.
pub open spec fn string_seq_ok(items: Seq<JsonModel>) -> bool {
    forall|k: int| 0 <= k < items.len() ==> items[k] is Str
}

/// The characters of each element of an all-string JSON array.
pub open spec fn string_seq_of(items: Seq<JsonModel>) -> Seq<Seq<char>> {
    Seq::new(items.len(), |k: int| items[k]->Str_0)
}

/// A list-of-strings field with the empty list for an absent key.
pub open spec fn string_seq_field(m: JsonModel, key: Seq<char>) -> Option<Seq<Seq<char>>> {
    match member(m, key) {
        None => Some(Seq::<Seq<char>>::empty()),
        Some(JsonModel::Arr(items)) => if string_seq_ok(items) {
            Some(string_seq_of(items))
        } else {
            None
        },
        Some(_) => None,
    }
}

/// Whether every member of a JSON object holds a string.
pub open spec fn string_map_ok(es: Seq<(Seq<char>, JsonModel)>) -> bool {
    forall|k: int| 0 <= k < es.len() ==> es[k].1 is Str
}

/// The members of an all-string JSON object, as pairs of characters.
pub open spec fn string_map_of(es: Seq<(Seq<char>, JsonModel)>) -> Seq<(Seq<char>, Seq<char>)> {
    Seq::new(es.len(), |k: int| (es[k].0, es[k].1->Str_0))
}

/// A string-to-string mapping field with the empty mapping for an absent
/// key.
pub open spec fn string_map_field(m: JsonModel, key: Seq<char>) -> Option<
    Seq<(Seq<char>, Seq<char>)>,
> {
    match member(m, key) {
        None => Some(Seq::<(Seq<char>, Seq<char>)>::empty()),
        Some(JsonModel::Obj(es)) => if string_map_ok(es) {
            Some(string_map_of(es))
        } else {
            None
        },
        Some(_) => None,
    }
}

/// The server record read from one JSON value, or `None` where the value
/// refuses it.
pub open spec fn server_config_of(m: JsonModel) -> Option<ServerConfigModel> {
    if !(m is Obj) {
        None
    } else {
        let transport = string_field_or(m, "transport"@, "stdio"@);
        let pv = aliased_opt_string_field(m, "protocol_version"@, "protocolVersion"@);
        let timeout = opt_u64_field(m, "request_timeout_secs"@);
        let command = string_field_or(m, "command"@, Seq::<char>::empty());
        let args = string_seq_field(m, "args"@);
        let env = string_map_field(m, "env"@);
        let endpoint = aliased_string_field_or(m, "endpoint"@, "url"@, Seq::<char>::empty());
        let headers = string_map_field(m, "headers"@);
        if transport is Some && pv is Some && timeout is Some && command is Some && args is Some
            && env is Some && endpoint is Some && headers is Some {
            Some(
                ServerConfigModel {
                    transport: transport->0,
                    protocol_version: pv->0,
                    request_timeout_secs: timeout->0,
                    command: command->0,
                    args: args->0,
                    env: env->0,
                    endpoint: endpoint->0,
                    headers: headers->0,
                },
            )
        } else {
            None
        }
    }
}

/// Whether every entry under `mcpServers` reads as a server record.
pub open spec fn server_entries_ok(es: Seq<(Seq<char>, JsonModel)>) -> bool {
    forall|k: int| 0 <= k < es.len() ==> server_config_of(#[trigger] es[k].1) is Some
}

/// The server records under `mcpServers`, named, in document order.
pub open spec fn server_entries_of(es: Seq<(Seq<char>, JsonModel)>) -> Seq<
    (Seq<char>, ServerConfigModel),
> {
    Seq::new(es.len(), |k: int| (es[k].0, server_config_of(es[k].1)->0))
}

/// The configuration read from one JSON value: `mcpServers` must be an
/// object of server records; `None` where anything refuses it.
pub open spec fn config_of(m: JsonModel) -> Option<ConfigModel> {
    if !(m is Obj) {
        None
    } else {
        let dpv = aliased_opt_string_field(
            m,
            "default_protocol_version"@,
            "defaultProtocolVersion"@,
        );
        match member(m, "mcpServers"@) {
            Some(JsonModel::Obj(es)) => if dpv is Some && server_entries_ok(es) {
                Some(
                    ConfigModel {
                        default_protocol_version: dpv->0,
                        mcp_servers: server_entries_of(es),
                    },
                )
            } else {
                None
            },
            _ => None,
        }
    }
}

fn read_opt_string(j: &Json, key: &str) -> (r: Option<Option<String>>)
    ensures
        match r {
            None => opt_string_field(j@, key@) is None,
            Some(None) => opt_string_field(j@, key@) == Some(None::<Seq<char>>),
            Some(Some(s)) => opt_string_field(j@, key@) == Some(Some(s@)),
        },
{
    match j.get(key) {
        None => Some(None),
        Some(Json::Null) => Some(None),
        Some(Json::Str(s)) => Some(Some(s.clone())),
        Some(_) => None,
    }
}

fn read_aliased_opt_string(j: &Json, key: &str, alias: &str) -> (r: Option<Option<String>>)
    ensures
        match r {
            None => aliased_opt_string_field(j@, key@, alias@) is None,
            Some(None) => aliased_opt_string_field(j@, key@, alias@) == Some(None::<Seq<char>>),
            Some(Some(s)) => aliased_opt_string_field(j@, key@, alias@) == Some(Some(s@)),
        },
{
    if j.get(key).is_some() && j.get(alias).is_some() {
        None
    } else if j.get(key).is_some() {
        read_opt_string(j, key)
    } else {
        read_opt_string(j, alias)
    }
}

fn read_string_or(j: &Json, key: &str, dflt: String) -> (r: Option<String>)
    ensures
        match r {
            None => string_field_or(j@, key@, dflt@) is None,
            Some(s) => string_field_or(j@, key@, dflt@) == Some(s@),
        },
{
    match j.get(key) {
        None => Some(dflt),
        Some(Json::Str(s)) => Some(s.clone()),
        Some(_) => None,
    }
}

fn read_aliased_string_or(j: &Json, key: &str, alias: &str, dflt: String) -> (r: Option<String>)
    ensures
        match r {
            None => aliased_string_field_or(j@, key@, alias@, dflt@) is None,
            Some(s) => aliased_string_field_or(j@, key@, alias@, dflt@) == Some(s@),
        },
{
    if j.get(key).is_some() && j.get(alias).is_some() {
        None
    } else if j.get(key).is_some() {
        read_string_or(j, key, dflt)
    } else {
        read_string_or(j, alias, dflt)
    }
}

fn read_opt_u64(j: &Json, key: &str) -> (r: Option<Option<u64>>)
    ensures
        match r {
            None => opt_u64_field(j@, key@) is None,
            Some(v) => opt_u64_field(j@, key@) == Some(v),
        },
{
    match j.get(key) {
        None => Some(None),
        Some(Json::Null) => Some(None),
        Some(Json::UInt(u)) => Some(Some(*u)),
        Some(_) => None,
    }
}

fn read_string_seq(j: &Json, key: &str) -> (r: Option<Vec<String>>)
    ensures
        match r {
            None => string_seq_field(j@, key@) is None,
            Some(v) => string_seq_field(j@, key@) == Some(strings_view(v@)),
        },
{
    let items: &Vec<Json> = match j.get(key) {
        None => {
            let empty: Vec<String> = Vec::new();
            proof {
                assert(strings_view(empty@) =~= Seq::<Seq<char>>::empty());
            }
            return Some(empty);
        },
        Some(Json::Arr(items)) => items,
        Some(_) => {
            return None;
        },
    };
    let ghost ms = crate::json::models_of(items@);
    proof {
        crate::json::lemma_models_of(items@);
    }
    let mut out: Vec<String> = Vec::new();
    let n = items.len();
    for i in 0..n
        invariant
            n == items.len(),
            ms == crate::json::models_of(items@),
            member(j@, key@) == Some(JsonModel::Arr(ms)),
            ms.len() == n,
            forall|k: int| 0 <= k < n ==> ms[k] == #[trigger] items@[k]@,
            out@.len() == i,
            forall|k: int| 0 <= k < i ==> ms[k] == JsonModel::Str(#[trigger] out@[k]@),
    {
        proof {
            assert(ms[i as int] == items@[i as int]@);
        }
        match &items[i] {
            Json::Str(s) => {
                out.push(s.clone());
            },
            _ => {
                assert(!string_seq_ok(ms));
                return None;
            },
        }
    }
    proof {
        assert forall|k: int| 0 <= k < n implies ms[k] is Str by {
            assert(ms[k] == JsonModel::Str(out@[k]@));
        }
        assert(string_seq_ok(ms));
        assert(strings_view(out@) =~= string_seq_of(ms));
    }
    Some(out)
}

fn read_string_map(j: &Json, key: &str) -> (r: Option<Vec<(String, String)>>)
    ensures
        match r {
            None => string_map_field(j@, key@) is None,
            Some(v) => string_map_field(j@, key@) == Some(pairs_view(v@)),
        },
{
    let entries: &Vec<(String, Json)> = match j.get(key) {
        None => {
            let empty: Vec<(String, String)> = Vec::new();
            proof {
                assert(pairs_view(empty@) =~= Seq::<(Seq<char>, Seq<char>)>::empty());
            }
            return Some(empty);
        },
        Some(Json::Obj(entries)) => entries,
        Some(_) => {
            return None;
        },
    };
    let ghost ms = crate::json::entry_models_of(entries@);
    proof {
        crate::json::lemma_entry_models_of(entries@);
    }
    let mut out: Vec<(String, String)> = Vec::new();
    let n = entries.len();
    for i in 0..n
        invariant
            n == entries.len(),
            ms == crate::json::entry_models_of(entries@),
            member(j@, key@) == Some(JsonModel::Obj(ms)),
            ms.len() == n,
            forall|k: int| 0 <= k < n ==> ms[k] == (#[trigger] entries@[k].0@, entries@[k].1@),
            out@.len() == i,
            forall|k: int|
                0 <= k < i ==> ms[k] == ((#[trigger] out@[k]).0@, JsonModel::Str(out@[k].1@)),
    {
        proof {
            assert(ms[i as int] == (entries@[i as int].0@, entries@[i as int].1@));
        }
        match &entries[i].1 {
            Json::Str(s) => {
                out.push((entries[i].0.clone(), s.clone()));
            },
            _ => {
                assert(!string_map_ok(ms));
                return None;
            },
        }
    }
    proof {
        assert forall|k: int| 0 <= k < n implies ms[k].1 is Str by {
            assert(ms[k] == (out@[k].0@, JsonModel::Str(out@[k].1@)));
        }
        assert(string_map_ok(ms));
        assert(pairs_view(out@) =~= string_map_of(ms));
    }
    Some(out)
}

impl McpServerConfig {
    /// Reads one server record from a JSON value.
    pub fn from_json(j: &Json) -> (r: Option<McpServerConfig>)
        ensures
            match r {
                Some(c) => server_config_of(j@) == Some(c@),
                None => server_config_of(j@) is None,
            },
    {
        if !j.is_object() {
            return None;
        }
        let transport = match read_string_or(j, "transport", default_transport()) {
            Some(s) => s,
            None => {
                return None;
            },
        };
        let protocol_version = match read_aliased_opt_string(
            j,
            "protocol_version",
            "protocolVersion",
        ) {
            Some(v) => v,
            None => {
                return None;
            },
        };
        let request_timeout_secs = match read_opt_u64(j, "request_timeout_secs") {
            Some(v) => v,
            None => {
                return None;
            },
        };
        let command = match read_string_or(j, "command", String::new()) {
            Some(s) => s,
            None => {
                return None;
            },
        };
        let args = match read_string_seq(j, "args") {
            Some(v) => v,
            None => {
                return None;
            },
        };
        let env = match read_string_map(j, "env") {
            Some(v) => v,
            None => {
                return None;
            },
        };
        let endpoint = match read_aliased_string_or(j, "endpoint", "url", String::new()) {
            Some(s) => s,
            None => {
                return None;
            },
        };
        let headers = match read_string_map(j, "headers") {
            Some(v) => v,
            None => {
                return None;
            },
        };
        Some(
            McpServerConfig {
                transport,
                protocol_version,
                request_timeout_secs,
                command,
                args,
                env,
                endpoint,
                headers,
            },
        )
    }

    /// The per-request deadline in seconds: the configured value, or 120.
    pub fn request_timeout(&self) -> (r: u64)
        ensures
            r == effective_timeout(self@),
    {
        match &self.request_timeout_secs {
            Some(t) => *t,
            None => 120,
        }
    }
}

/// The per-request deadline of a server record: its configured value, or
/// the default of 120 seconds.
pub open spec fn effective_timeout(c: ServerConfigModel) -> u64 {
    match c.request_timeout_secs {
        Some(t) => t,
        None => 120,
    }
}

/// The server record under a name, the first such entry deciding.
pub open spec fn server_named(
    entries: Seq<(Seq<char>, ServerConfigModel)>,
    name: Seq<char>,
    i: int,
) -> Option<ServerConfigModel>
    decreases entries.len() - i,
{
    if i < 0 || i >= entries.len() {
        None
    } else if entries[i].0 == name {
        Some(entries[i].1)
    } else {
        server_named(entries, name, i + 1)
    }
}

impl McpConfig {
    /// Reads the whole configuration from a JSON value.
    pub fn from_json(j: &Json) -> (r: Option<McpConfig>)
        ensures
            match r {
                Some(c) => config_of(j@) == Some(c@),
                None => config_of(j@) is None,
            },
    {
        if !j.is_object() {
            return None;
        }
        let default_protocol_version = match read_aliased_opt_string(
            j,
            "default_protocol_version",
            "defaultProtocolVersion",
        ) {
            Some(v) => v,
            None => {
                return None;
            },
        };
        let entries: &Vec<(String, Json)> = match j.get("mcpServers") {
            Some(Json::Obj(entries)) => entries,
            _ => {
                return None;
            },
        };
        let ghost ms = crate::json::entry_models_of(entries@);
        let ghost dpvm: Option<Seq<char>> = if default_protocol_version is Some {
            Some(default_protocol_version->0@)
        } else {
            None
        };
        proof {
            crate::json::lemma_entry_models_of(entries@);
        }
        let mut mcp_servers: Vec<(String, McpServerConfig)> = Vec::new();
        let n = entries.len();
        for i in 0..n
            invariant
                n == entries.len(),
                ms == crate::json::entry_models_of(entries@),
                member(j@, "mcpServers"@) == Some(JsonModel::Obj(ms)),
                aliased_opt_string_field(
                    j@,
                    "default_protocol_version"@,
                    "defaultProtocolVersion"@,
                ) == Some(dpvm),
                dpvm == (if default_protocol_version is Some {
                    Some(default_protocol_version->0@)
                } else {
                    None
                }),
                ms.len() == n,
                forall|k: int| 0 <= k < n ==> ms[k] == (#[trigger] entries@[k].0@, entries@[k].1@),
                mcp_servers@.len() == i,
                forall|k: int|
                    0 <= k < i ==> ms[k].0 == (#[trigger] mcp_servers@[k]).0@
                        && server_config_of(ms[k].1) == Some(mcp_servers@[k].1@),
        {
            proof {
                assert(ms[i as int] == (entries@[i as int].0@, entries@[i as int].1@));
            }
            match McpServerConfig::from_json(&entries[i].1) {
                Some(c) => {
                    mcp_servers.push((entries[i].0.clone(), c));
                },
                None => {
                    proof {
                        assert(server_config_of(ms[i as int].1) is None);
                    }
                    assert(!server_entries_ok(ms));
                    return None;
                },
            }
        }
        let cfg = McpConfig { default_protocol_version, mcp_servers };
        proof {
            assert forall|k: int| 0 <= k < n implies server_config_of(
                #[trigger] ms[k].1,
            ) is Some by {
                assert(server_config_of(ms[k].1) == Some(mcp_servers@[k].1@));
            }
            assert(server_entries_ok(ms));
            assert(cfg@.mcp_servers =~= server_entries_of(ms));
        }
        Some(cfg)
    }

    /// Reads the configuration from its JSON text, through the parser.
    pub fn parse(text: &str) -> (r: Option<McpConfig>)
        ensures
            match parsed_json(text@) {
                None => r is None,
                Some(doc) => match config_of(doc@) {
                    None => r is None,
                    Some(cm) => r matches Some(c) && c@ == cm,
                },
            },
    {
        match parse_json(text) {
            Some(doc) => McpConfig::from_json(&doc),
            None => None,
        }
    }

    /// The server record under `name`, when one is configured.
    pub fn get<'a>(&'a self, name: &str) -> (r: Option<&'a McpServerConfig>)
        ensures
            match r {
                Some(c) => server_named(self@.mcp_servers, name@, 0) == Some(c@),
                None => server_named(self@.mcp_servers, name@, 0) is None,
            },
    {
        let ghost ms = self@.mcp_servers;
        let n = self.mcp_servers.len();
        for i in 0..n
            invariant
                n == self.mcp_servers@.len(),
                ms == self@.mcp_servers,
                ms.len() == n,
                forall|k: int|
                    0 <= k < n ==> ms[k] == ((#[trigger] self.mcp_servers@[k].0@),
                    self.mcp_servers@[k].1@),
                server_named(ms, name@, 0) == server_named(ms, name@, i as int),
        {
            proof {
                assert(ms[i as int] == (self.mcp_servers@[i as int].0@,
                    self.mcp_servers@[i as int].1@));
            }
            if crate::json::str_eq(self.mcp_servers[i].0.as_str(), name) {
                return Some(&self.mcp_servers[i].1);
            }
            proof {
                assert(server_named(ms, name@, i as int) == server_named(ms, name@, i as int + 1));
            }
        }
        None
    }
}


/// A server entry that leaves every optional key out gets the documented
/// defaults: stdio transport, no pinned protocol version, no timeout
/// override (so a 120 second deadline), and empty command, arguments,
/// environment, endpoint and headers.
pub proof fn lemma_server_defaults(m: JsonModel)
    requires
        m is Obj,
        member(m, "transport"@) is None,
        member(m, "protocol_version"@) is None,
        member(m, "protocolVersion"@) is None,
        member(m, "request_timeout_secs"@) is None,
        member(m, "command"@) is None,
        member(m, "args"@) is None,
        member(m, "env"@) is None,
        member(m, "endpoint"@) is None,
        member(m, "url"@) is None,
        member(m, "headers"@) is None,
    ensures
        server_config_of(m) matches Some(c) && c == (ServerConfigModel {
            transport: "stdio"@,
            protocol_version: None,
            request_timeout_secs: None,
            command: Seq::<char>::empty(),
            args: Seq::<Seq<char>>::empty(),
            env: Seq::<(Seq<char>, Seq<char>)>::empty(),
            endpoint: Seq::<char>::empty(),
            headers: Seq::<(Seq<char>, Seq<char>)>::empty(),
        }),
        effective_timeout(server_config_of(m)->0) == 120,
{
}

/// A configuration whose `default_protocol_version` is absent under both
/// its names resolves it to none; its servers are read entry by entry.
pub proof fn lemma_config_defaults(m: JsonModel, es: Seq<(Seq<char>, JsonModel)>)
    requires
        m is Obj,
        member(m, "default_protocol_version"@) is None,
        member(m, "defaultProtocolVersion"@) is None,
        member(m, "mcpServers"@) == Some(JsonModel::Obj(es)),
        server_entries_ok(es),
    ensures
        config_of(m) matches Some(c) && c.default_protocol_version is None && c.mcp_servers
            == server_entries_of(es),
{
}

} // verus!
