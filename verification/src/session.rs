//! One server session: the connect plan read off the configuration, the
//! monotonic request ids, the initialize handshake as a step machine whose
//! every outgoing frame is pinned by its contract, the tool catalog read
//! from `tools/list`, and the reading of a `tools/call` result.
//!
//! The session holds no transport: the host performs each returned frame's
//! write and hands the reply value back, so every decision here is checked,
//! and the order of the handshake frames is a proved invariant.

use vstd::prelude::*;

use crate::codec::{notification_line, notification_text, request_line, request_text};
use crate::config::{effective_timeout, ServerConfigModel, McpServerConfig};
use crate::errors::McpError;
use crate::json::{
    entry_models_of, json_dup, lemma_entry_models_of, lemma_models_of, member, models_of, Json,
    JsonModel,
};
use crate::render::{json_to_pretty_string, pretty_text};
use crate::text::{ascii_lower_of, ascii_lower_str, trim_of, trim_str};
use vstd::seq_lib::*;
use vstd::string::StringExecFns;

verus! {

/// The protocol version requested when neither the server entry nor the
/// manager names one.
pub open spec fn default_protocol() -> Seq<char> {
    "2025-11-05"@
}

/// The protocol version to request: the server entry's, else the manager's
/// default, else the built-in default.
pub open spec fn resolved_protocol(
    configured: Option<Seq<char>>,
    manager_default: Option<Seq<char>>,
) -> Seq<char> {
    match configured {
        Some(v) => v,
        None => match manager_default {
            Some(v) => v,
            None => default_protocol(),
        },
    }
}

/// How a server is reached.
pub enum TransportPlan {
    Stdio { command: String, args: Vec<String>, env: Vec<(String, String)> },
    Http { endpoint: String, headers: Vec<(String, String)> },
}

/// The model of a transport plan.
pub enum TransportPlanModel {
    Stdio {
        command: Seq<char>,
        args: Seq<Seq<char>>,
        env: Seq<(Seq<char>, Seq<char>)>,
    },
    Http { endpoint: Seq<char>, headers: Seq<(Seq<char>, Seq<char>)> },
}

impl View for TransportPlan {
    type V = TransportPlanModel;

    open spec fn view(&self) -> TransportPlanModel {
        match self {
            TransportPlan::Stdio { command, args, env } => TransportPlanModel::Stdio {
                command: command@,
                args: crate::config::strings_view(args@),
                env: crate::config::pairs_view(env@),
            },
            TransportPlan::Http { endpoint, headers } => TransportPlanModel::Http {
                endpoint: endpoint@,
                headers: crate::config::pairs_view(headers@),
            },
        }
    }
}

/// Everything the host needs to bring one server up.
pub struct ConnectPlan {
    pub requested_protocol: String,
    pub timeout_secs: u64,
    pub transport: TransportPlan,
}

/// The model of a connect plan.
pub struct ConnectPlanModel {
    pub requested_protocol: Seq<char>,
    pub timeout_secs: u64,
    pub transport: TransportPlanModel,
}

impl View for ConnectPlan {
    type V = ConnectPlanModel;

    open spec fn view(&self) -> ConnectPlanModel {
        ConnectPlanModel {
            requested_protocol: self.requested_protocol@,
            timeout_secs: self.timeout_secs,
            transport: self.transport@,
        }
    }
}

/// The transport name as compared: trimmed, with ASCII letters lowered.
pub open spec fn transport_name_of(t: Seq<char>) -> Seq<char> {
    ascii_lower_of(trim_of(t))
}

/// Whether the text is blank: nothing is left of it once trimmed.
pub open spec fn is_blank(s: Seq<char>) -> bool {
    trim_of(s).len() == 0
}

/// The message refusing a stdio entry without a command.
pub open spec fn missing_command_message(name: Seq<char>) -> Seq<char> {
    "MCP server '"@ + name + "' requires `command` when transport=stdio"@
}

/// The message refusing an HTTP entry without an endpoint.
pub open spec fn missing_endpoint_message(name: Seq<char>) -> Seq<char> {
    "MCP server '"@ + name + "' requires `endpoint` when transport=streamable_http"@
}

/// The message refusing an unknown transport name.
pub open spec fn unknown_transport_message(name: Seq<char>, t: Seq<char>) -> Seq<char> {
    "MCP server '"@ + name + "' has unsupported transport '"@ + t + "'"@
}

/// The plan read off one server entry, or the configuration error refusing
/// it: `stdio` (or a blank name) wants a command, `streamable_http` or
/// `http` wants an endpoint, anything else is refused.
pub open spec fn plan_of(
    name: Seq<char>,
    c: ServerConfigModel,
    manager_default: Option<Seq<char>>,
) -> Result<ConnectPlanModel, Seq<char>> {
    let requested = resolved_protocol(c.protocol_version, manager_default);
    let timeout = effective_timeout(c);
    let t = transport_name_of(c.transport);
    if t == "stdio"@ || t.len() == 0 {
        if is_blank(c.command) {
            Err(missing_command_message(name))
        } else {
            Ok(
                ConnectPlanModel {
                    requested_protocol: requested,
                    timeout_secs: timeout,
                    transport: TransportPlanModel::Stdio {
                        command: c.command,
                        args: c.args,
                        env: c.env,
                    },
                },
            )
        }
    } else if t == "streamable_http"@ || t == "http"@ {
        if is_blank(c.endpoint) {
            Err(missing_endpoint_message(name))
        } else {
            Ok(
                ConnectPlanModel {
                    requested_protocol: requested,
                    timeout_secs: timeout,
                    transport: TransportPlanModel::Http {
                        endpoint: c.endpoint,
                        headers: c.headers,
                    },
                },
            )
        }
    } else {
        Err(unknown_transport_message(name, t))
    }
}

fn resolve_protocol(configured: &Option<String>, manager_default: Option<&String>) -> (r: String)
    ensures
        r@ == resolved_protocol(
            match configured {
                Some(s) => Some(s@),
                None => None,
            },
            match manager_default {
                Some(s) => Some(s@),
                None => None,
            },
        ),
{
    match configured {
        Some(s) => s.clone(),
        None => match manager_default {
            Some(s) => s.clone(),
            None => String::from_str("2025-11-05"),
        },
    }
}

/// Reads the connect plan off one server entry, or the configuration error
/// refusing it.
pub fn plan_connect(name: &str, config: &McpServerConfig, manager_default: Option<&String>) -> (r:
    Result<ConnectPlan, McpError>)
    ensures
        match r {
            Ok(p) => plan_of(
                name@,
                config@,
                match manager_default {
                    Some(s) => Some(s@),
                    None => None,
                },
            ) == Ok::<ConnectPlanModel, Seq<char>>(p@),
            Err(e) => {
                &&& plan_of(
                    name@,
                    config@,
                    match manager_default {
                        Some(s) => Some(s@),
                        None => None,
                    },
                ) matches Err(msg)
                &&& e@ == crate::errors::ErrorModel::Config(
                    plan_of(
                        name@,
                        config@,
                        match manager_default {
                            Some(s) => Some(s@),
                            None => None,
                        },
                    )->Err_0,
                )
            },
        },
{
    let requested_protocol = resolve_protocol(&config.protocol_version, manager_default);
    let timeout_secs = config.request_timeout();
    let trimmed = trim_str(config.transport.as_str());
    let t = ascii_lower_str(trimmed.as_str());
    if crate::json::str_eq(t.as_str(), "stdio") || t.as_str().is_empty() {
        let command_trim = trim_str(config.command.as_str());
        if command_trim.as_str().is_empty() {
            let mut msg = String::from_str("MCP server '");
            msg.append(name);
            msg.append("' requires `command` when transport=stdio");
            proof {
                assert(msg@ =~= missing_command_message(name@));
            }
            Err(McpError::Config(msg))
        } else {
            Ok(
                ConnectPlan {
                    requested_protocol,
                    timeout_secs,
                    transport: TransportPlan::Stdio {
                        command: config.command.clone(),
                        args: clone_strings(&config.args),
                        env: clone_pairs(&config.env),
                    },
                },
            )
        }
    } else if crate::json::str_eq(t.as_str(), "streamable_http") || crate::json::str_eq(
        t.as_str(),
        "http",
    ) {
        let endpoint_trim = trim_str(config.endpoint.as_str());
        if endpoint_trim.as_str().is_empty() {
            let mut msg = String::from_str("MCP server '");
            msg.append(name);
            msg.append("' requires `endpoint` when transport=streamable_http");
            proof {
                assert(msg@ =~= missing_endpoint_message(name@));
            }
            Err(McpError::Config(msg))
        } else {
            Ok(
                ConnectPlan {
                    requested_protocol,
                    timeout_secs,
                    transport: TransportPlan::Http {
                        endpoint: config.endpoint.clone(),
                        headers: clone_pairs(&config.headers),
                    },
                },
            )
        }
    } else {
        let mut msg = String::from_str("MCP server '");
        msg.append(name);
        msg.append("' has unsupported transport '");
        msg.append(t.as_str());
        msg.append("'");
        proof {
            assert(msg@ =~= unknown_transport_message(name@, transport_name_of(
                config@.transport,
            )));
        }
        Err(McpError::Config(msg))
    }
}

fn clone_strings(v: &Vec<String>) -> (r: Vec<String>)
    ensures
        crate::config::strings_view(r@) == crate::config::strings_view(v@),
{
    let mut out: Vec<String> = Vec::new();
    let n = v.len();
    for i in 0..n
        invariant
            n == v.len(),
            out@.len() == i,
            forall|k: int| 0 <= k < i ==> (#[trigger] out@[k])@ == v@[k]@,
    {
        out.push(v[i].clone());
    }
    proof {
        assert(crate::config::strings_view(out@) =~= crate::config::strings_view(v@));
    }
    out
}

fn clone_pairs(v: &Vec<(String, String)>) -> (r: Vec<(String, String)>)
    ensures
        crate::config::pairs_view(r@) == crate::config::pairs_view(v@),
{
    let mut out: Vec<(String, String)> = Vec::new();
    let n = v.len();
    for i in 0..n
        invariant
            n == v.len(),
            out@.len() == i,
            forall|k: int|
                0 <= k < i ==> (#[trigger] out@[k]).0@ == v@[k].0@ && out@[k].1@ == v@[k].1@,
    {
        out.push((v[i].0.clone(), v[i].1.clone()));
    }
    proof {
        assert(crate::config::pairs_view(out@) =~= crate::config::pairs_view(v@));
    }
    out
}

/// One tool a server offers.
pub struct McpToolInfo {
    pub server_name: String,
    pub name: String,
    pub description: String,
    pub input_schema: Json,
}

/// The model of one tool.
pub struct ToolModel {
    pub server_name: Seq<char>,
    pub name: Seq<char>,
    pub description: Seq<char>,
    pub input_schema: JsonModel,
}

impl View for McpToolInfo {
    type V = ToolModel;

    open spec fn view(&self) -> ToolModel {
        ToolModel {
            server_name: self.server_name@,
            name: self.name@,
            description: self.description@,
            input_schema: self.input_schema@,
        }
    }
}

impl McpToolInfo {
    /// A copy holding the same data.
    pub fn dup(&self) -> (r: Self)
        ensures
            r@ == self@,
    {
        McpToolInfo {
            server_name: self.server_name.clone(),
            name: self.name.clone(),
            description: self.description.clone(),
            input_schema: json_dup(&self.input_schema),
        }
    }
}

/// A string member of a tool entry, or empty when absent or not a string.
pub open spec fn tool_string_member(m: JsonModel, key: Seq<char>) -> Seq<char> {
    match member(m, key) {
        Some(JsonModel::Str(s)) => s,
        _ => Seq::<char>::empty(),
    }
}

/// The schema a tool entry leaves out: an object accepting an object with
/// no properties.
pub open spec fn default_schema() -> JsonModel {
    JsonModel::Obj(
        seq![
            ("type"@, JsonModel::Str("object"@)),
            ("properties"@, JsonModel::Obj(Seq::<(Seq<char>, JsonModel)>::empty())),
        ],
    )
}

/// The tool read from one element of the `tools` array: names default to
/// empty, a missing schema to `default_schema`.
pub open spec fn tool_of(m: JsonModel, server: Seq<char>) -> ToolModel {
    ToolModel {
        server_name: server,
        name: tool_string_member(m, "name"@),
        description: tool_string_member(m, "description"@),
        input_schema: match member(m, "inputSchema"@) {
            Some(v) => v,
            None => default_schema(),
        },
    }
}

/// The catalog read from a `tools/list` result, or the message refusing it:
/// the result must be an object whose `tools` member is an array.
pub open spec fn tools_of(m: JsonModel, server: Seq<char>) -> Result<Seq<ToolModel>, Seq<char>> {
    match member(m, "tools"@) {
        None => Err("No tools in response"@),
        Some(JsonModel::Arr(items)) => Ok(
            Seq::new(items.len(), |k: int| tool_of(items[k], server)),
        ),
        Some(_) => Err("tools is not an array"@),
    }
}

fn tool_string_field(item: &Json, key: &str) -> (r: String)
    ensures
        r@ == tool_string_member(item@, key@),
{
    match item.get(key) {
        Some(Json::Str(s)) => s.clone(),
        _ => String::new(),
    }
}

fn default_schema_json() -> (r: Json)
    ensures
        r@ == default_schema(),
{
    let mut members: Vec<(String, Json)> = Vec::new();
    members.push((String::from_str("type"), Json::Str(String::from_str("object"))));
    members.push((String::from_str("properties"), Json::Obj(Vec::new())));
    let r = Json::Obj(members);
    proof {
        lemma_entry_models_of(members@);
        assert(entry_models_of(Seq::<(String, Json)>::empty()) =~= Seq::<(
            Seq<char>,
            JsonModel,
        )>::empty());
        assert(entry_models_of(members@) =~= default_schema()->Obj_0);
    }
    r
}

fn tool_from_item(item: &Json, server: &str) -> (r: McpToolInfo)
    ensures
        r@ == tool_of(item@, server@),
{
    let input_schema = match item.get("inputSchema") {
        Some(v) => json_dup(v),
        None => default_schema_json(),
    };
    McpToolInfo {
        server_name: String::from_str(server),
        name: tool_string_field(item, "name"),
        description: tool_string_field(item, "description"),
        input_schema,
    }
}

/// Reads the tool catalog from a `tools/list` result.
pub fn tools_from_result(result: &Json, server: &str) -> (r: Result<Vec<McpToolInfo>, McpError>)
    ensures
        match r {
            Ok(tools) => {
                &&& tools_of(result@, server@) matches Ok(ms)
                &&& ms.len() == tools@.len()
                &&& forall|k: int| 0 <= k < ms.len() ==> ms[k] == (#[trigger] tools@[k])@
            },
            Err(e) => {
                &&& tools_of(result@, server@) matches Err(msg)
                &&& e@ == crate::errors::ErrorModel::Protocol(tools_of(result@, server@)->Err_0)
            },
        },
{
    let items: &Vec<Json> = match result.get("tools") {
        None => {
            return Err(McpError::Protocol(String::from_str("No tools in response")));
        },
        Some(Json::Arr(items)) => items,
        Some(_) => {
            return Err(McpError::Protocol(String::from_str("tools is not an array")));
        },
    };
    let ghost ms = models_of(items@);
    proof {
        lemma_models_of(items@);
    }
    let mut tools: Vec<McpToolInfo> = Vec::new();
    let n = items.len();
    for i in 0..n
        invariant
            n == items.len(),
            ms == models_of(items@),
            member(result@, "tools"@) == Some(JsonModel::Arr(ms)),
            ms.len() == n,
            forall|k: int| 0 <= k < n ==> ms[k] == #[trigger] items@[k]@,
            tools@.len() == i,
            forall|k: int| 0 <= k < i ==> tool_of(ms[k], server@) == (#[trigger] tools@[k])@,
    {
        proof {
            assert(ms[i as int] == items@[i as int]@);
        }
        let t = tool_from_item(&items[i], server);
        tools.push(t);
    }
    proof {
        assert(tools_of(result@, server@) matches Ok(ts) && ts =~= Seq::new(
            ms.len(),
            |k: int| tool_of(ms[k], server@),
        ));
    }
    Ok(tools)
}

/// The version the server settled on: its `protocolVersion` string, or the
/// requested one when the reply names none.
pub open spec fn negotiated_of(m: JsonModel, requested: Seq<char>) -> Seq<char> {
    match member(m, "protocolVersion"@) {
        Some(JsonModel::Str(s)) => s,
        _ => requested,
    }
}

/// Reads the negotiated protocol version from an `initialize` result.
pub fn negotiated_from(result: &Json, requested: &String) -> (r: String)
    ensures
        r@ == negotiated_of(result@, requested@),
{
    match result.get("protocolVersion") {
        Some(Json::Str(s)) => s.clone(),
        _ => requested.clone(),
    }
}


/// Where a session stands in its life.
pub enum SessionPhase {
    /// Created; nothing sent yet.
    Start,
    /// The `initialize` request is out; its reply is awaited.
    InitSent,
    /// The reply came and `notifications/initialized` went out.
    Initialized,
    /// The `tools/list` request is out; its reply is awaited.
    ToolsSent,
    /// The handshake is done; tool calls may be dispatched.
    Ready,
}

/// The parameters of the `initialize` request.
pub open spec fn init_params_model(requested: Seq<char>) -> JsonModel {
    JsonModel::Obj(
        seq![
            ("protocolVersion"@, JsonModel::Str(requested)),
            ("capabilities"@, JsonModel::Obj(Seq::<(Seq<char>, JsonModel)>::empty())),
            (
                "clientInfo"@,
                JsonModel::Obj(
                    seq![
                        ("name"@, JsonModel::Str("mcp_client"@)),
                        ("version"@, JsonModel::Str("0.1.0"@)),
                    ],
                ),
            ),
        ],
    )
}

/// A JSON object with no members.
pub open spec fn empty_obj() -> JsonModel {
    JsonModel::Obj(Seq::<(Seq<char>, JsonModel)>::empty())
}

/// The parameters of a `tools/call` request.
pub open spec fn call_params_model(tool: Seq<char>, args: JsonModel) -> JsonModel {
    JsonModel::Obj(seq![("name"@, JsonModel::Str(tool)), ("arguments"@, args)])
}

/// The three frames every session opens with, in order: the `initialize`
/// request with id 1, the `notifications/initialized` notification, the
/// `tools/list` request with id 2.
pub open spec fn handshake_frames(requested: Seq<char>) -> Seq<Seq<char>> {
    seq![
        request_text(1, "initialize"@, Some(init_params_model(requested))),
        notification_text("notifications/initialized"@, None),
        request_text(2, "tools/list"@, Some(empty_obj())),
    ]
}

/// One server session's state.
pub struct McpServer {
    pub name: String,
    pub requested_protocol: String,
    pub negotiated_protocol: String,
    pub next_id: u64,
    pub tools: Vec<McpToolInfo>,
    pub phase: SessionPhase,
    /// Every frame this session has sent, in order.
    pub sent: Ghost<Seq<Seq<char>>>,
    /// Every request id this session has issued, in order.
    pub issued: Ghost<Seq<u64>>,
}

/// The model of a session.
pub struct ServerModel {
    pub name: Seq<char>,
    pub requested_protocol: Seq<char>,
    pub negotiated_protocol: Seq<char>,
    pub next_id: u64,
    pub tools: Seq<ToolModel>,
    pub phase: SessionPhase,
    pub sent: Seq<Seq<char>>,
    pub issued: Seq<u64>,
}

impl View for McpServer {
    type V = ServerModel;

    open spec fn view(&self) -> ServerModel {
        ServerModel {
            name: self.name@,
            requested_protocol: self.requested_protocol@,
            negotiated_protocol: self.negotiated_protocol@,
            next_id: self.next_id,
            tools: Seq::new(self.tools@.len(), |i: int| self.tools@[i]@),
            phase: self.phase,
            sent: self.sent@,
            issued: self.issued@,
        }
    }
}

impl ServerModel {
    /// The session invariant: ids are issued in order from 1, and the
    /// frames sent so far are what the phase says. A ready session has sent
    /// the three handshake frames first, whatever came after.
    pub open spec fn wf(self) -> bool {
        &&& self.next_id as int == 1 + self.issued.len()
        &&& forall|k: int|
            0 <= k < self.issued.len() ==> (#[trigger] self.issued[k]) as int == k + 1
        &&& match self.phase {
            SessionPhase::Start => self.sent.len() == 0 && self.issued.len() == 0
                && self.negotiated_protocol == self.requested_protocol && self.tools.len() == 0,
            SessionPhase::InitSent => self.sent =~= handshake_frames(
                self.requested_protocol,
            ).take(1) && self.issued.len() == 1 && self.negotiated_protocol
                == self.requested_protocol && self.tools.len() == 0,
            SessionPhase::Initialized => self.sent =~= handshake_frames(
                self.requested_protocol,
            ).take(2) && self.issued.len() == 1 && self.tools.len() == 0,
            SessionPhase::ToolsSent => self.sent =~= handshake_frames(self.requested_protocol)
                && self.issued.len() == 2 && self.tools.len() == 0,
            SessionPhase::Ready => handshake_frames(self.requested_protocol).is_prefix_of(
                self.sent,
            ) && self.issued.len() >= 2,
        }
    }
}

fn init_params(requested: &String) -> (r: Json)
    ensures
        r@ == init_params_model(requested@),
{
    let mut client_info: Vec<(String, Json)> = Vec::new();
    client_info.push((String::from_str("name"), Json::Str(String::from_str("mcp_client"))));
    client_info.push((String::from_str("version"), Json::Str(String::from_str("0.1.0"))));
    let info = Json::Obj(client_info);
    let mut members: Vec<(String, Json)> = Vec::new();
    members.push((String::from_str("protocolVersion"), Json::Str(requested.clone())));
    members.push((String::from_str("capabilities"), Json::Obj(Vec::new())));
    members.push((String::from_str("clientInfo"), info));
    let r = Json::Obj(members);
    proof {
        lemma_entry_models_of(members@);
        lemma_entry_models_of(client_info@);
        let ghost ci = entry_models_of(client_info@);
        assert(ci.len() == 2);
        assert(ci[0] == ("name"@, JsonModel::Str("mcp_client"@)));
        assert(ci[1] == ("version"@, JsonModel::Str("0.1.0"@)));
        assert(ci =~= init_params_model(requested@)->Obj_0[2].1->Obj_0);
        let ghost mm = entry_models_of(members@);
        assert(mm.len() == 3);
        assert(mm[0] == ("protocolVersion"@, JsonModel::Str(requested@)));
        assert(mm[1].0 == "capabilities"@);
        assert(mm[1].1->Obj_0 =~= Seq::<(Seq<char>, JsonModel)>::empty());
        assert(mm[1].1 == init_params_model(requested@)->Obj_0[1].1);
        assert(mm[2].0 == "clientInfo"@);
        assert(mm[2].1 == init_params_model(requested@)->Obj_0[2].1);
        assert(mm =~= init_params_model(requested@)->Obj_0);
        assert(r@ == init_params_model(requested@));
    }
    r
}

impl McpServer {
    /// A fresh session for the named server: no frame sent, the first id
    /// still unissued, the negotiated version assumed equal to the
    /// requested one until the server answers.
    pub fn new(name: String, requested_protocol: String) -> (s: Self)
        ensures
            s@.wf(),
            s@.phase is Start,
            s@.name == name@,
            s@.requested_protocol == requested_protocol@,
            s@.sent == Seq::<Seq<char>>::empty(),
            s@.issued == Seq::<u64>::empty(),
    {
        let negotiated_protocol = requested_protocol.clone();
        McpServer {
            name,
            requested_protocol,
            negotiated_protocol,
            next_id: 1,
            tools: Vec::new(),
            phase: SessionPhase::Start,
            sent: Ghost(Seq::empty()),
            issued: Ghost(Seq::empty()),
        }
    }

    /// Takes the next request id: ids go out 1, 2, 3, ... and are never
    /// reused within a session.
    fn take_id(&mut self) -> (id: u64)
        requires
            old(self).next_id < u64::MAX,
        ensures
            id == old(self).next_id,
            final(self).next_id == old(self).next_id + 1,
            final(self).issued@ == old(self).issued@.push(id),
            final(self).name == old(self).name,
            final(self).requested_protocol == old(self).requested_protocol,
            final(self).negotiated_protocol == old(self).negotiated_protocol,
            final(self).tools == old(self).tools,
            final(self).phase == old(self).phase,
            final(self).sent == old(self).sent,
    {
        let id = self.next_id;
        self.next_id = self.next_id + 1;
        proof {
            self.issued@ = self.issued@.push(id);
        }
        id
    }

    /// Opens the handshake: emits the `initialize` request, which carries
    /// id 1, the requested protocol version, empty capabilities and the
    /// client's identity.
    pub fn start_initialize(&mut self) -> (frame: String)
        requires
            old(self)@.wf(),
            old(self)@.phase is Start,
        ensures
            final(self)@.wf(),
            final(self)@.phase is InitSent,
            frame@ == request_text(
                1,
                "initialize"@,
                Some(init_params_model(old(self)@.requested_protocol)),
            ),
            final(self)@.sent == old(self)@.sent.push(frame@),
            final(self)@.issued == old(self)@.issued.push(1),
            final(self)@.name == old(self)@.name,
            final(self)@.requested_protocol == old(self)@.requested_protocol,
            final(self)@.negotiated_protocol == old(self)@.negotiated_protocol,
    {
        let params = init_params(&self.requested_protocol);
        let id = self.take_id();
        let frame = request_line(id, "initialize", Some(&params));
        self.phase = SessionPhase::InitSent;
        proof {
            self.sent@ = self.sent@.push(frame@);
            assert(final(self)@.sent =~= handshake_frames(
                final(self)@.requested_protocol,
            ).take(1));
        }
        frame
    }

    /// Closes the `initialize` exchange: records the negotiated protocol
    /// version from the server's result and emits the
    /// `notifications/initialized` notification.
    pub fn finish_initialize(&mut self, result: &Json) -> (frame: String)
        requires
            old(self)@.wf(),
            old(self)@.phase is InitSent,
        ensures
            final(self)@.wf(),
            final(self)@.phase is Initialized,
            final(self)@.negotiated_protocol == negotiated_of(
                result@,
                old(self)@.requested_protocol,
            ),
            frame@ == notification_text("notifications/initialized"@, None),
            final(self)@.sent == old(self)@.sent.push(frame@),
            final(self)@.issued == old(self)@.issued,
            final(self)@.name == old(self)@.name,
            final(self)@.requested_protocol == old(self)@.requested_protocol,
    {
        self.negotiated_protocol = negotiated_from(result, &self.requested_protocol);
        let frame = notification_line("notifications/initialized", None);
        self.phase = SessionPhase::Initialized;
        proof {
            self.sent@ = self.sent@.push(frame@);
            assert(final(self)@.sent =~= handshake_frames(
                final(self)@.requested_protocol,
            ).take(2));
        }
        frame
    }

    /// Asks for the tool catalog: emits the `tools/list` request, which
    /// carries id 2 and an empty object as parameters.
    pub fn start_tools_list(&mut self) -> (frame: String)
        requires
            old(self)@.wf(),
            old(self)@.phase is Initialized,
        ensures
            final(self)@.wf(),
            final(self)@.phase is ToolsSent,
            frame@ == request_text(2, "tools/list"@, Some(empty_obj())),
            final(self)@.sent == old(self)@.sent.push(frame@),
            final(self)@.issued == old(self)@.issued.push(2),
            final(self)@.name == old(self)@.name,
            final(self)@.requested_protocol == old(self)@.requested_protocol,
            final(self)@.negotiated_protocol == old(self)@.negotiated_protocol,
    {
        let params_vec: Vec<(String, Json)> = Vec::new();
        proof {
            lemma_entry_models_of(params_vec@);
            assert(entry_models_of(params_vec@) =~= empty_obj()->Obj_0);
        }
        let params = Json::Obj(params_vec);
        let id = self.take_id();
        let frame = request_line(id, "tools/list", Some(&params));
        self.phase = SessionPhase::ToolsSent;
        proof {
            self.sent@ = self.sent@.push(frame@);
            assert(final(self)@.sent =~= handshake_frames(final(self)@.requested_protocol));
        }
        frame
    }

    /// Closes the handshake: reads the tool catalog from the `tools/list`
    /// result. On a malformed result the session is left as it was and the
    /// error says what was missing; the caller discards the session.
    pub fn finish_tools_list(&mut self, result: &Json) -> (r: Result<(), McpError>)
        requires
            old(self)@.wf(),
            old(self)@.phase is ToolsSent,
        ensures
            match r {
                Ok(()) => {
                    &&& final(self)@.wf()
                    &&& final(self)@.phase is Ready
                    &&& tools_of(result@, old(self)@.name) matches Ok(ms) && final(self)@.tools
                        =~= ms
                    &&& final(self)@.sent == old(self)@.sent
                    &&& final(self)@.issued == old(self)@.issued
                    &&& final(self)@.name == old(self)@.name
                    &&& final(self)@.requested_protocol == old(self)@.requested_protocol
                    &&& final(self)@.negotiated_protocol == old(self)@.negotiated_protocol
                },
                Err(e) => {
                    &&& tools_of(result@, old(self)@.name) matches Err(msg)
                    &&& e@ == crate::errors::ErrorModel::Protocol(
                        tools_of(result@, old(self)@.name)->Err_0,
                    )
                    &&& *final(self) == *old(self)
                },
            },
    {
        let tools = match tools_from_result(result, self.name.as_str()) {
            Ok(tools) => tools,
            Err(e) => {
                return Err(e);
            },
        };
        self.tools = tools;
        self.phase = SessionPhase::Ready;
        proof {
            assert(final(self)@.tools =~= tools_of(result@, old(self)@.name)->Ok_0);
            assert(handshake_frames(final(self)@.requested_protocol).is_prefix_of(
                final(self)@.sent,
            ));
        }
        Ok(())
    }

    /// Dispatches one tool call: emits the `tools/call` request carrying
    /// the next id, the tool's name and its arguments. Returns the id the
    /// caller must match replies against, and the frame.
    pub fn call_tool_request(&mut self, tool_name: &str, arguments: Json) -> (r: (u64, String))
        requires
            old(self)@.wf(),
            old(self)@.phase is Ready,
            old(self).next_id < u64::MAX,
        ensures
            final(self)@.wf(),
            final(self)@.phase is Ready,
            r.0 == old(self)@.next_id,
            r.1@ == request_text(
                old(self)@.next_id,
                "tools/call"@,
                Some(call_params_model(tool_name@, arguments@)),
            ),
            final(self)@.sent == old(self)@.sent.push(r.1@),
            final(self)@.issued == old(self)@.issued.push(old(self)@.next_id),
            final(self)@.name == old(self)@.name,
            final(self)@.requested_protocol == old(self)@.requested_protocol,
            final(self)@.negotiated_protocol == old(self)@.negotiated_protocol,
            final(self)@.tools == old(self)@.tools,
    {
        let mut members: Vec<(String, Json)> = Vec::new();
        members.push((String::from_str("name"), Json::Str(String::from_str(tool_name))));
        members.push((String::from_str("arguments"), arguments));
        let params = Json::Obj(members);
        proof {
            lemma_entry_models_of(members@);
            assert(entry_models_of(members@) =~= call_params_model(
                tool_name@,
                members@[1].1@,
            )->Obj_0);
        }
        let id = self.take_id();
        let frame = request_line(id, "tools/call", Some(&params));
        proof {
            self.sent@ = self.sent@.push(frame@);
            assert(handshake_frames(final(self)@.requested_protocol).is_prefix_of(
                final(self)@.sent,
            ));
        }
        (id, frame)
    }

    /// The tool catalog captured at connect time.
    pub fn tools(&self) -> (r: &Vec<McpToolInfo>)
        ensures
            r@ == self.tools@,
    {
        &self.tools
    }

    /// The server's name.
    pub fn name(&self) -> (r: &str)
        ensures
            r@ == self@.name,
    {
        self.name.as_str()
    }

    /// The protocol version the server settled on.
    pub fn protocol_version(&self) -> (r: &str)
        ensures
            r@ == self@.negotiated_protocol,
    {
        self.negotiated_protocol.as_str()
    }
}

/// The ids a well-formed session has issued are strictly increasing and
/// start at 1.
pub proof fn lemma_ids_monotonic(s: ServerModel)
    requires
        s.wf(),
    ensures
        forall|k1: int, k2: int|
            0 <= k1 < k2 < s.issued.len() ==> #[trigger] s.issued[k1] < #[trigger] s.issued[k2],
        s.issued.len() > 0 ==> s.issued[0] == 1,
{
}

/// The first three frames a session that has completed its handshake sent
/// are: the `initialize` request, the `notifications/initialized`
/// notification, the `tools/list` request, in that order.
pub proof fn lemma_handshake_order(s: ServerModel)
    requires
        s.wf(),
        s.phase is Ready,
    ensures
        s.sent.len() >= 3,
        s.sent[0] == request_text(
            1,
            "initialize"@,
            Some(init_params_model(s.requested_protocol)),
        ),
        s.sent[1] == notification_text("notifications/initialized"@, None),
        s.sent[2] == request_text(2, "tools/list"@, Some(empty_obj())),
{
    assert(handshake_frames(s.requested_protocol).is_prefix_of(s.sent));
    assert(s.sent[0] == handshake_frames(s.requested_protocol)[0]);
    assert(s.sent[1] == handshake_frames(s.requested_protocol)[1]);
    assert(s.sent[2] == handshake_frames(s.requested_protocol)[2]);
}

/// The text of a member of a `content` array: its `text` string, if any.
pub open spec fn item_text(m: JsonModel) -> Option<Seq<char>> {
    match member(m, "text"@) {
        Some(JsonModel::Str(s)) => Some(s),
        _ => None,
    }
}

/// The text of the first `i` members of a `content` array: each member's
/// `text`, joined by one newline; members without one contribute nothing.
pub open spec fn content_text(items: Seq<JsonModel>, i: int) -> Seq<char>
    decreases i,
{
    if i <= 0 {
        Seq::<char>::empty()
    } else {
        let prev = content_text(items, i - 1);
        match item_text(items[i - 1]) {
            Some(t) => if prev.len() > 0 {
                prev + seq!['\n'] + t
            } else {
                t
            },
            None => prev,
        }
    }
}

/// Whether a `tools/call` result reports failure: its `isError` member is
/// `true`; anything else, a missing member included, is success.
pub open spec fn tool_is_error(m: JsonModel) -> bool {
    member(m, "isError"@) == Some(JsonModel::Bool(true))
}

/// The text a `tools/call` result carries: the joined `content` texts when
/// `content` is an array, the whole result laid out as JSON otherwise.
pub open spec fn tool_text_of(m: JsonModel) -> Seq<char> {
    match member(m, "content"@) {
        Some(JsonModel::Arr(items)) => content_text(items, items.len() as int),
        _ => pretty_text(m),
    }
}

/// Reads a `tools/call` result: its text, as an error when the result says
/// `isError`.
pub fn tool_outcome(result: &Json) -> (r: Result<String, McpError>)
    ensures
        match r {
            Ok(s) => !tool_is_error(result@) && s@ == tool_text_of(result@),
            Err(e) => tool_is_error(result@) && e@ == crate::errors::ErrorModel::Tool(
                tool_text_of(result@),
            ),
        },
{
    let is_error = match result.get("isError") {
        Some(Json::Bool(b)) => *b,
        _ => false,
    };
    let text = match result.get("content") {
        Some(Json::Arr(items)) => {
            let ghost ms = models_of(items@);
            proof {
                lemma_models_of(items@);
            }
            let mut out = String::new();
            let n = items.len();
            for i in 0..n
                invariant
                    n == items.len(),
                    ms == models_of(items@),
                    member(result@, "content"@) == Some(JsonModel::Arr(ms)),
                    ms.len() == n,
                    forall|k: int| 0 <= k < n ==> ms[k] == #[trigger] items@[k]@,
                    out@ == content_text(ms, i as int),
            {
                proof {
                    assert(ms[i as int] == items@[i as int]@);
                }
                match items[i].get("text") {
                    Some(Json::Str(s)) => {
                        if !out.as_str().is_empty() {
                            crate::text::push_char(&mut out, '\n');
                            out.append(s.as_str());
                            proof {
                                assert(out@ =~= content_text(ms, i as int + 1));
                            }
                        } else {
                            out.append(s.as_str());
                            proof {
                                assert(out@ =~= content_text(ms, i as int + 1));
                            }
                        }
                    },
                    _ => {
                        proof {
                            assert(item_text(ms[i as int]) is None);
                        }
                    },
                }
            }
            out
        },
        _ => json_to_pretty_string(result),
    };
    if is_error {
        Err(McpError::Tool(text))
    } else {
        Ok(text)
    }
}

} // verus!
