//! A session: what it answers by itself, and what it asks the engine.
//!
//! A session maps messages and holds no task logic. A call it permits comes
//! out as a [`Call`]; [`McpServer::prepare_args`] says what the engine is
//! asked, and [`crate::present`] what is answered.

use crate::catalog::find_tool;
use crate::catalog::tool_index;
use crate::catalog::tool_index_names;
use crate::catalog::TOOLS;
use crate::catalog::tools_spec;
use crate::catalog::Vocabulary;
use crate::catalog::VocabularyV;
use crate::error::opt_json;
use crate::humanize::TimeFormat;
use crate::json::Fields;
use crate::json::Json;
use crate::json::JsonV;
use crate::replies::error_reply;
use crate::replies::refusal;
use crate::replies::result_reply;
use crate::replies::rpc_error;
use crate::replies::rpc_result;
use crate::replies::tool_error;
use crate::scope::instructions;
use crate::scope::listings;
use crate::scope::paragraphs;
use crate::scope::PROTOCOL_VERSION;
use crate::scope::Scope;
use crate::scope::SERVER_NAME;
use crate::scope::tools_list;
use crate::text::joined;
use crate::text::same;
use vstd::prelude::*;

verus! {

broadcast use {
    vstd::string::group_string_axioms,
    crate::value::group_json,
    crate::text::texts_push,
};

/// How many notes a task is read with where the caller names no page.
pub const ANNOTATION_PAGE: u64 = 20;

/// How many bytes of one note an answer carries where the caller names no cap.
pub const ANNOTATION_BODY_CAP: u64 = 16_384;

/// The fields a listed task has where the caller names none.
pub const LIST_DEFAULT_FIELDS: [&'static str; 9] = [
    "short_id",
    "title",
    "status",
    "priority",
    "urgency",
    "blocked",
    "due",
    "project",
    "tags",
];

/// Which of a task's two renderings an answer carries.
#[derive(Debug, Clone, Copy, PartialEq, Eq, Structural)]
pub enum CardView {
    /// The tables an agent reads.
    Markdown,
    /// The box card a person reads.
    Card,
}

/// A session over one store.
pub struct McpServer {
    pub scope: Scope,
    /// Who is calling, from the handshake.
    pub client_info: Option<Json>,
    /// This connection's own name.
    pub connection_id: String,
    /// The version the server reports.
    pub version: String,
    pub time_format: TimeFormat,
}

/// What a [`McpServer`] says.
pub ghost struct ServerV {
    pub scope: Scope,
    pub client_info: Option<JsonV>,
    pub connection_id: Seq<char>,
    pub version: Seq<char>,
    pub time_format: TimeFormat,
}

impl View for McpServer {
    type V = ServerV;

    open spec fn view(&self) -> ServerV {
        ServerV {
            scope: self.scope,
            client_info: opt_json(self.client_info),
            connection_id: self.connection_id@,
            version: self.version@,
            time_format: self.time_format,
        }
    }
}

/// A call a session permits: the request it answers, the tool, and the params.
#[derive(Debug)]
pub struct Call {
    pub id: Json,
    pub tool: usize,
    pub params: Json,
}

/// What a session does with a message.
#[derive(Debug)]
pub enum Step {
    /// Nothing: the message is a notification.
    Silent,
    /// It answers.
    Reply(Json),
    /// It calls the engine.
    Dispatch(Call),
}

/// What a [`Step`] says.
pub ghost enum StepV {
    Silent,
    Reply(JsonV),
    Dispatch(JsonV, int, JsonV),
}

impl View for Step {
    type V = StepV;

    open spec fn view(&self) -> StepV {
        match *self {
            Step::Silent => StepV::Silent,
            Step::Reply(j) => StepV::Reply(j@),
            Step::Dispatch(c) => StepV::Dispatch(c.id@, c.tool as int, c.params@),
        }
    }
}

/// An object without members.
pub open spec fn no_members() -> JsonV {
    JsonV::Obj(Seq::empty())
}

/// An object without members.
pub fn empty_object() -> (r: Json)
    ensures
        r@ == no_members(),
{
    Fields::new().done()
}

/// The revision a session speaks with a client that asks for one.
pub open spec fn spoken_version(asked: Option<Seq<char>>) -> Seq<char> {
    match asked {
        Some(v) => if v == "2025-06-18"@ || v == "2025-03-26"@ || v == "2024-11-05"@ {
            v
        } else {
            PROTOCOL_VERSION@
        },
        None => PROTOCOL_VERSION@,
    }
}

/// The answer to the handshake.
pub open spec fn handshake(s: ServerV, params: JsonV) -> JsonV {
    JsonV::Obj(
        seq![
            ("protocolVersion"@, JsonV::Str(spoken_version(params.text("protocolVersion"@)))),
            ("capabilities"@, JsonV::Obj(seq![("tools"@, no_members())])),
            (
                "serverInfo"@,
                JsonV::Obj(
                    seq![
                        ("name"@, JsonV::Str(SERVER_NAME@)),
                        ("version"@, JsonV::Str(s.version)),
                    ],
                ),
            ),
            ("instructions"@, JsonV::Str(joined(paragraphs(s.scope), "\n\n"@))),
        ],
    )
}

/// A refusal of a call, before the engine is asked.
pub open spec fn call_refused(scope: Scope, params: JsonV) -> Option<JsonV> {
    match params.text("name"@) {
        None => Some(
            refusal("bad_request"@, "tools/call is missing the tool `name`"@, None),
        ),
        Some(name) => match tool_index(name, 0) {
            None => Some(refusal("not_found"@, "unknown tool: "@ + name, None)),
            Some(i) => if TOOLS@[i].2 && scope != Scope::Write {
                Some(
                    refusal(
                        "bad_request"@,
                        "tool `"@ + name
                            + "` requires write scope, but this MCP server is running read-only. This cannot be changed from a tool call: the operator must relaunch the server as `tasqx mcp serve --scope write`."@,
                        None,
                    ),
                )
            } else {
                None
            },
        },
    }
}

/// What a session does with a message.
pub open spec fn step_of(s: ServerV, v: VocabularyV, msg: JsonV) -> StepV {
    match msg.get("id"@) {
        None => StepV::Silent,
        Some(id) => match msg.text("method"@) {
            None => StepV::Reply(error_reply(id, -32600, "Invalid Request: missing method"@)),
            Some(method) => {
                let params = match msg.get("params"@) {
                    Some(p) => p,
                    None => no_members(),
                };
                if method == "initialize"@ {
                    StepV::Reply(result_reply(id, handshake(s, params)))
                } else if method == "ping"@ {
                    StepV::Reply(result_reply(id, no_members()))
                } else if method == "tools/list"@ {
                    StepV::Reply(
                        result_reply(
                            id,
                            JsonV::Obj(
                                seq![
                                    (
                                        "tools"@,
                                        JsonV::Arr(listings(s.scope, tools_spec(v, 29), 29)),
                                    ),
                                ],
                            ),
                        ),
                    )
                } else if method == "tools/call"@ {
                    match call_refused(s.scope, params) {
                        Some(no) => StepV::Reply(result_reply(id, no)),
                        None => StepV::Dispatch(
                            id,
                            tool_index(params.text("name"@)->0, 0)->0,
                            params,
                        ),
                    }
                } else {
                    StepV::Reply(error_reply(id, -32601, "Method not found: "@ + method))
                }
            },
        },
    }
}

/// Who is calling, once a message was read: a handshake that says who is
/// remembered.
pub open spec fn client_after(s: ServerV, msg: JsonV) -> Option<JsonV> {
    if msg.get("id"@) is Some && msg.text("method"@) == Some("initialize"@) {
        match msg.get("params"@) {
            Some(p) => match p.get("clientInfo"@) {
                Some(info) => Some(info),
                None => s.client_info,
            },
            None => s.client_info,
        }
    } else {
        s.client_info
    }
}

/// A message without an id is a notification, and a notification is never
/// answered.
pub proof fn notifications_are_not_answered(s: ServerV, v: VocabularyV, msg: JsonV)
    requires
        msg.get("id"@) is None,
    ensures
        step_of(s, v, msg) is Silent,
{
}

/// A session that may not write never asks the engine for a tool that writes.
pub proof fn read_scope_calls_no_write_tool(s: ServerV, v: VocabularyV, msg: JsonV)
    requires
        s.scope == Scope::Read,
    ensures
        step_of(s, v, msg) matches StepV::Dispatch(_, tool, _) ==> 0 <= tool < 29
            && !TOOLS@[tool].2,
{
    if msg.get("id"@) is Some {
        let params = match msg.get("params"@) {
            Some(p) => p,
            None => no_members(),
        };
        if params.text("name"@) is Some {
            tool_index_names(params.text("name"@)->0, 0);
        }
    }
}

impl McpServer {
    /// A session with one scope, fixed for its life.
    pub fn new(scope: Scope, connection_id: String, version: String) -> (r: McpServer)
        ensures
            r@ == (ServerV {
                scope,
                client_info: None,
                connection_id: connection_id@,
                version: version@,
                time_format: TimeFormat::Both,
            }),
    {
        McpServer {
            scope,
            client_info: None,
            connection_id,
            version,
            time_format: TimeFormat::Both,
        }
    }

    /// The session, writing time another way.
    pub fn with_time_format(self, time: TimeFormat) -> (r: McpServer)
        ensures
            r@ == (ServerV { time_format: time, ..self@ }),
    {
        McpServer {
            scope: self.scope,
            client_info: self.client_info,
            connection_id: self.connection_id,
            version: self.version,
            time_format: time,
        }
    }

    /// The session's scope.
    pub fn scope(&self) -> (r: Scope)
        ensures
            r == self@.scope,
    {
        self.scope
    }

    fn initialize_result(&self, params: &Json) -> (r: Json)
        ensures
            r@ == handshake(self@, params@),
    {
        let version: &str = match params.text("protocolVersion") {
            Some(v) => if same(v, "2025-06-18") || same(v, "2025-03-26") || same(v, "2024-11-05") {
                v
            } else {
                PROTOCOL_VERSION
            },
            None => PROTOCOL_VERSION,
        };
        let mut c = Fields::new();
        c.put("tools", empty_object());
        assert(c@ =~= seq![("tools"@, no_members())]);
        let mut i = Fields::new();
        i.put("name", Json::string(SERVER_NAME));
        i.put("version", Json::string(self.version.as_str()));
        assert(i@ =~= seq![
            ("name"@, JsonV::Str(SERVER_NAME@)),
            ("version"@, JsonV::Str(self@.version)),
        ]);
        let mut f = Fields::new();
        f.put("protocolVersion", Json::string(version));
        f.put("capabilities", c.done());
        f.put("serverInfo", i.done());
        f.put("instructions", Json::Str(instructions(self.scope)));
        assert(f@ =~= handshake(self@, params@)->Obj_0);
        f.done()
    }

    /// Permits a call, or refuses it before the engine is asked.
    fn permit(&self, params: &Json) -> (r: Result<usize, Json>)
        ensures
            match call_refused(self@.scope, params@) {
                Some(no) => r is Err && r->Err_0@ == no,
                None => r is Ok && r->Ok_0 == tool_index(params@.text("name"@)->0, 0)->0,
            },
    {
        let name: &str = match params.text("name") {
            Some(n) => n,
            None => {
                return Err(tool_error("bad_request", "tools/call is missing the tool `name`"));
            },
        };
        let i: usize = match find_tool(name) {
            Some(i) => i,
            None => {
                return Err(
                    tool_error("not_found", "unknown tool: ".to_owned().concat(name).as_str()),
                );
            },
        };
        if TOOLS[i].2 && !self.scope.allows_write() {
            let mut m: String = "tool `".to_owned();
            m.append(name);
            m.append(
                "` requires write scope, but this MCP server is running read-only. This cannot be changed from a tool call: the operator must relaunch the server as `tasqx mcp serve --scope write`.",
            );
            return Err(tool_error("bad_request", m.as_str()));
        }
        Ok(i)
    }

    /// Handles one message: a notification is taken in silence, a request is
    /// answered, and a call that is permitted is handed out.
    pub fn handle_message(&mut self, msg: &Json, v: &Vocabulary) -> (r: Step)
        ensures
            r@ == step_of(old(self)@, v@, msg@),
            final(self)@ == (ServerV { client_info: client_after(old(self)@, msg@), ..old(self)@ }),
    {
        let id: Json = match msg.get("id") {
            Some(id) => id.dup(),
            None => {
                return Step::Silent;
            },
        };
        let method: &str = match msg.text("method") {
            Some(m) => m,
            None => {
                return Step::Reply(rpc_error(id, -32600, "Invalid Request: missing method"));
            },
        };
        let params: Json = match msg.get("params") {
            Some(p) => p.dup(),
            None => empty_object(),
        };
        if same(method, "initialize") {
            let reply: Json = rpc_result(id, self.initialize_result(&params));
            if let Some(info) = params.get("clientInfo") {
                self.client_info = Some(info.dup());
            }
            Step::Reply(reply)
        } else if same(method, "ping") {
            Step::Reply(rpc_result(id, empty_object()))
        } else if same(method, "tools/list") {
            let mut f = Fields::new();
            f.put("tools", tools_list(self.scope, v));
            assert(f@ =~= seq![
                ("tools"@, JsonV::Arr(listings(self@.scope, tools_spec(v@, 29), 29))),
            ]);
            Step::Reply(rpc_result(id, f.done()))
        } else if same(method, "tools/call") {
            match self.permit(&params) {
                Ok(tool) => Step::Dispatch(Call { id, tool, params }),
                Err(no) => Step::Reply(rpc_result(id, no)),
            }
        } else {
            let m: String = "Method not found: ".to_owned().concat(method);
            Step::Reply(rpc_error(id, -32601, m.as_str()))
        }
    }
}

} // verus!
