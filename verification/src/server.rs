//! The protocol dispatcher: a small fixed method table over decoded
//! requests, the cache in front of the two pipelines, and the translation
//! of pipeline errors into tool-level error payloads.
//!
//! The dispatcher consumes already-decoded requests and produces response
//! values; framing them on a transport is the embedding application's
//! part. Where a tool call misses the cache, the dispatcher hands back
//! what must be performed, and a completion step stores the outcome and
//! shapes the response.

use crate::cache::{
    find_key, spec_page_key, spec_search_key, CacheConfig, CacheStats, SearchCache,
};
use crate::tools::fetch;
use crate::types::{
    page_eq, resp_eq, spec_error_message, spec_level_label, spec_search_args_schema,
    spec_visit_page_args_schema, search_args_schema, visit_page_args_schema, DaedraError,
    DaedraResult, PageContent, SearchArgs, SearchOptions, SearchResponse, VisitPageArgs,
};
use vstd::prelude::*;

verus! {

/// The protocol revision this server speaks.
pub fn protocol_version() -> (r: String)
    ensures
        r@ == "2024-11-05"@,
{
    String::from_str("2024-11-05")
}

/// Transport the surrounding application runs the server over.
#[derive(Debug, Clone, Copy, PartialEq, Eq)]
pub enum TransportType {
    /// Standard input/output transport.
    Stdio,
    /// Server-sent events over HTTP.
    Sse {
        /// Port to listen on.
        port: u16,
        /// Host to bind to.
        host: [u8; 4],
    },
}

impl Default for TransportType {
    /// Standard input/output.
    fn default() -> (r: TransportType)
        ensures
            r == TransportType::Stdio,
    {
        TransportType::Stdio
    }
}

/// Configuration for the server.
#[derive(Debug, Clone)]
pub struct ServerConfig {
    /// Cache configuration.
    pub cache: CacheConfig,
    /// Whether to enable verbose logging.
    pub verbose: bool,
    /// Maximum concurrent tool executions.
    pub max_concurrent_tools: usize,
}

impl Default for ServerConfig {
    /// Default cache, quiet, ten concurrent tool executions.
    fn default() -> (r: ServerConfig)
        ensures
            r.cache.enabled,
            !r.verbose,
            r.max_concurrent_tools == 10,
    {
        ServerConfig { cache: CacheConfig::default(), verbose: false, max_concurrent_tools: 10 }
    }
}

/// A request identifier: the protocol allows numbers and strings.
#[derive(Debug, Clone)]
pub enum RpcId {
    /// A numeric identifier.
    Num(i64),
    /// A string identifier.
    Str(String),
}

/// A decoded protocol request.
#[derive(Debug)]
pub struct JsonRpcRequest {
    /// Protocol version tag, always "2.0".
    pub jsonrpc: String,
    /// Request identifier; absent for notifications.
    pub id: Option<RpcId>,
    /// Method name.
    pub method: String,
    /// Decoded parameters, where the method carries any.
    pub params: Option<RpcParams>,
}

/// The parameters a request carried, as far as the dispatcher reads them.
#[derive(Debug)]
pub enum RpcParams {
    /// Parameters of a tool invocation: the tool's name and its decoded
    /// arguments.
    ToolCall {
        /// The tool name, empty where the parameters named none.
        name: String,
        /// The tool's arguments.
        arguments: ToolArgs,
    },
    /// Parameters of any other shape.
    Other,
}

/// Decoded tool arguments.
#[derive(Debug)]
pub enum ToolArgs {
    /// Arguments for the search tool.
    Search(SearchArgs),
    /// Arguments for the visit_page tool.
    Visit(VisitPageArgs),
    /// Arguments that did not decode, with the decoder's message.
    Invalid(String),
}

/// The payload of a successful response.
#[derive(Debug)]
pub enum RpcPayload {
    /// The handshake answer.
    ServerInfo(ServerInfo),
    /// An empty success.
    Empty,
    /// The tool listing.
    Tools(Vec<McpTool>),
    /// A search's results, to be rendered as the tool's text content.
    SearchOutcome(SearchResponse),
    /// A page's content, to be rendered as the tool's text content.
    Page(PageContent),
    /// A tool-level failure: rendered as text content with the error flag.
    ToolError(String),
}

/// Identity reported in the handshake.
#[derive(Debug, Clone)]
pub struct ServerInfo {
    /// Protocol revision.
    pub protocol_version: String,
    /// Server name.
    pub name: String,
    /// Server version.
    pub version: String,
}

/// A tool made available to clients.
#[derive(Debug, Clone)]
pub struct McpTool {
    /// Tool name.
    pub name: String,
    /// Tool description.
    pub description: Option<String>,
    /// JSON Schema text for the tool's input.
    pub input_schema: String,
}

/// A protocol-level error.
#[derive(Debug, Clone)]
pub struct JsonRpcError {
    /// Error code.
    pub code: i32,
    /// Error message.
    pub message: String,
    /// Additional error data.
    pub data: Option<String>,
}

/// A protocol response: a result or an error, never both.
#[derive(Debug)]
pub struct JsonRpcResponse {
    /// Protocol version tag, always "2.0".
    pub jsonrpc: String,
    /// The request's identifier, echoed.
    pub id: Option<RpcId>,
    /// Success result.
    pub result: Option<RpcPayload>,
    /// Error result.
    pub error: Option<JsonRpcError>,
}

impl JsonRpcResponse {
    /// Create a success response.
    pub fn success(id: Option<RpcId>, result: RpcPayload) -> (r: JsonRpcResponse)
        ensures
            r.jsonrpc@ == "2.0"@,
            r.id == id,
            r.result == Some(result),
            r.error is None,
    {
        JsonRpcResponse { jsonrpc: String::from_str("2.0"), id, result: Some(result), error: None }
    }

    /// Create an error response.
    pub fn error(id: Option<RpcId>, code: i32, message: String) -> (r: JsonRpcResponse)
        ensures
            r.jsonrpc@ == "2.0"@,
            r.id == id,
            r.result is None,
            r.error matches Some(e) && e.code == code && e.message == message && e.data is None,
    {
        JsonRpcResponse {
            jsonrpc: String::from_str("2.0"),
            id,
            result: None,
            error: Some(JsonRpcError { code, message, data: None }),
        }
    }
}

/// The response to a message that did not parse as a request: the parse
/// error, with the decoder's words.
pub fn parse_error_response(detail: &str) -> (r: JsonRpcResponse)
    ensures
        r.jsonrpc@ == "2.0"@,
        r.id is None,
        r.result is None,
        r.error matches Some(e) && e.code == -32700 && e.message@ == "Parse error: "@ + detail@,
{
    JsonRpcResponse::error(None, -32700, String::from_str("Parse error: ").concat(detail))
}

/// What the dispatcher decided about one request: either the response is
/// ready, or a pipeline must run first.
pub enum RpcOutcome {
    /// The response, complete.
    Respond(JsonRpcResponse),
    /// Run the search pipeline for these arguments, then finish the call.
    PerformSearch {
        /// The request's identifier.
        id: Option<RpcId>,
        /// The search arguments.
        args: SearchArgs,
    },
    /// Run the page pipeline for these arguments, then finish the call.
    PerformFetch {
        /// The request's identifier.
        id: Option<RpcId>,
        /// The page arguments.
        args: VisitPageArgs,
    },
}

/// The region a search request resolves to: the options' region, or the
/// worldwide default.
pub open spec fn spec_region_of(args: SearchArgs) -> Seq<char> {
    match args.options {
        Some(o) => o.region@,
        None => "wt-wt"@,
    }
}

/// The safe-search label a search request resolves to.
pub open spec fn spec_safe_label_of(args: SearchArgs) -> Seq<char> {
    match args.options {
        Some(o) => spec_level_label(o.safe_search),
        None => spec_level_label(crate::types::SafeSearchLevel::Moderate),
    }
}

/// The cache key a search request resolves to.
pub open spec fn spec_search_key_of(args: SearchArgs) -> Seq<char> {
    spec_search_key(args.query@, spec_region_of(args), spec_safe_label_of(args))
}

/// The cache key a page request resolves to.
pub open spec fn spec_page_key_of(args: VisitPageArgs) -> Seq<char> {
    spec_page_key(args.url@, match args.selector {
        Some(s) => Some(s@),
        None => None,
    })
}

/// The tool handler: the cache in front of the pipelines, and the one bit
/// of session state.
pub struct DaedraHandler {
    /// Response cache.
    cache: SearchCache,
    /// Whether the session handshake has occurred.
    initialized: bool,
}

impl DaedraHandler {
    /// Well-formed: the cache is.
    pub closed spec fn wf(&self) -> bool {
        self.cache.wf()
    }

    /// The cache behind the handler.
    pub closed spec fn spec_cache(&self) -> SearchCache {
        self.cache
    }

    /// Whether the handshake has occurred.
    pub closed spec fn spec_initialized(&self) -> bool {
        self.initialized
    }

    /// Create a handler with an empty cache and no handshake yet.
    pub fn new(config: ServerConfig) -> (r: DaedraResult<DaedraHandler>)
        ensures
            r matches Ok(h) && {
                &&& h.wf()
                &&& !h.spec_initialized()
                &&& h.spec_cache().search_model().len() == 0
                &&& h.spec_cache().page_model().len() == 0
                &&& h.spec_cache().spec_enabled() == config.cache.enabled
            },
    {
        Ok(DaedraHandler { cache: SearchCache::new(config.cache), initialized: false })
    }

    /// The handshake answer: protocol revision and server identity.
    pub fn get_server_info(&self) -> (r: ServerInfo)
        ensures
            r.protocol_version@ == "2024-11-05"@,
            r.name@ == "daedra"@,
            r.version@ == "0.1.0"@,
    {
        ServerInfo {
            protocol_version: protocol_version(),
            name: crate::server_name(),
            version: crate::server_version(),
        }
    }

    /// The two tools this server offers, with their input schemas.
    pub fn list_tools(&self) -> (r: Vec<McpTool>)
        ensures
            r@.len() == 2,
            r@[0].name@ == "search_duckduckgo"@,
            r@[0].description is Some,
            r@[0].input_schema@ == spec_search_args_schema(),
            r@[1].name@ == "visit_page"@,
            r@[1].description is Some,
            r@[1].input_schema@ == spec_visit_page_args_schema(),
    {
        let mut r: Vec<McpTool> = Vec::new();
        r.push(
            McpTool {
                name: String::from_str("search_duckduckgo"),
                description: Some(
                    String::from_str(
                        "Search the web using DuckDuckGo. Returns structured search results with metadata.",
                    ),
                ),
                input_schema: search_args_schema(),
            },
        );
        r.push(
            McpTool {
                name: String::from_str("visit_page"),
                description: Some(
                    String::from_str(
                        "Visit a webpage and extract its content as Markdown. Useful for reading articles, documentation, or any web page.",
                    ),
                ),
                input_schema: visit_page_args_schema(),
            },
        );
        r
    }

    /// The cached response for a search request, if one is fresh: a hit
    /// carries exactly a stored value under the request's key.
    pub fn cached_search(&self, args: &SearchArgs) -> (r: Option<SearchResponse>)
        ensures
            !self.spec_cache().spec_enabled() ==> r is None,
            r matches Some(v) ==> ({
                let i = find_key(self.spec_cache().search_model(), spec_search_key_of(*args));
                i >= 0 && resp_eq(v, self.spec_cache().search_model()[i].value)
            }),
    {
        match &args.options {
            Some(o) => {
                let label = o.safe_search.label();
                self.cache.get_search(args.query.as_str(), o.region.as_str(), label.as_str())
            },
            None => {
                let label = crate::types::SafeSearchLevel::Moderate.label();
                let region = crate::types::default_region();
                self.cache.get_search(args.query.as_str(), region.as_str(), label.as_str())
            },
        }
    }

    /// The cached content for a page request, if fresh.
    pub fn cached_page(&self, args: &VisitPageArgs) -> (r: Option<PageContent>)
        ensures
            !self.spec_cache().spec_enabled() ==> r is None,
            r matches Some(v) ==> ({
                let i = find_key(self.spec_cache().page_model(), spec_page_key_of(*args));
                i >= 0 && page_eq(v, self.spec_cache().page_model()[i].value)
            }),
    {
        match &args.selector {
            Some(sel) => self.cache.get_page(args.url.as_str(), Some(sel.as_str())),
            None => self.cache.get_page(args.url.as_str(), None),
        }
    }

    /// Store a search outcome under its request's key.
    pub fn store_search(&mut self, args: &SearchArgs, response: &SearchResponse)
        requires
            old(self).wf(),
        ensures
            final(self).wf(),
            final(self).spec_initialized() == old(self).spec_initialized(),
            final(self).spec_cache().spec_enabled() == old(self).spec_cache().spec_enabled(),
            final(self).spec_cache().page_model() == old(self).spec_cache().page_model(),
            !old(self).spec_cache().spec_enabled() ==> final(self).spec_cache().search_model()
                == old(self).spec_cache().search_model(),
            (old(self).spec_cache().spec_enabled() && old(self).spec_cache().spec_max_entries()
                > 0) ==> ({
                let es = final(self).spec_cache().search_model();
                let i = find_key(es, spec_search_key_of(*args));
                i >= 0 && resp_eq(es[i].value, *response)
            }),
    {
        let copy = response.duplicate();
        match &args.options {
            Some(o) => {
                let label = o.safe_search.label();
                self.cache.set_search(
                    args.query.as_str(),
                    o.region.as_str(),
                    label.as_str(),
                    copy,
                );
            },
            None => {
                let label = crate::types::SafeSearchLevel::Moderate.label();
                let region = crate::types::default_region();
                self.cache.set_search(
                    args.query.as_str(),
                    region.as_str(),
                    label.as_str(),
                    copy,
                );
            },
        }
    }

    /// Store a page outcome under its request's key.
    pub fn store_page(&mut self, args: &VisitPageArgs, content: &PageContent)
        requires
            old(self).wf(),
        ensures
            final(self).wf(),
            final(self).spec_initialized() == old(self).spec_initialized(),
            final(self).spec_cache().spec_enabled() == old(self).spec_cache().spec_enabled(),
            final(self).spec_cache().search_model() == old(self).spec_cache().search_model(),
            !old(self).spec_cache().spec_enabled() ==> final(self).spec_cache().page_model()
                == old(self).spec_cache().page_model(),
            (old(self).spec_cache().spec_enabled() && old(self).spec_cache().spec_max_entries()
                > 0) ==> ({
                let es = final(self).spec_cache().page_model();
                let i = find_key(es, spec_page_key_of(*args));
                i >= 0 && page_eq(es[i].value, *content)
            }),
    {
        let copy = content.duplicate();
        match &args.selector {
            Some(sel) => {
                self.cache.set_page(args.url.as_str(), Some(sel.as_str()), copy);
            },
            None => {
                self.cache.set_page(args.url.as_str(), None, copy);
            },
        }
    }

    /// Call a tool by name: an unknown name is a method-not-found error,
    /// undecodable arguments are an invalid-params error, an invalid page
    /// URL is a tool-level error, a cache hit answers at once, and
    /// anything else asks for the pipeline to run.
    pub fn call_tool(&self, id: Option<RpcId>, name: String, arguments: ToolArgs) -> (r:
        RpcOutcome)
        requires
            self.wf(),
        ensures
            spec_tool_outcome(*self, id, name@, arguments, r),
    {
        if name == String::from_str("search_duckduckgo") {
            match arguments {
                ToolArgs::Search(args) => {
                    match self.cached_search(&args) {
                        Some(v) => RpcOutcome::Respond(
                            JsonRpcResponse::success(id, RpcPayload::SearchOutcome(v)),
                        ),
                        None => RpcOutcome::PerformSearch { id, args },
                    }
                },
                ToolArgs::Invalid(m) => RpcOutcome::Respond(
                    JsonRpcResponse::error(
                        id,
                        -32602,
                        String::from_str("Invalid search arguments: ").concat(m.as_str()),
                    ),
                ),
                ToolArgs::Visit(_) => RpcOutcome::Respond(
                    JsonRpcResponse::error(
                        id,
                        -32602,
                        String::from_str("Invalid search arguments: "),
                    ),
                ),
            }
        } else if name == String::from_str("visit_page") {
            match arguments {
                ToolArgs::Visit(args) => {
                    if !fetch::is_valid_url(args.url.as_str()) {
                        RpcOutcome::Respond(
                            JsonRpcResponse::success(
                                id,
                                RpcPayload::ToolError(
                                    String::from_str("Invalid URL: must be HTTP or HTTPS"),
                                ),
                            ),
                        )
                    } else {
                        match self.cached_page(&args) {
                            Some(v) => RpcOutcome::Respond(
                                JsonRpcResponse::success(id, RpcPayload::Page(v)),
                            ),
                            None => RpcOutcome::PerformFetch { id, args },
                        }
                    }
                },
                ToolArgs::Invalid(m) => RpcOutcome::Respond(
                    JsonRpcResponse::error(
                        id,
                        -32602,
                        String::from_str("Invalid fetch arguments: ").concat(m.as_str()),
                    ),
                ),
                ToolArgs::Search(_) => RpcOutcome::Respond(
                    JsonRpcResponse::error(
                        id,
                        -32602,
                        String::from_str("Invalid fetch arguments: "),
                    ),
                ),
            }
        } else {
            RpcOutcome::Respond(
                JsonRpcResponse::error(
                    id,
                    -32601,
                    String::from_str("Unknown tool: ").concat(name.as_str()),
                ),
            )
        }
    }

    /// Handle one decoded request: the fixed method table. Tool calls may
    /// ask the caller to run a pipeline; every other method is answered at
    /// once, and an unknown method is a method-not-found error.
    pub fn handle_request(&mut self, req: JsonRpcRequest) -> (r: RpcOutcome)
        requires
            old(self).wf(),
        ensures
            final(self).wf(),
            final(self).spec_cache() == old(self).spec_cache(),
            final(self).spec_initialized() == (old(self).spec_initialized() || req.method@
                == "initialize"@),
            ({
                let m = req.method@;
                if m == "initialize"@ {
                    r matches RpcOutcome::Respond(resp) && resp.jsonrpc@ == "2.0"@ && resp.id
                        == req.id && resp.error is None && (resp.result matches Some(
                        RpcPayload::ServerInfo(si),
                    ) && si.protocol_version@ == "2024-11-05"@ && si.name@ == "daedra"@)
                } else if m == "initialized"@ || m == "notifications/initialized"@ {
                    r matches RpcOutcome::Respond(resp) && resp.jsonrpc@ == "2.0"@ && resp.id
                        == req.id && resp.error is None && resp.result matches Some(
                        RpcPayload::Empty,
                    )
                } else if m == "tools/list"@ {
                    r matches RpcOutcome::Respond(resp) && resp.jsonrpc@ == "2.0"@ && resp.id
                        == req.id && resp.error is None && (resp.result matches Some(
                        RpcPayload::Tools(ts),
                    ) && ts@.len() == 2 && ts@[0].name@ == "search_duckduckgo"@ && ts@[1].name@
                        == "visit_page"@)
                } else if m == "ping"@ {
                    r matches RpcOutcome::Respond(resp) && resp.jsonrpc@ == "2.0"@ && resp.id
                        == req.id && resp.error is None && resp.result matches Some(
                        RpcPayload::Empty,
                    )
                } else if m == "tools/call"@ {
                    match req.params {
                        None => r matches RpcOutcome::Respond(resp) && resp.jsonrpc@ == "2.0"@
                            && resp.id == req.id && resp.result is None && (resp.error
                            matches Some(e) && e.code == -32602 && e.message@
                            == "Missing parameters"@),
                        Some(RpcParams::ToolCall { name, arguments }) => spec_tool_outcome(
                            *old(self),
                            req.id,
                            name@,
                            arguments,
                            r,
                        ),
                        Some(RpcParams::Other) => r matches RpcOutcome::Respond(resp)
                            && resp.jsonrpc@ == "2.0"@ && resp.id == req.id && resp.result is None
                            && (resp.error matches Some(e) && e.code == -32601 && e.message@
                            == "Unknown tool: "@),
                    }
                } else {
                    r matches RpcOutcome::Respond(resp) && resp.jsonrpc@ == "2.0"@ && resp.id
                        == req.id && resp.result is None && (resp.error matches Some(e) && e.code
                        == -32601 && e.message@ == "Method not found: "@ + m)
                }
            }),
    {
        if req.method == String::from_str("initialize") {
            self.initialized = true;
            RpcOutcome::Respond(
                JsonRpcResponse::success(req.id, RpcPayload::ServerInfo(self.get_server_info())),
            )
        } else if req.method == String::from_str("initialized") || req.method == String::from_str(
            "notifications/initialized",
        ) {
            RpcOutcome::Respond(JsonRpcResponse::success(req.id, RpcPayload::Empty))
        } else if req.method == String::from_str("tools/list") {
            RpcOutcome::Respond(
                JsonRpcResponse::success(req.id, RpcPayload::Tools(self.list_tools())),
            )
        } else if req.method == String::from_str("ping") {
            RpcOutcome::Respond(JsonRpcResponse::success(req.id, RpcPayload::Empty))
        } else if req.method == String::from_str("tools/call") {
            match req.params {
                None => RpcOutcome::Respond(
                    JsonRpcResponse::error(req.id, -32602, String::from_str("Missing parameters")),
                ),
                Some(RpcParams::ToolCall { name, arguments }) => self.call_tool(
                    req.id,
                    name,
                    arguments,
                ),
                Some(RpcParams::Other) => {
                    let r = self.call_tool(req.id, String::new(), ToolArgs::Invalid(String::new()));
                    proof {
                        reveal_strlit("search_duckduckgo");
                        reveal_strlit("visit_page");
                        assert("Unknown tool: "@ + Seq::<char>::empty() =~= "Unknown tool: "@);
                    }
                    r
                },
            }
        } else {
            RpcOutcome::Respond(
                JsonRpcResponse::error(
                    req.id,
                    -32601,
                    String::from_str("Method not found: ").concat(req.method.as_str()),
                ),
            )
        }
    }

    /// Finish a search tool call: a success is cached and answered with
    /// the response; a failure becomes a tool-level error payload, never a
    /// protocol error.
    pub fn finish_search(
        &mut self,
        id: Option<RpcId>,
        args: &SearchArgs,
        outcome: Result<SearchResponse, DaedraError>,
    ) -> (r: JsonRpcResponse)
        requires
            old(self).wf(),
        ensures
            final(self).wf(),
            final(self).spec_initialized() == old(self).spec_initialized(),
            r.jsonrpc@ == "2.0"@,
            r.id == id,
            r.error is None,
            match outcome {
                Ok(resp) => {
                    &&& r.result matches Some(RpcPayload::SearchOutcome(v)) && v == resp
                    &&& ((old(self).spec_cache().spec_enabled() && old(
                        self,
                    ).spec_cache().spec_max_entries() > 0) ==> ({
                        let es = final(self).spec_cache().search_model();
                        let i = find_key(es, spec_search_key_of(*args));
                        i >= 0 && resp_eq(es[i].value, resp)
                    }))
                },
                Err(e) => {
                    &&& r.result matches Some(RpcPayload::ToolError(m)) && m@
                        == "Search failed: "@ + spec_error_message(e)
                    &&& final(self).spec_cache() == old(self).spec_cache()
                },
            },
    {
        match outcome {
            Ok(resp) => {
                self.store_search(args, &resp);
                JsonRpcResponse::success(id, RpcPayload::SearchOutcome(resp))
            },
            Err(e) => {
                let msg = String::from_str("Search failed: ").concat(e.message().as_str());
                JsonRpcResponse::success(id, RpcPayload::ToolError(msg))
            },
        }
    }

    /// Finish a page tool call: a success is cached and answered with the
    /// content; a failure becomes a tool-level error payload.
    pub fn finish_fetch(
        &mut self,
        id: Option<RpcId>,
        args: &VisitPageArgs,
        outcome: Result<PageContent, DaedraError>,
    ) -> (r: JsonRpcResponse)
        requires
            old(self).wf(),
        ensures
            final(self).wf(),
            final(self).spec_initialized() == old(self).spec_initialized(),
            r.jsonrpc@ == "2.0"@,
            r.id == id,
            r.error is None,
            match outcome {
                Ok(content) => {
                    &&& r.result matches Some(RpcPayload::Page(p)) && p == content
                    &&& ((old(self).spec_cache().spec_enabled() && old(
                        self,
                    ).spec_cache().spec_max_entries() > 0) ==> ({
                        let es = final(self).spec_cache().page_model();
                        let i = find_key(es, spec_page_key_of(*args));
                        i >= 0 && page_eq(es[i].value, content)
                    }))
                },
                Err(e) => {
                    &&& r.result matches Some(RpcPayload::ToolError(m)) && m@
                        == "Failed to fetch page: "@ + spec_error_message(e)
                    &&& final(self).spec_cache() == old(self).spec_cache()
                },
            },
    {
        match outcome {
            Ok(content) => {
                self.store_page(args, &content);
                JsonRpcResponse::success(id, RpcPayload::Page(content))
            },
            Err(e) => {
                let msg = String::from_str("Failed to fetch page: ").concat(e.message().as_str());
                JsonRpcResponse::success(id, RpcPayload::ToolError(msg))
            },
        }
    }

    /// The cache behind the handler.
    pub fn cache(&self) -> (r: &SearchCache)
        ensures
            *r == self.spec_cache(),
    {
        &self.cache
    }

    /// Report the cache's statistics.
    pub fn cache_stats(&self) -> (r: CacheStats)
        ensures
            r.search_entries == self.spec_cache().search_model().len(),
            r.page_entries == self.spec_cache().page_model().len(),
            r.enabled == self.spec_cache().spec_enabled(),
    {
        self.cache.stats()
    }

    /// Clear the cache.
    pub fn clear_cache(&mut self)
        ensures
            final(self).wf(),
            final(self).spec_initialized() == old(self).spec_initialized(),
            final(self).spec_cache().search_model().len() == 0,
            final(self).spec_cache().page_model().len() == 0,
            final(self).spec_cache().spec_enabled() == old(self).spec_cache().spec_enabled(),
    {
        self.cache.clear();
    }
}

/// What `call_tool` promises: the method table's row for a tool
/// invocation, over the handler's cache model.
pub open spec fn spec_tool_outcome(
    h: DaedraHandler,
    id: Option<RpcId>,
    name: Seq<char>,
    arguments: ToolArgs,
    r: RpcOutcome,
) -> bool {
    if name == "search_duckduckgo"@ {
        match arguments {
            ToolArgs::Search(a) => match r {
                RpcOutcome::Respond(resp) => resp.jsonrpc@ == "2.0"@ && resp.id == id
                    && resp.error is None && (resp.result matches Some(
                    RpcPayload::SearchOutcome(v),
                ) && ({
                    let i = find_key(h.spec_cache().search_model(), spec_search_key_of(a));
                    i >= 0 && resp_eq(v, h.spec_cache().search_model()[i].value)
                })),
                RpcOutcome::PerformSearch { id: id2, args } => id2 == id && args == a,
                _ => false,
            },
            ToolArgs::Invalid(m) => r matches RpcOutcome::Respond(resp) && resp.jsonrpc@ == "2.0"@
                && resp.id == id && resp.result is None && (resp.error matches Some(e) && e.code
                == -32602 && e.message@ == "Invalid search arguments: "@ + m@),
            ToolArgs::Visit(_) => r matches RpcOutcome::Respond(resp) && resp.jsonrpc@ == "2.0"@
                && resp.id == id && resp.result is None && (resp.error matches Some(e) && e.code
                == -32602 && e.message@ == "Invalid search arguments: "@),
        }
    } else if name == "visit_page"@ {
        match arguments {
            ToolArgs::Visit(a) => if !fetch::spec_valid_url(a.url@) {
                r matches RpcOutcome::Respond(resp) && resp.jsonrpc@ == "2.0"@ && resp.id == id
                    && resp.error is None && (resp.result matches Some(RpcPayload::ToolError(m))
                    && m@ == "Invalid URL: must be HTTP or HTTPS"@)
            } else {
                match r {
                    RpcOutcome::Respond(resp) => resp.jsonrpc@ == "2.0"@ && resp.id == id
                        && resp.error is None && (resp.result matches Some(RpcPayload::Page(v))
                        && ({
                        let i = find_key(h.spec_cache().page_model(), spec_page_key_of(a));
                        i >= 0 && page_eq(v, h.spec_cache().page_model()[i].value)
                    })),
                    RpcOutcome::PerformFetch { id: id2, args } => id2 == id && args == a,
                    _ => false,
                }
            },
            ToolArgs::Invalid(m) => r matches RpcOutcome::Respond(resp) && resp.jsonrpc@ == "2.0"@
                && resp.id == id && resp.result is None && (resp.error matches Some(e) && e.code
                == -32602 && e.message@ == "Invalid fetch arguments: "@ + m@),
            ToolArgs::Search(_) => r matches RpcOutcome::Respond(resp) && resp.jsonrpc@ == "2.0"@
                && resp.id == id && resp.result is None && (resp.error matches Some(e) && e.code
                == -32602 && e.message@ == "Invalid fetch arguments: "@),
        }
    } else {
        r matches RpcOutcome::Respond(resp) && resp.jsonrpc@ == "2.0"@ && resp.id == id
            && resp.result is None && (resp.error matches Some(e) && e.code == -32601
            && e.message@ == "Unknown tool: "@ + name)
    }
}

} // verus!
