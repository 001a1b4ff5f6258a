//! The operations the server's OpenAPI document lists, grouped by path,
//! with the code sample shown for each.

use vstd::prelude::*;
use crate::text::{owned, cat3, str_eq};

verus! {

/// One operation of the API: its path, HTTP method and operation id.
#[derive(Debug)]
pub struct OpenApiOperation {
    pub path: String,
    pub method: String,
    pub operation_id: String,
}

/// The path, method and operation id of an operation.
pub open spec fn operation_view(o: OpenApiOperation) -> (Seq<char>, Seq<char>, Seq<char>) {
    (o.path@, o.method@, o.operation_id@)
}

/// The operations the document lists, in the order they are listed.
pub open spec fn operation_table() -> Seq<(Seq<char>, Seq<char>, Seq<char>)> {
    seq![
        ("/health"@, "get"@, "health"@),
        ("/event"@, "get"@, "eventSubscribe"@),
        ("/path"@, "get"@, "pathsGet"@),
        ("/vcs"@, "get"@, "vcsGet"@),
        ("/command"@, "get"@, "commandList"@),
        ("/agent"@, "get"@, "agentList"@),
        ("/skill"@, "get"@, "skillList"@),
        ("/lsp"@, "get"@, "lspStatus"@),
        ("/formatter"@, "get"@, "formatterStatus"@),
        ("/auth/{id}"@, "put"@, "authSet"@),
        ("/auth/{id}"@, "delete"@, "authDelete"@),
        ("/session"@, "get"@, "sessionList"@),
        ("/session"@, "post"@, "sessionCreate"@),
        ("/session/status"@, "get"@, "sessionStatus"@),
        ("/session/{id}"@, "get"@, "sessionGet"@),
        ("/session/{id}"@, "patch"@, "sessionUpdate"@),
        ("/session/{id}"@, "delete"@, "sessionDelete"@),
        ("/session/{id}/attached"@, "get"@, "sessionAttachedSessions"@),
        ("/session/{id}/executions"@, "get"@, "sessionExecutions"@),
        ("/session/{id}/recovery"@, "get"@, "sessionRecovery"@),
        ("/session/{id}/recovery/execute"@, "post"@, "sessionRecoveryExecute"@),
        ("/session/{id}/todo"@, "get"@, "sessionTodo"@),
        ("/session/{id}/fork"@, "post"@, "sessionFork"@),
        ("/session/{id}/abort"@, "post"@, "sessionAbort"@),
        ("/session/{id}/scheduler/stage/abort"@, "post"@, "sessionSchedulerStageAbort"@),
        ("/session/{id}/share"@, "post"@, "sessionShare"@),
        ("/session/{id}/share"@, "delete"@, "sessionUnshare"@),
        ("/session/{id}/archive"@, "post"@, "sessionArchive"@),
        ("/session/{id}/title"@, "patch"@, "sessionSetTitle"@),
        ("/session/{id}/permission"@, "patch"@, "sessionSetPermission"@),
        ("/session/{id}/summary"@, "get"@, "sessionSummaryGet"@),
        ("/session/{id}/summary"@, "patch"@, "sessionSummarySet"@),
        ("/session/{id}/revert"@, "post"@, "sessionRevert"@),
        ("/session/{id}/revert"@, "delete"@, "sessionRevertClear"@),
        ("/session/{id}/unrevert"@, "post"@, "sessionUnrevert"@),
        ("/session/{id}/compact"@, "post"@, "sessionCompaction"@),
        ("/session/{id}/summarize"@, "post"@, "sessionSummarize"@),
        ("/session/{id}/init"@, "post"@, "sessionInit"@),
        ("/session/{id}/command"@, "post"@, "sessionCommand"@),
        ("/session/{id}/shell"@, "post"@, "sessionShell"@),
        ("/session/{id}/message"@, "get"@, "sessionMessageList"@),
        ("/session/{id}/message"@, "post"@, "sessionMessageCreate"@),
        ("/session/{id}/message/{msgID}"@, "get"@, "sessionMessageGet"@),
        ("/session/{id}/message/{msgID}"@, "delete"@, "sessionMessageDelete"@),
        ("/session/{id}/message/{msgID}/part"@, "post"@, "sessionPartAdd"@),
        ("/session/{id}/message/{msgID}/part/{partID}"@, "patch"@, "sessionPartUpdate"@),
        ("/session/{id}/message/{msgID}/part/{partID}"@, "delete"@, "sessionPartDelete"@),
        ("/session/{id}/stream"@, "post"@, "sessionStream"@),
        ("/session/{id}/prompt"@, "post"@, "sessionPrompt"@),
        ("/session/{id}/prompt/abort"@, "post"@, "sessionPromptAbort"@),
        ("/session/{id}/prompt_async"@, "post"@, "sessionPromptAsync"@),
        ("/session/{id}/diff"@, "get"@, "sessionDiff"@),
        ("/provider/"@, "get"@, "providerList"@),
        ("/provider/refresh"@, "post"@, "providerRefresh"@),
        ("/provider/auth"@, "get"@, "providerAuth"@),
        ("/provider/{id}/oauth/authorize"@, "post"@, "providerOAuthAuthorize"@),
        ("/provider/{id}/oauth/callback"@, "post"@, "providerOAuthCallback"@),
        ("/config/"@, "get"@, "configGet"@),
        ("/config/"@, "patch"@, "configPatch"@),
        ("/config/providers"@, "get"@, "configProviderGet"@),
        ("/mcp"@, "get"@, "mcpList"@),
        ("/mcp"@, "post"@, "mcpAdd"@),
        ("/mcp/{name}/connect"@, "post"@, "mcpConnect"@),
        ("/mcp/{name}/disconnect"@, "post"@, "mcpDisconnect"@),
        ("/mcp/{name}/auth"@, "post"@, "mcpAuthStart"@),
        ("/mcp/{name}/auth"@, "delete"@, "mcpAuthDelete"@),
        ("/mcp/{name}/auth/callback"@, "post"@, "mcpAuthCallback"@),
        ("/mcp/{name}/auth/authenticate"@, "post"@, "mcpAuthAuthenticate"@),
        ("/file/read"@, "post"@, "fileRead"@),
        ("/file/write"@, "post"@, "fileWrite"@),
        ("/file/status"@, "get"@, "fileStatus"@),
        ("/find"@, "post"@, "find"@),
        ("/permission"@, "get"@, "permissionList"@),
        ("/permission/{id}/reply"@, "post"@, "permissionReply"@),
        ("/project"@, "get"@, "projectList"@),
        ("/project/current"@, "get"@, "projectCurrent"@),
        ("/project/current"@, "patch"@, "projectCurrentPatch"@),
        ("/pty"@, "post"@, "ptyCreate"@),
        ("/pty/{id}"@, "get"@, "ptyRead"@),
        ("/pty/{id}"@, "delete"@, "ptyDelete"@),
        ("/question"@, "get"@, "questionList"@),
        ("/question"@, "post"@, "questionReply"@),
        ("/tui/session"@, "get"@, "tuiSessionList"@),
        ("/tui/session"@, "post"@, "tuiSessionCreate"@),
        ("/global/event"@, "get"@, "globalEventSubscribe"@)
    ]
}

fn operation(path: &str, method: &str, operation_id: &str) -> (r: OpenApiOperation)
    ensures
        operation_view(r) == (path@, method@, operation_id@),
{
    OpenApiOperation { path: owned(path), method: owned(method), operation_id: owned(operation_id) }
}

/// The operations the document lists.
#[verifier::rlimit(50)]
pub fn openapi_operations() -> (r: Vec<OpenApiOperation>)
    ensures
        r@.map_values(|o: OpenApiOperation| operation_view(o)) == operation_table(),
{
    let mut ops: Vec<OpenApiOperation> = Vec::new();
    ops.push(operation("/health", "get", "health"));
    ops.push(operation("/event", "get", "eventSubscribe"));
    ops.push(operation("/path", "get", "pathsGet"));
    ops.push(operation("/vcs", "get", "vcsGet"));
    ops.push(operation("/command", "get", "commandList"));
    ops.push(operation("/agent", "get", "agentList"));
    ops.push(operation("/skill", "get", "skillList"));
    ops.push(operation("/lsp", "get", "lspStatus"));
    ops.push(operation("/formatter", "get", "formatterStatus"));
    ops.push(operation("/auth/{id}", "put", "authSet"));
    ops.push(operation("/auth/{id}", "delete", "authDelete"));
    ops.push(operation("/session", "get", "sessionList"));
    ops.push(operation("/session", "post", "sessionCreate"));
    ops.push(operation("/session/status", "get", "sessionStatus"));
    ops.push(operation("/session/{id}", "get", "sessionGet"));
    ops.push(operation("/session/{id}", "patch", "sessionUpdate"));
    ops.push(operation("/session/{id}", "delete", "sessionDelete"));
    ops.push(operation("/session/{id}/attached", "get", "sessionAttachedSessions"));
    ops.push(operation("/session/{id}/executions", "get", "sessionExecutions"));
    ops.push(operation("/session/{id}/recovery", "get", "sessionRecovery"));
    ops.push(operation("/session/{id}/recovery/execute", "post", "sessionRecoveryExecute"));
    ops.push(operation("/session/{id}/todo", "get", "sessionTodo"));
    ops.push(operation("/session/{id}/fork", "post", "sessionFork"));
    ops.push(operation("/session/{id}/abort", "post", "sessionAbort"));
    ops.push(operation("/session/{id}/scheduler/stage/abort", "post", "sessionSchedulerStageAbort"));
    ops.push(operation("/session/{id}/share", "post", "sessionShare"));
    ops.push(operation("/session/{id}/share", "delete", "sessionUnshare"));
    ops.push(operation("/session/{id}/archive", "post", "sessionArchive"));
    ops.push(operation("/session/{id}/title", "patch", "sessionSetTitle"));
    ops.push(operation("/session/{id}/permission", "patch", "sessionSetPermission"));
    ops.push(operation("/session/{id}/summary", "get", "sessionSummaryGet"));
    ops.push(operation("/session/{id}/summary", "patch", "sessionSummarySet"));
    ops.push(operation("/session/{id}/revert", "post", "sessionRevert"));
    ops.push(operation("/session/{id}/revert", "delete", "sessionRevertClear"));
    ops.push(operation("/session/{id}/unrevert", "post", "sessionUnrevert"));
    ops.push(operation("/session/{id}/compact", "post", "sessionCompaction"));
    ops.push(operation("/session/{id}/summarize", "post", "sessionSummarize"));
    ops.push(operation("/session/{id}/init", "post", "sessionInit"));
    ops.push(operation("/session/{id}/command", "post", "sessionCommand"));
    ops.push(operation("/session/{id}/shell", "post", "sessionShell"));
    ops.push(operation("/session/{id}/message", "get", "sessionMessageList"));
    ops.push(operation("/session/{id}/message", "post", "sessionMessageCreate"));
    ops.push(operation("/session/{id}/message/{msgID}", "get", "sessionMessageGet"));
    ops.push(operation("/session/{id}/message/{msgID}", "delete", "sessionMessageDelete"));
    ops.push(operation("/session/{id}/message/{msgID}/part", "post", "sessionPartAdd"));
    ops.push(operation("/session/{id}/message/{msgID}/part/{partID}", "patch", "sessionPartUpdate"));
    ops.push(operation("/session/{id}/message/{msgID}/part/{partID}", "delete", "sessionPartDelete"));
    ops.push(operation("/session/{id}/stream", "post", "sessionStream"));
    ops.push(operation("/session/{id}/prompt", "post", "sessionPrompt"));
    ops.push(operation("/session/{id}/prompt/abort", "post", "sessionPromptAbort"));
    ops.push(operation("/session/{id}/prompt_async", "post", "sessionPromptAsync"));
    ops.push(operation("/session/{id}/diff", "get", "sessionDiff"));
    ops.push(operation("/provider/", "get", "providerList"));
    ops.push(operation("/provider/refresh", "post", "providerRefresh"));
    ops.push(operation("/provider/auth", "get", "providerAuth"));
    ops.push(operation("/provider/{id}/oauth/authorize", "post", "providerOAuthAuthorize"));
    ops.push(operation("/provider/{id}/oauth/callback", "post", "providerOAuthCallback"));
    ops.push(operation("/config/", "get", "configGet"));
    ops.push(operation("/config/", "patch", "configPatch"));
    ops.push(operation("/config/providers", "get", "configProviderGet"));
    ops.push(operation("/mcp", "get", "mcpList"));
    ops.push(operation("/mcp", "post", "mcpAdd"));
    ops.push(operation("/mcp/{name}/connect", "post", "mcpConnect"));
    ops.push(operation("/mcp/{name}/disconnect", "post", "mcpDisconnect"));
    ops.push(operation("/mcp/{name}/auth", "post", "mcpAuthStart"));
    ops.push(operation("/mcp/{name}/auth", "delete", "mcpAuthDelete"));
    ops.push(operation("/mcp/{name}/auth/callback", "post", "mcpAuthCallback"));
    ops.push(operation("/mcp/{name}/auth/authenticate", "post", "mcpAuthAuthenticate"));
    ops.push(operation("/file/read", "post", "fileRead"));
    ops.push(operation("/file/write", "post", "fileWrite"));
    ops.push(operation("/file/status", "get", "fileStatus"));
    ops.push(operation("/find", "post", "find"));
    ops.push(operation("/permission", "get", "permissionList"));
    ops.push(operation("/permission/{id}/reply", "post", "permissionReply"));
    ops.push(operation("/project", "get", "projectList"));
    ops.push(operation("/project/current", "get", "projectCurrent"));
    ops.push(operation("/project/current", "patch", "projectCurrentPatch"));
    ops.push(operation("/pty", "post", "ptyCreate"));
    ops.push(operation("/pty/{id}", "get", "ptyRead"));
    ops.push(operation("/pty/{id}", "delete", "ptyDelete"));
    ops.push(operation("/question", "get", "questionList"));
    ops.push(operation("/question", "post", "questionReply"));
    ops.push(operation("/tui/session", "get", "tuiSessionList"));
    ops.push(operation("/tui/session", "post", "tuiSessionCreate"));
    ops.push(operation("/global/event", "get", "globalEventSubscribe"));
    assert(ops@.map_values(|o: OpenApiOperation| operation_view(o)) =~= operation_table());
    ops
}


/// The JavaScript sample shown for an operation: a client call of it.
pub open spec fn code_sample_spec(operation_id: Seq<char>) -> Seq<char> {
    "import { createOpencodeClient } from \"@opencode-ai/sdk\"\n\nconst client = createOpencodeClient()\nawait client."@
        + operation_id + "({\n  ...\n})"@
}

/// The JavaScript sample shown for an operation.
pub fn code_sample(operation_id: &str) -> (r: String)
    ensures
        r@ == code_sample_spec(operation_id@),
{
    cat3(
        "import { createOpencodeClient } from \"@opencode-ai/sdk\"\n\nconst client = createOpencodeClient()\nawait client.",
        operation_id,
        "({\n  ...\n})",
    )
}

/// The header of the OpenAPI document: the OpenAPI version it follows, the
/// API's title, and the server's version.
#[derive(Debug)]
pub struct OpenApiInfo {
    pub openapi: String,
    pub title: String,
    pub version: String,
}

/// The document header of a server of version `version`: OpenAPI `3.1.0`,
/// titled `AGENDAO API`.
pub fn openapi_info(version: &str) -> (r: OpenApiInfo)
    ensures
        r.openapi@ == "3.1.0"@,
        r.title@ == "AGENDAO API"@,
        r.version@ == version@,
{
    OpenApiInfo { openapi: owned("3.1.0"), title: owned("AGENDAO API"), version: owned(version) }
}

/// What the document says of one operation: its id, its one response
/// (`200`, described as `OK`) and its JavaScript code sample.
#[derive(Debug)]
pub struct OperationObject {
    pub operation_id: String,
    pub response_status: String,
    pub response_description: String,
    pub sample_lang: String,
    pub sample_source: String,
}

/// The document's entry for an operation, as `OperationObject` says, with
/// the sample `code_sample_spec` gives.
pub fn operation_object(operation_id: &str) -> (r: OperationObject)
    ensures
        r.operation_id@ == operation_id@,
        r.response_status@ == "200"@,
        r.response_description@ == "OK"@,
        r.sample_lang@ == "js"@,
        r.sample_source@ == code_sample_spec(operation_id@),
{
    OperationObject {
        operation_id: owned(operation_id),
        response_status: owned("200"),
        response_description: owned("OK"),
        sample_lang: owned("js"),
        sample_source: code_sample(operation_id),
    }
}

/// The operations of one path: each method once with its operation id.
#[derive(Debug)]
pub struct PathItem {
    pub path: String,
    pub operations: Vec<(String, String)>,
}

/// The path and its methods with their operation ids.
pub open spec fn path_item_view(i: PathItem) -> (Seq<char>, Seq<(Seq<char>, Seq<char>)>) {
    (i.path@, i.operations@.map_values(|e: (String, String)| (e.0@, e.1@)))
}

/// The position of the first entry keyed `k`, if any.
pub open spec fn first_index<V>(s: Seq<(Seq<char>, V)>, k: Seq<char>) -> Option<int> {
    if exists|i: int| 0 <= i < s.len() && (#[trigger] s[i]).0 == k {
        Some(choose|i: int| 0 <= i < s.len() && s[i].0 == k && forall|j: int| 0 <= j < i ==> s[j].0 != k)
    } else {
        None
    }
}

/// `s` with `v` under `k`: replacing the value of the entry keyed `k`, or
/// added at the end.
pub open spec fn put_keyed<V>(s: Seq<(Seq<char>, V)>, k: Seq<char>, v: V) -> Seq<(Seq<char>, V)> {
    match first_index(s, k) {
        Some(i) => s.update(i, (k, v)),
        None => s.push((k, v)),
    }
}

/// The value of the entry keyed `k`, if any.
pub open spec fn get_keyed<V>(s: Seq<(Seq<char>, V)>, k: Seq<char>) -> Option<V> {
    match first_index(s, k) {
        Some(i) => Some(s[i].1),
        None => None,
    }
}

/// The operations grouped by path, paths in the order they first appear;
/// a method listed twice for a path keeps its last operation id.
pub open spec fn group_spec(ops: Seq<(Seq<char>, Seq<char>, Seq<char>)>) -> Seq<(Seq<char>, Seq<(Seq<char>, Seq<char>)>)>
    decreases ops.len(),
{
    if ops.len() == 0 {
        Seq::empty()
    } else {
        group_step(group_spec(ops.drop_last()), ops.last())
    }
}

/// The grouping after one more operation.
#[verifier::opaque]
pub open spec fn group_step(
    g: Seq<(Seq<char>, Seq<(Seq<char>, Seq<char>)>)>,
    op: (Seq<char>, Seq<char>, Seq<char>),
) -> Seq<(Seq<char>, Seq<(Seq<char>, Seq<char>)>)> {
    let (p, m, o) = op;
    let methods = match get_keyed(g, p) {
        Some(ms) => ms,
        None => Seq::empty(),
    };
    put_keyed(g, p, put_keyed(methods, m, o))
}

proof fn lemma_first_index_at<V>(s: Seq<(Seq<char>, V)>, k: Seq<char>, i: int)
    requires
        0 <= i < s.len(),
        s[i].0 == k,
        forall|j: int| 0 <= j < i ==> s[j].0 != k,
    ensures
        first_index(s, k) == Some(i),
{
    let w = choose|q: int| 0 <= q < s.len() && s[q].0 == k && forall|j: int| 0 <= j < q ==> s[j].0 != k;
    if w < i {
        assert(s[w].0 != k);
    }
    if w > i {
        assert(s[i].0 != k);
    }
}

fn put_method(ms: &mut Vec<(String, String)>, method: &str, operation_id: &str)
    ensures
        final(ms)@.map_values(|e: (String, String)| (e.0@, e.1@)) == put_keyed(
            old(ms)@.map_values(|e: (String, String)| (e.0@, e.1@)),
            method@,
            operation_id@,
        ),
{
    let ghost v = ms@.map_values(|e: (String, String)| (e.0@, e.1@));
    let mut i: usize = 0;
    while i < ms.len()
        invariant
            i <= ms@.len(),
            v == ms@.map_values(|e: (String, String)| (e.0@, e.1@)),
            v == old(ms)@.map_values(|e: (String, String)| (e.0@, e.1@)),
            forall|j: int| 0 <= j < i ==> v[j].0 != method@,
        decreases ms@.len() - i,
    {
        if str_eq(ms[i].0.as_str(), method) {
            proof {
                lemma_first_index_at(v, method@, i as int);
            }
            ms.set(i, (owned(method), owned(operation_id)));
            proof {
                assert(ms@.map_values(|e: (String, String)| (e.0@, e.1@)) =~= v.update(
                    i as int,
                    (method@, operation_id@),
                ));
            }
            return;
        }
        i = i + 1;
    }
    ms.push((owned(method), owned(operation_id)));
    proof {
        assert(ms@.map_values(|e: (String, String)| (e.0@, e.1@)) =~= v.push((method@, operation_id@)));
    }
}

/// No two entries have the same key.
pub open spec fn distinct_keys<V>(s: Seq<(Seq<char>, V)>) -> bool {
    forall|i: int, j: int| 0 <= i < j < s.len() ==> (#[trigger] s[i]).0 != (#[trigger] s[j]).0
}

proof fn lemma_put_keyed_distinct<V>(s: Seq<(Seq<char>, V)>, k: Seq<char>, v: V)
    requires
        distinct_keys(s),
    ensures
        distinct_keys(put_keyed(s, k, v)),
        first_index(s, k) is None ==> put_keyed(s, k, v) == s.push((k, v)),
{
    match first_index(s, k) {
        Some(i) => {
            let r = s.update(i, (k, v));
            assert forall|a: int, b: int| 0 <= a < b < r.len() implies (#[trigger] r[a]).0 != (#[trigger] r[b]).0 by {
                assert(s[i].0 == k);
                assert(s[a].0 != s[b].0);
            }
        },
        None => {
            let r = s.push((k, v));
            assert forall|a: int, b: int| 0 <= a < b < r.len() implies (#[trigger] r[a]).0 != (#[trigger] r[b]).0 by {
                if b == s.len() {
                    assert(r[a] == s[a]);
                    assert(s[a].0 != k);
                } else {
                    assert(s[a].0 != s[b].0);
                }
            }
        },
    }
}

/// The document lists each path once, and each method of a path once.
pub proof fn lemma_grouping_lists_each_once(ops: Seq<(Seq<char>, Seq<char>, Seq<char>)>)
    ensures
        distinct_keys(group_spec(ops)),
        forall|i: int| 0 <= i < group_spec(ops).len() ==> distinct_keys(#[trigger] group_spec(ops)[i].1),
    decreases ops.len(),
{
    if ops.len() > 0 {
        lemma_grouping_lists_each_once(ops.drop_last());
        let g = group_spec(ops.drop_last());
        let (p, m, o) = ops.last();
        reveal(group_step);
        let methods = match get_keyed(g, p) {
            Some(ms) => ms,
            None => Seq::empty(),
        };
        assert(distinct_keys(methods)) by {
            match first_index(g, p) {
                Some(i) => {
                    assert(methods == g[i].1);
                },
                None => {},
            }
        }
        let nm = put_keyed(methods, m, o);
        lemma_put_keyed_distinct(methods, m, o);
        lemma_put_keyed_distinct(g, p, nm);
        let r = group_spec(ops);
        assert(r == put_keyed(g, p, nm));
        assert forall|i: int| 0 <= i < r.len() implies distinct_keys(#[trigger] r[i].1) by {
            match first_index(g, p) {
                Some(q) => {
                    if i != q {
                        assert(r[i] == g[i]);
                    }
                },
                None => {
                    if i < g.len() {
                        assert(r[i] == g[i]);
                    }
                },
            }
        }
    }
}

/// The grouped operations as paths and their methods.
pub open spec fn items_view(items: Seq<PathItem>) -> Seq<(Seq<char>, Seq<(Seq<char>, Seq<char>)>)> {
    items.map_values(|i: PathItem| path_item_view(i))
}

fn find_path(items: &Vec<PathItem>, path: &str) -> (r: Option<usize>)
    ensures
        r matches Some(i) ==> i < items@.len() && first_index(items_view(items@), path@) == Some(i as int)
            && items_view(items@)[i as int].0 == path@,
        r is None ==> first_index(items_view(items@), path@) is None,
{
    let ghost v = items_view(items@);
    let mut i: usize = 0;
    while i < items.len()
        invariant
            i <= items@.len(),
            v == items_view(items@),
            forall|j: int| 0 <= j < i ==> v[j].0 != path@,
        decreases items@.len() - i,
    {
        if str_eq(items[i].path.as_str(), path) {
            proof {
                lemma_first_index_at(v, path@, i as int);
            }
            return Some(i);
        }
        i = i + 1;
    }
    None
}

proof fn lemma_step_found(
    g: Seq<(Seq<char>, Seq<(Seq<char>, Seq<char>)>)>,
    i: int,
    op: (Seq<char>, Seq<char>, Seq<char>),
)
    requires
        0 <= i < g.len(),
        first_index(g, op.0) == Some(i),
    ensures
        group_step(g, op) == g.update(i, (op.0, put_keyed(g[i].1, op.1, op.2))),
{
    reveal(group_step);
}

proof fn lemma_step_new(g: Seq<(Seq<char>, Seq<(Seq<char>, Seq<char>)>)>, op: (Seq<char>, Seq<char>, Seq<char>))
    requires
        first_index(g, op.0) is None,
    ensures
        group_step(g, op) == g.push((op.0, put_keyed(Seq::<(Seq<char>, Seq<char>)>::empty(), op.1, op.2))),
{
    reveal(group_step);
}

fn update_item(items: &mut Vec<PathItem>, i: usize, method: &str, operation_id: &str)
    requires
        i < old(items)@.len(),
    ensures
        items_view(final(items)@) == items_view(old(items)@).update(
            i as int,
            (
                items_view(old(items)@)[i as int].0,
                put_keyed(items_view(old(items)@)[i as int].1, method@, operation_id@),
            ),
        ),
{
    let ghost g = items_view(items@);
    let mut item = items.remove(i);
    proof {
        assert(path_item_view(item) == g[i as int]);
    }
    put_method(&mut item.operations, method, operation_id);
    let ghost after = path_item_view(item);
    items.insert(i, item);
    proof {
        assert(items_view(items@) =~= g.update(i as int, after));
    }
}

fn push_item(items: &mut Vec<PathItem>, path: &str, method: &str, operation_id: &str)
    ensures
        items_view(final(items)@) == items_view(old(items)@).push(
            (path@, put_keyed(Seq::<(Seq<char>, Seq<char>)>::empty(), method@, operation_id@)),
        ),
{
    let ghost g = items_view(items@);
    let mut methods: Vec<(String, String)> = Vec::new();
    proof {
        assert(methods@.map_values(|e: (String, String)| (e.0@, e.1@)) =~= Seq::<(Seq<char>, Seq<char>)>::empty());
    }
    put_method(&mut methods, method, operation_id);
    let item = PathItem { path: owned(path), operations: methods };
    let ghost iv = path_item_view(item);
    items.push(item);
    proof {
        assert(items_view(items@) =~= g.push(iv));
    }
}

fn add_operation(items: &mut Vec<PathItem>, op: &OpenApiOperation)
    ensures
        items_view(final(items)@) == group_step(items_view(old(items)@), operation_view(*op)),
{
    let ghost g = items_view(items@);
    match find_path(items, op.path.as_str()) {
        Some(i) => {
            update_item(items, i, op.method.as_str(), op.operation_id.as_str());
            proof {
                lemma_step_found(g, i as int, operation_view(*op));
            }
        },
        None => {
            push_item(items, op.path.as_str(), op.method.as_str(), op.operation_id.as_str());
            proof {
                lemma_step_new(g, operation_view(*op));
            }
        },
    }
}

/// Groups operations by path, as `group_spec` says.
pub fn group_operations(ops: &Vec<OpenApiOperation>) -> (r: Vec<PathItem>)
    ensures
        items_view(r@) == group_spec(ops@.map_values(|o: OpenApiOperation| operation_view(o))),
{
    let ghost ov = ops@.map_values(|o: OpenApiOperation| operation_view(o));
    let mut items: Vec<PathItem> = Vec::new();
    let mut k: usize = 0;
    proof {
        assert(ov.subrange(0, 0) =~= Seq::<(Seq<char>, Seq<char>, Seq<char>)>::empty());
        assert(items_view(items@) =~= Seq::<(Seq<char>, Seq<(Seq<char>, Seq<char>)>)>::empty());
    }
    while k < ops.len()
        invariant
            k <= ops@.len(),
            ov == ops@.map_values(|o: OpenApiOperation| operation_view(o)),
            items_view(items@) == group_spec(ov.subrange(0, k as int)),
        decreases ops@.len() - k,
    {
        proof {
            let sub = ov.subrange(0, k + 1);
            assert(sub.drop_last() =~= ov.subrange(0, k as int));
            assert(sub.last() == operation_view(ops@[k as int]));
        }
        add_operation(&mut items, &ops[k]);
        k = k + 1;
    }
    proof {
        assert(ov.subrange(0, ops@.len() as int) =~= ov);
    }
    items
}

} // verus!
