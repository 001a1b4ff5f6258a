//! MCP servers: how a server configuration is read into a runtime
//! configuration, how server status is reported, and what an MCP error is
//! answered.

use vstd::prelude::*;
use crate::text::opt_view;
use crate::api_error::ApiError;
use crate::text::{trim, owned, trim_str, cat};

verus! {

/// The status of an MCP server as the manager reports it.
pub struct McpServerInfo {
    pub name: String,
    pub status: String,
    pub tools: usize,
    pub resources: usize,
    pub error: Option<String>,
}

/// The status of an MCP server as answered to a client.
pub struct McpStatusInfo {
    pub name: String,
    pub status: String,
    pub tools: usize,
    pub resources: usize,
    pub error: Option<String>,
}


impl McpStatusInfo {
    /// The status answered for a server the manager reports.
    pub fn from(info: McpServerInfo) -> (r: Self)
        ensures
            r.name@ == info.name@,
            r.status@ == info.status@,
            r.tools == info.tools,
            r.resources == info.resources,
            opt_view(r.error) == opt_view(info.error),
    {
        McpStatusInfo {
            name: info.name,
            status: info.status,
            tools: info.tools,
            resources: info.resources,
            error: info.error,
        }
    }
}

/// The code sent back to finish an MCP server's OAuth flow.
pub struct McpAuthCallbackRequest {
    pub code: String,
}

/// The log of an MCP server.
pub struct McpLogsResponse<L> {
    pub name: String,
    pub logs: Vec<L>,
}

/// The answer to a restart of an MCP server.
pub struct McpRestartResponse {
    pub success: bool,
    pub server: McpStatusInfo,
}

/// An error of the MCP OAuth manager.
pub enum McpOAuthError {
    ServerNotFound(String),
    OAuthNotSupported(String),
    OAuthInProgress,
    OAuthFailed(String),
    RuntimeError(String),
}

/// What an MCP error is answered: not found for an unknown server, a bad
/// request otherwise.
pub fn mcp_error_to_api_error(error: McpOAuthError) -> (r: ApiError)
    ensures
        match error {
            McpOAuthError::ServerNotFound(name) => r.is_not_found("MCP server not found: "@ + name@),
            McpOAuthError::OAuthNotSupported(name) => r.is_bad_request(
                "MCP server does not support OAuth: "@ + name@,
            ),
            McpOAuthError::OAuthInProgress => r.is_bad_request("OAuth already in progress"@),
            McpOAuthError::OAuthFailed(m) => r.is_bad_request(m@),
            McpOAuthError::RuntimeError(m) => r.is_bad_request(m@),
        },
{
    match error {
        McpOAuthError::ServerNotFound(name) => ApiError::NotFound(
            cat("MCP server not found: ", name.as_str()),
        ),
        McpOAuthError::OAuthNotSupported(name) => ApiError::BadRequest(
            cat("MCP server does not support OAuth: ", name.as_str()),
        ),
        McpOAuthError::OAuthInProgress => ApiError::BadRequest(owned("OAuth already in progress")),
        McpOAuthError::OAuthFailed(m) => ApiError::BadRequest(m),
        McpOAuthError::RuntimeError(m) => ApiError::BadRequest(m),
    }
}

/// The refusal for a server that is neither registered nor configured.
pub fn mcp_server_not_found(name: &str) -> (r: ApiError)
    ensures
        r.is_not_found("MCP server not found: "@ + name@),
{
    ApiError::NotFound(cat("MCP server not found: ", name))
}

/// How a remote MCP server's OAuth is configured.
#[derive(Debug)]
pub enum McpOAuthSetting {
    Disabled,
    Config { client_id: Option<String>, authorization_url: Option<String> },
}

/// How an MCP server is run.
#[derive(Debug)]
pub enum McpRuntimeConfig {
    Remote {
        url: String,
        oauth_enabled: bool,
        client_id: Option<String>,
        authorization_url: Option<String>,
    },
    Local {
        command: String,
        args: Vec<String>,
        env: Option<Vec<(String, String)>>,
        timeout: Option<u64>,
    },
}

/// An MCP server configuration sent by a client.
pub struct McpConfigInput {
    pub server_type: Option<String>,
    pub command: Option<Vec<String>>,
    pub environment: Option<Vec<(String, String)>>,
    pub url: Option<String>,
    pub enabled: Option<bool>,
    pub timeout: Option<u64>,
    pub oauth: Option<McpOAuthSetting>,
}

/// A request to add an MCP server.
pub struct AddMcpRequest {
    pub name: String,
    pub config: McpConfigInput,
}

/// Whether a client's configuration describes a remote server: its type is
/// `remote` or it gives a URL.
pub open spec fn is_remote_input(c: McpConfigInput) -> bool {
    opt_view(c.server_type) == Some("remote"@) || c.url is Some
}

/// Reads a client's MCP server configuration: a remote server needs a URL
/// and has OAuth unless it is disabled; a local server needs a command whose
/// program is not blank, the rest being its arguments. Servers are enabled
/// unless the configuration says otherwise.
pub fn parse_runtime_from_request(config: McpConfigInput) -> (r: Result<(McpRuntimeConfig, bool), ApiError>)
    ensures
        is_remote_input(config) ==> match config.url {
            None => r matches Err(e) && e.is_bad_request("MCP remote config requires `url`"@),
            Some(u) => r matches Ok((McpRuntimeConfig::Remote { url, oauth_enabled, client_id, authorization_url }, en))
                && url@ == u@ && en == (config.enabled != Some(false)) && oauth_enabled == !(
            config.oauth matches Some(McpOAuthSetting::Disabled)) && match config.oauth {
                Some(McpOAuthSetting::Config { client_id: c, authorization_url: a }) => opt_view(client_id)
                    == opt_view(c) && opt_view(authorization_url) == opt_view(a),
                _ => client_id is None && authorization_url is None,
            },
        },
        !is_remote_input(config) ==> {
            let cmd: Seq<String> = match config.command {
                Some(v) => v@,
                None => Seq::empty(),
            };
            if cmd.len() == 0 || trim(cmd[0]@).len() == 0 {
                r matches Err(e) && e.is_bad_request("MCP local config requires non-empty `command`"@)
            } else {
                r matches Ok((McpRuntimeConfig::Local { command, args, env, timeout }, en)) && command@
                    == cmd[0]@ && args@ == cmd.drop_first() && env == config.environment && timeout
                    == config.timeout && en == (config.enabled != Some(false))
            }
        },
{
    let enabled = match config.enabled {
        Some(b) => b,
        None => true,
    };
    let remote_type = match &config.server_type {
        Some(t) => crate::text::str_eq(t.as_str(), "remote"),
        None => false,
    };
    if remote_type || config.url.is_some() {
        let url = match config.url {
            None => return Err(ApiError::BadRequest(owned("MCP remote config requires `url`"))),
            Some(u) => u,
        };
        let oauth_enabled = match &config.oauth {
            Some(McpOAuthSetting::Disabled) => false,
            _ => true,
        };
        let (client_id, authorization_url) = match config.oauth {
            Some(McpOAuthSetting::Config { client_id, authorization_url }) => (client_id, authorization_url),
            _ => (None, None),
        };
        return Ok((McpRuntimeConfig::Remote { url, oauth_enabled, client_id, authorization_url }, enabled));
    }
    let mut command = match config.command {
        Some(v) => v,
        None => Vec::new(),
    };
    if command.len() == 0 {
        return Err(ApiError::BadRequest(owned("MCP local config requires non-empty `command`")));
    }
    let ghost all = command@;
    let program = command.remove(0);
    let t = trim_str(program.as_str());
    if t.as_str().unicode_len() == 0 {
        return Err(ApiError::BadRequest(owned("MCP local config requires non-empty `command`")));
    }
    proof {
        assert(command@ =~= all.drop_first());
    }
    Ok((
        McpRuntimeConfig::Local {
            command: program,
            args: command,
            env: config.environment,
            timeout: config.timeout,
        },
        enabled,
    ))
}

/// A full MCP server entry of the configuration file.
pub struct McpServerSpec {
    pub url: Option<String>,
    pub command: Vec<String>,
    pub environment: Option<Vec<(String, String)>>,
    pub timeout: Option<u64>,
    pub enabled: Option<bool>,
    pub oauth: Option<McpOAuthSetting>,
}

/// An MCP server entry of the configuration file: a bare toggle, or a full
/// server.
pub enum LoadedMcpServerConfig {
    Enabled { enabled: bool },
    Full(McpServerSpec),
}

/// Reads an MCP server entry of the configuration file: a bare toggle gives
/// no runtime; a full entry with a URL is remote (with OAuth unless it is
/// disabled), else one with a command is local, else it gives none.
pub fn parse_runtime_from_loaded_config(config: LoadedMcpServerConfig) -> (r: Option<(McpRuntimeConfig, bool)>)
    ensures
        match config {
            LoadedMcpServerConfig::Enabled { .. } => r is None,
            LoadedMcpServerConfig::Full(s) => match s.url {
                Some(u) => r matches Some((McpRuntimeConfig::Remote { url, oauth_enabled, client_id, authorization_url }, en))
                    && url@ == u@ && en == (s.enabled != Some(false)) && oauth_enabled == !(
                s.oauth matches Some(McpOAuthSetting::Disabled)) && match s.oauth {
                    Some(McpOAuthSetting::Config { client_id: c, authorization_url: a }) => opt_view(client_id)
                        == opt_view(c) && opt_view(authorization_url) == opt_view(a),
                    _ => client_id is None && authorization_url is None,
                },
                None => if s.command@.len() == 0 {
                    r is None
                } else {
                    r matches Some((McpRuntimeConfig::Local { command, args, env, timeout }, en)) && command@
                        == s.command@[0]@ && args@ == s.command@.drop_first() && env == s.environment
                        && timeout == s.timeout && en == (s.enabled != Some(false))
                },
            },
        },
{
    let s = match config {
        LoadedMcpServerConfig::Enabled { .. } => return None,
        LoadedMcpServerConfig::Full(s) => s,
    };
    let enabled = match s.enabled {
        Some(b) => b,
        None => true,
    };
    match s.url {
        Some(url) => {
            let oauth_enabled = match &s.oauth {
                Some(McpOAuthSetting::Disabled) => false,
                _ => true,
            };
            let (client_id, authorization_url) = match s.oauth {
                Some(McpOAuthSetting::Config { client_id, authorization_url }) => (client_id, authorization_url),
                _ => (None, None),
            };
            Some((McpRuntimeConfig::Remote { url, oauth_enabled, client_id, authorization_url }, enabled))
        },
        None => {
            let mut command = s.command;
            if command.len() == 0 {
                return None;
            }
            let ghost all = command@;
            let program = command.remove(0);
            proof {
                assert(command@ =~= all.drop_first());
            }
            Some((
                McpRuntimeConfig::Local {
                    command: program,
                    args: command,
                    env: s.environment,
                    timeout: s.timeout,
                },
                enabled,
            ))
        },
    }
}

} // verus!
