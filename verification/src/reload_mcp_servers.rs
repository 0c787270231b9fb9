//! The tool that reloads the MCP servers: which calls it accepts, and what it reports.

use vstd::prelude::*;
use vstd::string::*;

use crate::outside::find_json_error;
use crate::outside::json_error;
use crate::outside::json_object;
use crate::outside::quoted;
use crate::text::decimal;
use crate::text::join2;
use crate::text::space;
use crate::text::trim;
use crate::text::trim_by;

verus! {

/// What the report says where the servers were reloaded.
pub const RELOADED_MESSAGE: &'static str =
    "Reloaded MCP servers from config.toml and reconnected active MCP sessions.";

/// How a tool is called.
#[derive(Clone, Copy, Debug, PartialEq, Eq, Structural)]
pub enum ToolKind {
    Function,
    Mcp,
}

/// What a tool is called with.
#[derive(Debug)]
pub enum ToolPayload {
    /// A function call with its arguments, as JSON text.
    Function { arguments: String },
    /// A call of a custom tool.
    Custom { input: String },
    /// Any other kind of call.
    Other,
}

/// Why a call was not carried out.
#[derive(Debug, PartialEq, Eq)]
pub enum FunctionCallError {
    /// The text is for the model to read.
    RespondToModel(String),
}

/// What a tool hands back.
#[derive(Debug, PartialEq, Eq)]
pub enum ToolOutput {
    /// The outcome of a function call.
    Function { body: String, success: Option<bool> },
}

/// Reloads the MCP servers from the configuration.
#[derive(Clone, Copy, Debug)]
pub struct ReloadMcpServersHandler;

/// Why a call is not accepted, where it is not: it has to be a function call, and arguments that
/// are not blank have to be JSON.
pub open spec fn rejection(payload: ToolPayload) -> Option<Seq<char>> {
    match payload {
        ToolPayload::Function { arguments } => if trim_by(arguments@, space()).len() == 0 {
            None
        } else {
            match json_error(arguments@) {
                Some(why) => Some("failed to parse function arguments: "@ + why),
                None => None,
            }
        },
        _ => Some("reload_mcp_servers handler received unsupported payload"@),
    }
}

/// The report of a reload after which that many servers are configured.
pub open spec fn report_text(configured_server_count: nat) -> Seq<char> {
    "{"@ + quoted("configured_server_count"@) + ":"@ + decimal(configured_server_count) + ","@
        + quoted("message"@) + ":"@ + quoted(RELOADED_MESSAGE@) + ","@ + quoted("status"@) + ":"@
        + quoted("ok"@) + "}"@
}

impl ReloadMcpServersHandler {
    /// How the tool is called.
    pub fn kind(&self) -> (r: ToolKind)
        ensures
            r == ToolKind::Function,
    {
        ToolKind::Function
    }

    /// Why arguments that are not blank are not accepted, where `json_problem` is what is wrong
    /// with them as JSON.
    pub fn argument_error(json_problem: Option<String>) -> (r: Result<(), FunctionCallError>)
        ensures
            match (json_problem, r) {
                (Some(why), Err(FunctionCallError::RespondToModel(text))) => text@
                    == "failed to parse function arguments: "@ + why@,
                (None, Ok(_)) => true,
                _ => false,
            },
    {
        match json_problem {
            Some(why) => Err(
                FunctionCallError::RespondToModel(
                    join2("failed to parse function arguments: ", why.as_str()),
                ),
            ),
            None => Ok(()),
        }
    }

    /// Whether the call is to be carried out. The reload follows where it is.
    pub fn accept(&self, payload: &ToolPayload) -> (r: Result<(), FunctionCallError>)
        ensures
            match r {
                Ok(_) => rejection(*payload) is None,
                Err(FunctionCallError::RespondToModel(text)) => rejection(*payload) == Some(text@),
            },
    {
        match payload {
            ToolPayload::Function { arguments } => {
                if trim(arguments.as_str()).is_empty() {
                    Ok(())
                } else {
                    Self::argument_error(find_json_error(arguments.as_str()))
                }
            },
            _ => Err(
                FunctionCallError::RespondToModel(
                    "reload_mcp_servers handler received unsupported payload".to_string(),
                ),
            ),
        }
    }

    /// Carries out a call: `reload` reloads the servers and says how many are configured. It is
    /// called where the call is accepted, and only there.
    pub fn handle<F: FnOnce() -> usize>(&self, payload: ToolPayload, reload: F) -> (r: Result<
        ToolOutput,
        FunctionCallError,
    >)
        requires
            rejection(payload) is None ==> reload.requires(()),
        ensures
            match r {
                Ok(ToolOutput::Function { body, success }) => rejection(payload) is None && exists|
                    n: usize,
                |
                    #[trigger] reload.ensures((), n) && body@ == report_text(n as nat) && success
                        == Some(true),
                Err(FunctionCallError::RespondToModel(text)) => rejection(payload) == Some(text@),
            },
    {
        match self.accept(&payload) {
            Ok(_) => {
                let configured_server_count = reload();
                Ok(self.report(configured_server_count))
            },
            Err(e) => Err(e),
        }
    }

    /// The outcome of a call where the reload, if there is one, leaves that many servers configured.
    pub fn handle_with_count(&self, payload: ToolPayload, configured_server_count: usize) -> (r:
        Result<ToolOutput, FunctionCallError>)
        ensures
            match r {
                Ok(ToolOutput::Function { body, success }) => rejection(payload) is None && body@
                    == report_text(configured_server_count as nat) && success == Some(true),
                Err(FunctionCallError::RespondToModel(text)) => rejection(payload) == Some(text@),
            },
    {
        let reloaded = move || -> (n: usize)
            ensures
                n == configured_server_count,
        {
            configured_server_count
        };
        self.handle(payload, reloaded)
    }

    /// What is handed back once the servers were reloaded.
    pub fn report(&self, configured_server_count: usize) -> (r: ToolOutput)
        ensures
            r matches ToolOutput::Function { body, success } && body@ == report_text(
                configured_server_count as nat,
            ) && success == Some(true),
    {
        proof {
            reveal_strlit("configured_server_count");
            reveal_strlit("message");
            reveal_strlit("status");
            reveal_strlit("ok");
            reveal_strlit(
                "Reloaded MCP servers from config.toml and reconnected active MCP sessions.",
            );
        }
        let body = json_object(
            "configured_server_count",
            configured_server_count as u64,
            "message",
            RELOADED_MESSAGE,
            "status",
            "ok",
        );
        ToolOutput::Function { body, success: Some(true) }
    }
}

} // verus!
