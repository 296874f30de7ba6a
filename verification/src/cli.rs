//! The command line of `cx`: its commands and their arguments.

use vstd::prelude::*;

use crate::context::{parse_intent_spec, parsed_intent, IntentKind, IntentSpec, RiskLevel};
use crate::git_api::GitError;
use crate::session::SessionError;
use crate::text::concat;

verus! {

/// cx — AI-native code management tool.
pub struct Cli {
    pub command: Command,
}

/// The commands of `cx`.
pub enum Command {
    /// Initialize .cx/ metadata store in the current git repository.
    Init,
    /// Start a new AI session.
    Start {
        /// The prompt or requirement that starts this session.
        prompt: String,
    },
    /// Record current changes as a snapshot.
    Apply {
        /// Description of the change.
        message: String,
        /// Semantic label, format: type,scope=x[,risk=low].
        intent: String,
        /// Skip git hooks.
        skip_hooks: bool,
    },
    /// Show current session status.
    Status,
    /// End the current session.
    End {
        /// Merge session branch into base branch.
        merge: bool,
        /// Abandon session branch.
        abandon: bool,
    },
    /// View snapshot history.
    Log {
        /// Optional session ID to inspect.
        session_id: Option<String>,
    },
    /// Review snapshots grouped by intent.
    Review {
        /// Optional specific snapshot ID.
        snapshot_id: Option<String>,
    },
}

/// The author recorded in sessions and snapshots, from the answer to `git config
/// user.name`: `user:<name>` when a non-empty name came back, else `user`.
pub fn determine_author(user_name: Result<String, GitError>) -> (a: String)
    ensures
        match user_name {
            Ok(n) => if n@.len() > 0 {
                a@ == "user:"@ + n@
            } else {
                a@ == "user"@
            },
            Err(_) => a@ == "user"@,
        },
{
    match user_name {
        Ok(n) => {
            if n.as_str().is_empty() {
                String::from_str("user")
            } else {
                concat("user:", n.as_str())
            }
        },
        Err(_) => String::from_str("user"),
    }
}

/// The intent of `cx apply`: its `--intent` value parsed, a parse error becoming a user
/// error with the same message.
pub fn apply_intent(intent: &str) -> (r: Result<IntentSpec, SessionError>)
    ensures
        match r {
            Ok(spec) => parsed_intent(intent@) == Ok::<(IntentKind, Seq<char>, RiskLevel), Seq<char>>(
                (spec.kind, spec.scope@, spec.risk),
            ),
            Err(e) => e matches SessionError::User(m) && parsed_intent(intent@) == Err::<
                (IntentKind, Seq<char>, RiskLevel),
                Seq<char>,
            >(m@),
        },
{
    match parse_intent_spec(intent) {
        Ok(spec) => Ok(spec),
        Err(m) => Err(SessionError::User(m)),
    }
}

} // verus!
