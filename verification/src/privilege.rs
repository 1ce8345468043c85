//! Enabling the debug privilege of the current process.

use vstd::prelude::*;

use crate::error::{conv_err, OsError};

verus! {

/// The access right that a token needs for its privileges to be changed.
pub const TOKEN_ADJUST_PRIVILEGES: u32 = 0x20;

/// The attribute of an enabled privilege.
pub const SE_PRIVILEGE_ENABLED: u32 = 2;

/// The identifier that the running system has given to a privilege.
#[derive(Clone, Copy, Debug, PartialEq, Eq, Structural)]
pub struct Luid {
    pub low: u32,
    pub high: i32,
}

/// A change to the privileges of a token.
#[derive(Clone, Copy, Debug, PartialEq, Eq, Structural)]
pub struct TokenPrivileges {
    pub privilege_count: u32,
    pub luid: Luid,
    pub attributes: u32,
}

/// A token, as the number of its handle.
#[derive(Clone, Copy, Debug, PartialEq, Eq, Structural)]
pub struct Token(pub isize);

/// The arguments of the call that changes the privileges of a token.
#[derive(Clone, Copy, Debug, PartialEq, Eq, Structural)]
pub struct PrivilegeAdjustment {
    pub token: Token,
    /// Whether every privilege of the token is to be disabled, in place of the change.
    pub disable_all: bool,
    pub new_state: TokenPrivileges,
    /// Whether the privileges before the change are asked for.
    pub wants_previous_state: bool,
}

/// What is to be done next.
#[derive(Debug)]
pub enum PrivilegeAction {
    /// Open the token of the current process with the access right.
    OpenCurrentProcessToken(u32),
    /// Look up the privilege of a NUL-terminated name on a system, or on the local one if there
    /// is none. The token is the one that the privilege is for.
    LookupPrivilege { token: Token, system: Option<&'static str>, name: &'static str },
    /// Change the privileges of a token.
    AdjustPrivileges(PrivilegeAdjustment),
    /// Nothing: this is the result.
    Finish(Result<(), OsError>),
}

/// What came of an action.
pub enum PrivilegeEvent {
    TokenOpened(Result<Token, windows::core::Error>),
    /// What was looked up, and the token that the action named.
    PrivilegeFound { token: Token, found: Result<Luid, windows::core::Error> },
    PrivilegesAdjusted(Result<(), windows::core::Error>),
}

/// The search for the debug privilege on the local system.
pub open spec fn debug_privilege_lookup(token: Token) -> PrivilegeAction {
    PrivilegeAction::LookupPrivilege { token, system: None, name: "SeDebugPrivilege\0" }
}

/// The change that enables the privilege `luid` of a token. It touches that one only, and does
/// not ask for what was before.
pub open spec fn enabling(token: Token, luid: Luid) -> PrivilegeAdjustment {
    PrivilegeAdjustment {
        token,
        disable_all: false,
        new_state: TokenPrivileges { privilege_count: 1, luid, attributes: SE_PRIVILEGE_ENABLED },
        wants_previous_state: false,
    }
}

/// The end after a failed action.
pub open spec fn refusal() -> PrivilegeAction {
    PrivilegeAction::Finish(Err(crate::error::os_error(crate::error::ErrorKind::Unknown)))
}

/// The action that follows an event.
pub open spec fn action_after(event: PrivilegeEvent) -> PrivilegeAction {
    match event {
        PrivilegeEvent::TokenOpened(Ok(token)) => debug_privilege_lookup(token),
        PrivilegeEvent::PrivilegeFound { token, found: Ok(luid) } =>
            PrivilegeAction::AdjustPrivileges(enabling(token, luid)),
        PrivilegeEvent::PrivilegesAdjusted(Ok(_)) => PrivilegeAction::Finish(Ok(())),
        _ => refusal(),
    }
}

/// The first action.
pub fn enable_debug_privilege() -> (action: PrivilegeAction)
    ensures
        action == PrivilegeAction::OpenCurrentProcessToken(TOKEN_ADJUST_PRIVILEGES),
{
    PrivilegeAction::OpenCurrentProcessToken(TOKEN_ADJUST_PRIVILEGES)
}

/// The next action after an event.
pub fn next_action(event: PrivilegeEvent) -> (action: PrivilegeAction)
    ensures
        action == action_after(event),
{
    match event {
        PrivilegeEvent::TokenOpened(Ok(token)) => PrivilegeAction::LookupPrivilege {
            token,
            system: None,
            name: "SeDebugPrivilege\0",
        },
        PrivilegeEvent::PrivilegeFound { token, found: Ok(luid) } =>
            PrivilegeAction::AdjustPrivileges(
                PrivilegeAdjustment {
                    token,
                    disable_all: false,
                    new_state: TokenPrivileges {
                        privilege_count: 1,
                        luid,
                        attributes: SE_PRIVILEGE_ENABLED,
                    },
                    wants_previous_state: false,
                },
            ),
        PrivilegeEvent::PrivilegesAdjusted(Ok(_)) => PrivilegeAction::Finish(Ok(())),
        PrivilegeEvent::TokenOpened(Err(e)) => PrivilegeAction::Finish(Err(conv_err(e))),
        PrivilegeEvent::PrivilegeFound { token: _, found: Err(e) } => PrivilegeAction::Finish(
            Err(conv_err(e)),
        ),
        PrivilegeEvent::PrivilegesAdjusted(Err(e)) => PrivilegeAction::Finish(Err(conv_err(e))),
    }
}

/// What the system answers to the actions, should they be tried.
pub struct PrivilegeReplies {
    pub opened: Result<Token, windows::core::Error>,
    pub found: Result<Luid, windows::core::Error>,
    pub adjusted: Result<(), windows::core::Error>,
}

/// The actions from `action` on, up to the end or to the number of `calls` that are answered.
pub open spec fn privilege_actions(
    action: PrivilegeAction,
    replies: PrivilegeReplies,
    calls: nat,
) -> Seq<PrivilegeAction>
    decreases calls,
{
    if action is Finish || calls == 0 {
        seq![action]
    } else {
        let event = match action {
            PrivilegeAction::OpenCurrentProcessToken(_) => PrivilegeEvent::TokenOpened(
                replies.opened,
            ),
            PrivilegeAction::LookupPrivilege { token, .. } => PrivilegeEvent::PrivilegeFound {
                token,
                found: replies.found,
            },
            _ => PrivilegeEvent::PrivilegesAdjusted(replies.adjusted),
        };
        seq![action] + privilege_actions(action_after(event), replies, (calls - 1) as nat)
    }
}

/// The privilege takes three actions, each tried once: opening the token, looking up the
/// privilege, and enabling it on that token. The first that the system does not grant ends them
/// with a refusal.
pub proof fn law_privilege_actions(replies: PrivilegeReplies)
    ensures
        ({
            let open = PrivilegeAction::OpenCurrentProcessToken(TOKEN_ADJUST_PRIVILEGES);
            privilege_actions(open, replies, 3) == match (replies.opened, replies.found) {
                (Err(_), _) => seq![open, refusal()],
                (Ok(token), Err(_)) => seq![open, debug_privilege_lookup(token), refusal()],
                (Ok(token), Ok(luid)) => seq![
                    open,
                    debug_privilege_lookup(token),
                    PrivilegeAction::AdjustPrivileges(enabling(token, luid)),
                    if replies.adjusted is Ok {
                        PrivilegeAction::Finish(Ok(()))
                    } else {
                        refusal()
                    },
                ],
            }
        }),
{
    reveal_with_fuel(privilege_actions, 4);
}

} // verus!
