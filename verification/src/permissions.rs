//! Giving a socket to the user and the group that may connect to it.

use vstd::prelude::*;

use crate::config::SocketConfig;
use crate::daemon_error::DaemonError;
use crate::os_error::OsError;
use crate::text::contains_char;

verus! {

/// How to find the number of a user or a group.
#[derive(Debug, Clone, Copy, PartialEq, Eq, Structural)]
pub enum IdQuery {
    /// Take that of the daemon.
    Own,
    /// Take this one.
    Known(u32),
    /// Look the name up.
    LookUp,
}

/// What came of it.
#[derive(Debug)]
pub enum IdAnswer {
    Found(u32),
    NotFound,
    Failed(OsError),
}

/// How to find the user: the daemon's own where none is named.
pub fn user_query(user: &str) -> (r: Result<IdQuery, DaemonError>)
    ensures
        match r {
            Ok(q) => !user@.contains('\0') && q == (if user@.len() == 0 {
                IdQuery::Own
            } else {
                IdQuery::LookUp
            }),
            Err(e) => user@.contains('\0') && (e matches DaemonError::UserLookup { name, source }
                && name@ == user@ && source.code is None && source.text@
                == "user name contains a NUL byte"@),
        },
{
    if user.is_empty() {
        return Ok(IdQuery::Own);
    }
    if contains_char(user, '\0') {
        return Err(
            DaemonError::UserLookup {
                name: user.to_owned(),
                source: OsError { code: None, text: "user name contains a NUL byte".to_owned() },
            },
        );
    }
    Ok(IdQuery::LookUp)
}

/// The number of the user, from what came of finding it.
pub fn lookup_uid(user: &str, answer: IdAnswer) -> (r: Result<u32, DaemonError>)
    ensures
        match answer {
            IdAnswer::Found(uid) => r == Ok::<u32, DaemonError>(uid),
            IdAnswer::NotFound => r matches Err(DaemonError::UserNotFound { name }) && name@
                == user@,
            IdAnswer::Failed(e) => r matches Err(DaemonError::UserLookup { name, source }) && name@
                == user@ && source == e,
        },
{
    match answer {
        IdAnswer::Found(uid) => Ok(uid),
        IdAnswer::NotFound => Err(DaemonError::UserNotFound { name: user.to_owned() }),
        IdAnswer::Failed(source) => Err(DaemonError::UserLookup { name: user.to_owned(), source }),
    }
}

/// How to find the group: the root group where none is named.
pub fn group_query(group: &str) -> (r: Result<IdQuery, DaemonError>)
    ensures
        match r {
            Ok(q) => !group@.contains('\0') && q == (if group@.len() == 0 {
                IdQuery::Known(0)
            } else {
                IdQuery::LookUp
            }),
            Err(e) => group@.contains('\0') && (e matches DaemonError::GroupLookup { name, source }
                && name@ == group@ && source.code is None && source.text@
                == "group name contains a NUL byte"@),
        },
{
    if group.is_empty() {
        return Ok(IdQuery::Known(0));
    }
    if contains_char(group, '\0') {
        return Err(
            DaemonError::GroupLookup {
                name: group.to_owned(),
                source: OsError { code: None, text: "group name contains a NUL byte".to_owned() },
            },
        );
    }
    Ok(IdQuery::LookUp)
}

/// The number of the group, from what came of finding it.
pub fn lookup_gid(group: &str, answer: IdAnswer) -> (r: Result<u32, DaemonError>)
    ensures
        match answer {
            IdAnswer::Found(gid) => r == Ok::<u32, DaemonError>(gid),
            IdAnswer::NotFound => r matches Err(DaemonError::GroupNotFound { name }) && name@
                == group@,
            IdAnswer::Failed(e) => r matches Err(DaemonError::GroupLookup { name, source })
                && name@ == group@ && source == e,
        },
{
    match answer {
        IdAnswer::Found(gid) => Ok(gid),
        IdAnswer::NotFound => Err(DaemonError::GroupNotFound { name: group.to_owned() }),
        IdAnswer::Failed(source) => Err(
            DaemonError::GroupLookup { name: group.to_owned(), source },
        ),
    }
}

/// What giving away a socket wants done.
#[derive(Debug, Clone, Copy, PartialEq, Eq, Structural)]
pub enum PermissionStep {
    /// Find the user.
    FindUser(IdQuery),
    /// Find the group of a socket that goes to the user.
    FindGroup { uid: u32, query: IdQuery },
    /// Give the socket to the user and the group.
    Chown { uid: u32, gid: u32 },
    /// Nothing more.
    Done,
}

/// Begins to give away the socket at `cfg`'s path.
pub fn set_socket_permissions(cfg: &SocketConfig) -> (r: Result<PermissionStep, DaemonError>)
    ensures
        match r {
            Ok(step) => !cfg.user@.contains('\0') && step == PermissionStep::FindUser(
                if cfg.user@.len() == 0 {
                    IdQuery::Own
                } else {
                    IdQuery::LookUp
                },
            ),
            Err(e) => cfg.user@.contains('\0') && (e matches DaemonError::UserLookup { name, source }
                && name@ == cfg.user@ && source.code is None && source.text@
                == "user name contains a NUL byte"@),
        },
{
    match user_query(cfg.user.as_str()) {
        Ok(query) => Ok(PermissionStep::FindUser(query)),
        Err(e) => Err(e),
    }
}

/// Goes on when it is known what came of finding the user.
pub fn on_user(cfg: &SocketConfig, answer: IdAnswer) -> (r: Result<PermissionStep, DaemonError>)
    ensures
        match answer {
            IdAnswer::NotFound => r matches Err(DaemonError::UserNotFound { name }) && name@
                == cfg.user@,
            IdAnswer::Failed(cause) => r matches Err(DaemonError::UserLookup { name, source })
                && name@ == cfg.user@ && source == cause,
            IdAnswer::Found(uid) => match r {
                Ok(step) => !cfg.group@.contains('\0') && step == (PermissionStep::FindGroup {
                    uid,
                    query: if cfg.group@.len() == 0 {
                        IdQuery::Known(0)
                    } else {
                        IdQuery::LookUp
                    },
                }),
                Err(e) => cfg.group@.contains('\0') && (e matches DaemonError::GroupLookup {
                    name,
                    source,
                } && name@ == cfg.group@ && source.code is None && source.text@
                    == "group name contains a NUL byte"@),
            },
        },
{
    let uid: u32 = match lookup_uid(cfg.user.as_str(), answer) {
        Ok(uid) => uid,
        Err(e) => return Err(e),
    };
    match group_query(cfg.group.as_str()) {
        Ok(query) => Ok(PermissionStep::FindGroup { uid, query }),
        Err(e) => Err(e),
    }
}

/// Goes on when it is known what came of finding the group. A path that no file can
/// have is refused.
pub fn on_group(cfg: &SocketConfig, uid: u32, answer: IdAnswer) -> (r: Result<
    PermissionStep,
    DaemonError,
>)
    ensures
        match answer {
            IdAnswer::NotFound => r matches Err(DaemonError::GroupNotFound { name }) && name@
                == cfg.group@,
            IdAnswer::Failed(cause) => r matches Err(DaemonError::GroupLookup { name, source })
                && name@ == cfg.group@ && source == cause,
            IdAnswer::Found(gid) => match r {
                Ok(step) => !cfg.socket_name@.contains('\0') && step == (PermissionStep::Chown {
                    uid,
                    gid,
                }),
                Err(e) => cfg.socket_name@.contains('\0') && (e matches DaemonError::NulInPath(p)
                    && p@ == cfg.socket_name@),
            },
        },
{
    let gid: u32 = match lookup_gid(cfg.group.as_str(), answer) {
        Ok(gid) => gid,
        Err(e) => return Err(e),
    };
    if contains_char(cfg.socket_name.as_str(), '\0') {
        return Err(DaemonError::NulInPath(cfg.socket_name.clone()));
    }
    Ok(PermissionStep::Chown { uid, gid })
}

/// Ends with what came of giving the socket away.
pub fn on_chown(cfg: &SocketConfig, uid: u32, gid: u32, done: Result<(), OsError>) -> (r: Result<
    PermissionStep,
    DaemonError,
>)
    ensures
        r == (match done {
            Ok(()) => Ok::<PermissionStep, DaemonError>(PermissionStep::Done),
            Err(source) => Err::<PermissionStep, DaemonError>(
                DaemonError::Chown { path: cfg.socket_name, uid, gid, source },
            ),
        }),
{
    match done {
        Ok(()) => Ok(PermissionStep::Done),
        Err(source) => Err(
            DaemonError::Chown { path: cfg.socket_name.clone(), uid, gid, source },
        ),
    }
}

} // verus!
