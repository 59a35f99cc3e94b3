//! Claiming the daemon's Unix socket path: bind it; when it is in use,
//! find out whether another daemon listens there, and replace it only when
//! it is provably a stale socket. The system calls are the caller's; each
//! step here takes how the last one went and says what to do next.
use vstd::prelude::*;
use crate::daemon::cat;

verus! {

/// The operation just performed on the socket path.
#[derive(Clone, Copy, Debug, PartialEq, Eq, Structural)]
pub enum BindStage {
    /// The first attempt to bind.
    FirstBind,
    /// Connecting to the path, to see whether a daemon answers.
    Probe,
    /// Binding again after the path vanished meanwhile.
    RaceBind,
    /// Reading what kind of file the path is.
    Inspect,
    /// Removing the stale socket.
    Remove,
    /// Binding after the stale socket was removed.
    FinalBind,
}

/// The kinds of error the decisions tell apart.
#[derive(Clone, Copy, Debug, PartialEq, Eq, Structural)]
pub enum ErrKind {
    AddrInUse,
    NotFound,
    ConnectionRefused,
    Other,
}

/// How an operation went.
#[derive(Clone, Debug, PartialEq, Eq)]
pub enum BindEvent {
    /// It succeeded (after `Inspect`: the path is a socket).
    Done,
    /// `Inspect` found something other than a socket; after any other
    /// stage it counts as `Done`.
    NotSocket,
    /// It failed, with this kind and message.
    Failed(ErrKind, String),
}

/// What to do next.
#[derive(Clone, Debug, PartialEq, Eq)]
pub enum BindAction {
    /// Perform this operation and report how it went.
    Then(BindStage),
    /// The path is bound: listen on it.
    Listen,
    /// Give up with this message; with the kind `AlreadyExists` when the
    /// flag is set, else with the kind of the error just reported.
    Fail(bool, String),
}

/// [`BindAction`] with its message as text.
pub enum BindPlan {
    Then(BindStage),
    Listen,
    Fail(bool, Seq<char>),
}

impl BindAction {
    pub open spec fn plan(&self) -> BindPlan {
        match self {
            BindAction::Then(s) => BindPlan::Then(*s),
            BindAction::Listen => BindPlan::Listen,
            BindAction::Fail(k, m) => BindPlan::Fail(*k, m@),
        }
    }
}

/// The decision after `stage` went as `event`, for the socket at `path`.
pub open spec fn bind_next(stage: BindStage, path: Seq<char>, event: BindEvent) -> BindPlan {
    match event {
        BindEvent::Failed(kind, e) => match stage {
            BindStage::FirstBind => if kind == ErrKind::AddrInUse {
                BindPlan::Then(BindStage::Probe)
            } else {
                BindPlan::Fail(false, "bind "@ + path + ": "@ + e@)
            },
            BindStage::Probe => if kind == ErrKind::NotFound {
                BindPlan::Then(BindStage::RaceBind)
            } else if kind == ErrKind::ConnectionRefused {
                BindPlan::Then(BindStage::Inspect)
            } else {
                BindPlan::Fail(false, "cannot prove that existing socket "@ + path + " is stale: "@ + e@)
            },
            BindStage::RaceBind => BindPlan::Fail(false, "bind "@ + path + " after startup race: "@ + e@),
            BindStage::Inspect => BindPlan::Fail(false, "inspect existing socket "@ + path + ": "@ + e@),
            BindStage::Remove => BindPlan::Fail(false, "remove stale socket "@ + path + ": "@ + e@),
            BindStage::FinalBind => BindPlan::Fail(
                false,
                "bind "@ + path + " after removing stale socket: "@ + e@,
            ),
        },
        _ => match stage {
            BindStage::FirstBind | BindStage::RaceBind | BindStage::FinalBind => BindPlan::Listen,
            BindStage::Probe => BindPlan::Fail(true, "another fangd instance is listening on "@ + path),
            BindStage::Inspect => if event is NotSocket {
                BindPlan::Fail(true, "refusing to replace non-socket path "@ + path)
            } else {
                BindPlan::Then(BindStage::Remove)
            },
            BindStage::Remove => BindPlan::Then(BindStage::FinalBind),
        },
    }
}

/// The order in which the operations can follow each other.
pub open spec fn stage_rank(s: BindStage) -> int {
    match s {
        BindStage::FirstBind => 0,
        BindStage::Probe => 1,
        BindStage::RaceBind => 2,
        BindStage::Inspect => 2,
        BindStage::Remove => 3,
        BindStage::FinalBind => 4,
    }
}

/// Every claim ends: each step moves to a later operation, so at most five
/// follow the first bind; and a path is only ever removed after it was
/// found to be a socket that nobody answers on.
pub proof fn lemma_claim_progresses(stage: BindStage, path: Seq<char>, event: BindEvent)
    ensures
        bind_next(stage, path, event) matches BindPlan::Then(s) ==> stage_rank(s) > stage_rank(stage),
        bind_next(stage, path, event) matches BindPlan::Then(s) && s == BindStage::Remove ==> stage
            == BindStage::Inspect && event is Done,
        bind_next(stage, path, event) matches BindPlan::Then(s) && s == BindStage::Inspect ==> (stage
            == BindStage::Probe && (event matches BindEvent::Failed(k, _) && k == ErrKind::ConnectionRefused)),
{
}

/// `head`, the path, `tail` and the error.
fn framed(head: &str, path: &str, tail: &str, e: &String) -> (r: String)
    ensures
        r@ == head@ + path@ + tail@ + e@,
{
    let x = cat(head, path);
    let y = cat(x.as_str(), tail);
    cat(y.as_str(), e.as_str())
}

/// What to do after `stage` went as `event`, for the socket at `path`.
pub fn bind_step(stage: BindStage, path: &str, event: &BindEvent) -> (r: BindAction)
    ensures
        r.plan() == bind_next(stage, path@, *event),
{
    match event {
        BindEvent::Failed(kind, e) => match stage {
            BindStage::FirstBind => if *kind == ErrKind::AddrInUse {
                BindAction::Then(BindStage::Probe)
            } else {
                BindAction::Fail(false, framed("bind ", path, ": ", e))
            },
            BindStage::Probe => if *kind == ErrKind::NotFound {
                BindAction::Then(BindStage::RaceBind)
            } else if *kind == ErrKind::ConnectionRefused {
                BindAction::Then(BindStage::Inspect)
            } else {
                BindAction::Fail(false, framed("cannot prove that existing socket ", path, " is stale: ", e))
            },
            BindStage::RaceBind => BindAction::Fail(false, framed("bind ", path, " after startup race: ", e)),
            BindStage::Inspect => BindAction::Fail(false, framed("inspect existing socket ", path, ": ", e)),
            BindStage::Remove => BindAction::Fail(false, framed("remove stale socket ", path, ": ", e)),
            BindStage::FinalBind => BindAction::Fail(
                false,
                framed("bind ", path, " after removing stale socket: ", e),
            ),
        },
        _ => match stage {
            BindStage::FirstBind | BindStage::RaceBind | BindStage::FinalBind => BindAction::Listen,
            BindStage::Probe => BindAction::Fail(true, cat("another fangd instance is listening on ", path)),
            BindStage::Inspect => match event {
                BindEvent::NotSocket => BindAction::Fail(true, cat("refusing to replace non-socket path ", path)),
                _ => BindAction::Then(BindStage::Remove),
            },
            BindStage::Remove => BindAction::Then(BindStage::FinalBind),
        },
    }
}

} // verus!
