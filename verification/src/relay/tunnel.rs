//! The duplex-copy session: two independent one-way copies with half-close
//! semantics.
//!
//! The I/O layer runs the copies and reports events; [`tunnel_step`] decides
//! what to shut down and when the session is over.

use vstd::prelude::*;

verus! {

/// The two endpoints of a session.
#[derive(Clone, Copy, Debug, PartialEq, Eq, Structural)]
pub enum Endpoint {
    Client,
    Remote,
}

/// The two one-way copies of a session.
#[derive(Clone, Copy, Debug, PartialEq, Eq, Structural)]
pub enum Direction {
    ClientToRemote,
    RemoteToClient,
}

impl Direction {
    /// The endpoint the copy reads from.
    pub open spec fn spec_source(&self) -> Endpoint {
        match self {
            Direction::ClientToRemote => Endpoint::Client,
            Direction::RemoteToClient => Endpoint::Remote,
        }
    }

    /// The endpoint the copy writes to.
    pub open spec fn spec_destination(&self) -> Endpoint {
        match self {
            Direction::ClientToRemote => Endpoint::Remote,
            Direction::RemoteToClient => Endpoint::Client,
        }
    }

    pub open spec fn spec_reverse(&self) -> Direction {
        match self {
            Direction::ClientToRemote => Direction::RemoteToClient,
            Direction::RemoteToClient => Direction::ClientToRemote,
        }
    }

    pub fn source(&self) -> (e: Endpoint)
        ensures
            e == self.spec_source(),
    {
        match self {
            Direction::ClientToRemote => Endpoint::Client,
            Direction::RemoteToClient => Endpoint::Remote,
        }
    }

    pub fn destination(&self) -> (e: Endpoint)
        ensures
            e == self.spec_destination(),
    {
        match self {
            Direction::ClientToRemote => Endpoint::Remote,
            Direction::RemoteToClient => Endpoint::Client,
        }
    }
}

/// Whether a one-way copy is still moving bytes.
#[derive(Clone, Copy, Debug, PartialEq, Eq, Structural)]
pub enum CopyProgress {
    Running,
    Done,
}

/// The state of a session: the progress of each one-way copy.
#[derive(Clone, Copy, Debug, PartialEq, Eq, Structural)]
pub struct TunnelState {
    pub client_to_remote: CopyProgress,
    pub remote_to_client: CopyProgress,
}

impl TunnelState {
    /// A freshly accepted session: both copies running.
    pub fn new() -> (s: TunnelState)
        ensures
            s.client_to_remote == CopyProgress::Running,
            s.remote_to_client == CopyProgress::Running,
    {
        TunnelState {
            client_to_remote: CopyProgress::Running,
            remote_to_client: CopyProgress::Running,
        }
    }

    pub open spec fn spec_progress(&self, d: Direction) -> CopyProgress {
        match d {
            Direction::ClientToRemote => self.client_to_remote,
            Direction::RemoteToClient => self.remote_to_client,
        }
    }

    /// The session is fully closed when both copies have ended.
    pub open spec fn spec_closed(&self) -> bool {
        self.client_to_remote is Done && self.remote_to_client is Done
    }

    pub fn closed(&self) -> (r: bool)
        ensures
            r == self.spec_closed(),
    {
        match (self.client_to_remote, self.remote_to_client) {
            (CopyProgress::Done, CopyProgress::Done) => true,
            _ => false,
        }
    }
}

/// What the I/O layer reports about a one-way copy.
#[derive(Clone, Copy, Debug, PartialEq, Eq, Structural)]
pub enum TunnelEvent {
    /// The copy saw end-of-stream on its source and drained its buffer.
    SourceEof(Direction),
    /// The copy failed with a read or write error.
    CopyError(Direction),
}

/// A shutdown the I/O layer must perform.
#[derive(Clone, Copy, Debug, PartialEq, Eq, Structural)]
pub enum TunnelAction {
    ShutdownWrite(Endpoint),
    ShutdownRead(Endpoint),
}

/// Advances the session on one event.
///
/// When a copy sees EOF, the write half of its destination and the read
/// half of its source are shut down and only that copy ends: the reverse
/// direction is untouched, so the upstream sees its read half end while
/// its own writes keep flowing.  When a copy errors, the whole session is
/// torn down.
pub fn tunnel_step(s: TunnelState, ev: TunnelEvent) -> (r: (TunnelState, Vec<TunnelAction>))
    ensures
        match ev {
            TunnelEvent::SourceEof(d) => {
                &&& r.0.spec_progress(d) is Done
                &&& r.0.spec_progress(d.spec_reverse()) == s.spec_progress(d.spec_reverse())
                &&& if s.spec_progress(d) is Running {
                    r.1@ == seq![
                        TunnelAction::ShutdownWrite(d.spec_destination()),
                        TunnelAction::ShutdownRead(d.spec_source()),
                    ]
                } else {
                    r.1@ == Seq::<TunnelAction>::empty()
                }
            },
            TunnelEvent::CopyError(d) => {
                &&& r.0.spec_closed()
                &&& r.1@ == seq![
                    TunnelAction::ShutdownWrite(Endpoint::Client),
                    TunnelAction::ShutdownRead(Endpoint::Client),
                    TunnelAction::ShutdownWrite(Endpoint::Remote),
                    TunnelAction::ShutdownRead(Endpoint::Remote),
                ]
            },
        },
{
    let mut actions: Vec<TunnelAction> = Vec::new();
    match ev {
        TunnelEvent::SourceEof(d) => {
            let was_running = match d {
                Direction::ClientToRemote => matches!(s.client_to_remote, CopyProgress::Running),
                Direction::RemoteToClient => matches!(s.remote_to_client, CopyProgress::Running),
            };
            let ns = match d {
                Direction::ClientToRemote => TunnelState {
                    client_to_remote: CopyProgress::Done,
                    ..s
                },
                Direction::RemoteToClient => TunnelState {
                    remote_to_client: CopyProgress::Done,
                    ..s
                },
            };
            if was_running {
                actions.push(TunnelAction::ShutdownWrite(d.destination()));
                actions.push(TunnelAction::ShutdownRead(d.source()));
                proof {
                    assert(actions@ =~= seq![
                        TunnelAction::ShutdownWrite(d.spec_destination()),
                        TunnelAction::ShutdownRead(d.spec_source()),
                    ]);
                }
            } else {
                proof {
                    assert(actions@ =~= Seq::<TunnelAction>::empty());
                }
            }
            (ns, actions)
        },
        TunnelEvent::CopyError(_) => {
            let ns = TunnelState {
                client_to_remote: CopyProgress::Done,
                remote_to_client: CopyProgress::Done,
            };
            actions.push(TunnelAction::ShutdownWrite(Endpoint::Client));
            actions.push(TunnelAction::ShutdownRead(Endpoint::Client));
            actions.push(TunnelAction::ShutdownWrite(Endpoint::Remote));
            actions.push(TunnelAction::ShutdownRead(Endpoint::Remote));
            proof {
                assert(actions@ =~= seq![
                    TunnelAction::ShutdownWrite(Endpoint::Client),
                    TunnelAction::ShutdownRead(Endpoint::Client),
                    TunnelAction::ShutdownWrite(Endpoint::Remote),
                    TunnelAction::ShutdownRead(Endpoint::Remote),
                ]);
            }
            (ns, actions)
        },
    }
}

/// Half-close propagation: after an EOF on one direction, the reverse copy
/// is still in whatever state it was, and no shutdown touches the reverse
/// direction's data path — its source keeps its read half and its
/// destination keeps its write half.
pub proof fn lemma_half_close_preserves_reverse(
    s: TunnelState,
    ns: TunnelState,
    acts: Seq<TunnelAction>,
    d: Direction,
)
    requires
        s.spec_progress(d) is Running,
        ns.spec_progress(d) is Done,
        ns.spec_progress(d.spec_reverse()) == s.spec_progress(d.spec_reverse()),
        acts == seq![
            TunnelAction::ShutdownWrite(d.spec_destination()),
            TunnelAction::ShutdownRead(d.spec_source()),
        ],
    ensures
        ns.spec_progress(d.spec_reverse()) == s.spec_progress(d.spec_reverse()),
        forall|i: int|
            0 <= i < acts.len() ==> acts[i] != TunnelAction::ShutdownWrite(
                d.spec_reverse().spec_destination(),
            ),
        forall|i: int|
            0 <= i < acts.len() ==> acts[i] != TunnelAction::ShutdownRead(
                d.spec_reverse().spec_source(),
            ),
{
    assert(d.spec_reverse().spec_destination() == d.spec_source());
    assert(d.spec_reverse().spec_source() == d.spec_destination());
    assert(acts[0] == TunnelAction::ShutdownWrite(d.spec_destination()));
    assert(acts[1] == TunnelAction::ShutdownRead(d.spec_source()));
}

} // verus!
