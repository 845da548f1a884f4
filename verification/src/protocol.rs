//! The replication protocol between clients and the authority: the three
//! request envelopes, the confirmation event, and the translation of
//! identities from a connection's local namespace into the shared one.

use vstd::prelude::*;

use crate::geometry::{Vec2, Vec3};
use crate::identity::IdentityMap;
use crate::orientation::Orientation;

verus! {

/// Asks the authority to create an object from a template at a pose.
/// The template reference is the UTF-8 path of the object's metadata in
/// the external metadata store.
#[derive(Clone, PartialEq, Eq, Debug)]
pub struct SpawnRequest {
    pub template_path: Vec<u8>,
    pub position: Vec2,
    pub rotation: Orientation,
}

/// Specification-level image of a `SpawnRequest`.
pub struct SpawnModel {
    pub template_path: Seq<u8>,
    pub position: Vec2,
    pub rotation: Orientation,
}

impl View for SpawnRequest {
    type V = SpawnModel;

    open spec fn view(&self) -> SpawnModel {
        SpawnModel {
            template_path: self.template_path@,
            position: self.position,
            rotation: self.rotation,
        }
    }
}

/// Asks the authority to move an existing object to a new pose.
#[derive(Clone, Copy, PartialEq, Eq, Structural, Debug)]
pub struct MoveRequest {
    pub object: u64,
    pub translation: Vec3,
    pub rotation: Orientation,
}

/// Asks the authority to remove an existing object.
#[derive(Clone, Copy, PartialEq, Eq, Structural, Debug)]
pub struct DespawnRequest {
    pub object: u64,
}

/// A client-to-authority request.
#[derive(Clone, PartialEq, Eq, Debug)]
pub enum Request {
    Spawn(SpawnRequest),
    Move(MoveRequest),
    Despawn(DespawnRequest),
}

/// Specification-level image of a `Request`.
pub enum RequestModel {
    Spawn(SpawnModel),
    Move(MoveRequest),
    Despawn(DespawnRequest),
}

impl View for Request {
    type V = RequestModel;

    open spec fn view(&self) -> RequestModel {
        match self {
            Request::Spawn(s) => RequestModel::Spawn(s@),
            Request::Move(m) => RequestModel::Move(*m),
            Request::Despawn(d) => RequestModel::Despawn(*d),
        }
    }
}

/// The single authority-to-client event: the requested mutation was
/// applied. It is unicast to the requesting client only.
#[derive(Clone, Copy, PartialEq, Eq, Structural, Debug)]
pub struct Confirmation {
    pub client: u64,
}

/// A request referenced an identity with no entry in the connection's
/// translation table; the request must be rejected, never applied to an
/// unintended object.
#[derive(Clone, Copy, PartialEq, Eq, Structural, Debug)]
pub struct UnmappedIdentity {
    pub object: u64,
}

/// Edge-triggered disconnect detection for the client side of the
/// channel: reports the tick on which an established connection is first
/// observed gone. It takes whether the previous tick saw a live
/// connection and whether the transport now reports itself disconnected
/// (a missing transport counts as disconnected), and returns the edge
/// together with the connectedness to carry to the next tick.
pub fn client_just_diconnected(last_connected: bool, disconnected: bool) -> (r: (bool, bool))
    ensures
        r.0 == (last_connected && disconnected),
        r.1 == !disconnected,
{
    (last_connected && disconnected, !disconnected)
}

/// Rewrites a client request into the shared identity namespace through
/// the connection's translation table. Spawns carry no identity and pass
/// through; moves and despawns of an unmapped identity are rejected.
pub fn translate_request(map: &IdentityMap, request: Request) -> (r: Result<
    Request,
    UnmappedIdentity,
>)
    requires
        map.wf(),
    ensures
        match request@ {
            RequestModel::Spawn(_) => r matches Ok(t) && t@ == request@,
            RequestModel::Move(m) => {
                if map@.dom().contains(m.object) {
                    r matches Ok(t) && t@ == RequestModel::Move(
                        MoveRequest {
                            object: map@[m.object],
                            translation: m.translation,
                            rotation: m.rotation,
                        },
                    )
                } else {
                    r == Err::<Request, UnmappedIdentity>(UnmappedIdentity { object: m.object })
                }
            },
            RequestModel::Despawn(d) => {
                if map@.dom().contains(d.object) {
                    r matches Ok(t) && t@ == RequestModel::Despawn(
                        DespawnRequest { object: map@[d.object] },
                    )
                } else {
                    r == Err::<Request, UnmappedIdentity>(UnmappedIdentity { object: d.object })
                }
            },
        },
{
    match request {
        Request::Spawn(s) => Ok(Request::Spawn(s)),
        Request::Move(m) => match map.to_shared(m.object) {
            Some(shared) => Ok(
                Request::Move(
                    MoveRequest {
                        object: shared,
                        translation: m.translation,
                        rotation: m.rotation,
                    },
                ),
            ),
            None => Err(UnmappedIdentity { object: m.object }),
        },
        Request::Despawn(d) => match map.to_shared(d.object) {
            Some(shared) => Ok(Request::Despawn(DespawnRequest { object: shared })),
            None => Err(UnmappedIdentity { object: d.object }),
        },
    }
}

} // verus!
