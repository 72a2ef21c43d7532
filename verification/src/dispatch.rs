//! Getting a battle packet to everyone who needs it.
use crate::mesh;
use crate::mesh::{DirectSend, Mesh};
use crate::mesh_laws;
use crate::packet;
use crate::peers::MAX_PLAYERS;
use vstd::prelude::*;

verus! {

/// The type of a battle packet.
pub const PACKET_BATTLE: u8 = 0x6b;

/// What the game's network manager is when we host.
pub const HOST_MANAGER: usize = 0x858cac;

/// What the game's network manager is when we joined.
pub const CLIENT_MANAGER: usize = 0x858d14;

/// Which end of the game's own connection we are.
#[derive(Clone, Copy, Debug, PartialEq, Eq, Structural)]
pub enum Role {
    Host,
    Client,
}

impl Role {
    /// The flag that a packet is stamped with.
    pub open spec fn flag(self) -> u8 {
        match self {
            Role::Host => 1,
            Role::Client => 2,
        }
    }
}

/// Which end we are, by what the network manager is. There is no other kind of
/// manager that can send.
pub fn role_of(manager: usize) -> (r: Option<Role>)
    ensures
        r == (if manager == HOST_MANAGER {
            Some(Role::Host)
        } else if manager == CLIENT_MANAGER {
            Some(Role::Client)
        } else {
            None
        }),
        r == Some(Role::Host) <==> manager == 0x858cac,
        r == Some(Role::Client) <==> manager == 0x858d14,
{
    if manager == HOST_MANAGER {
        Some(Role::Host)
    } else if manager == CLIENT_MANAGER {
        Some(Role::Client)
    } else {
        None
    }
}

/// A packet, and where it goes.
pub struct Dispatch {
    /// The bytes.
    pub data: Vec<u8>,
    /// The peers it goes to directly.
    pub direct: Vec<[u8; 16]>,
    /// The relay carries a copy.
    pub relay: bool,
}

/// Stamps a battle packet and says where it goes.
///
/// Straight to the peers that answered a hole punch, and, unless every peer is
/// reachable that way, to the relay, for whichever pair could not be punched.
/// Peers already reached directly get that packet twice and discard the repeat.
pub fn send_packet(mesh: &Mesh, data: Vec<u8>, role: Role) -> (r: Dispatch)
    requires
        data@.len() >= 2,
    ensures
        r.data@ == packet::stamped(data@, PACKET_BATTLE, role.flag()),
        r.relay == !(mesh.enabled && mesh.local_slot is Some && mesh::all_direct(
            mesh.peers@,
            mesh.local_slot->0,
        )),
        r.direct@ == (if mesh.enabled && mesh.local_slot is Some {
            mesh::direct_routes(mesh.peers@, mesh.local_slot->0, MAX_PLAYERS as int)
        } else {
            seq![]
        }),
        r.data@.len() == data@.len(),
        r.data@[0] == 0x6b,
        role == Role::Host ==> r.data@[1] == 1,
        role == Role::Client ==> r.data@[1] == 2,
        forall|i: int| 2 <= i < data@.len() ==> r.data@[i] == data@[i],
{
    let mut data: Vec<u8> = data;
    data[0] = PACKET_BATTLE;
    data[1] = match role {
        Role::Host => 1,
        Role::Client => 2,
    };
    let sent: DirectSend = mesh.send_to_peers();
    let r = Dispatch { data, direct: sent.to, relay: !sent.all };
    assert(!mesh.enabled || mesh.local_slot is None ==> r.direct@ =~= seq![]);
    r
}

/// Every peer in the match gets the packet, directly or from the relay, and the
/// relay is spared only when each of them gets it directly.
pub proof fn packets_reach_everyone(mesh: Mesh, slot: int)
    requires
        0 <= slot < MAX_PLAYERS,
        !mesh::ours(mesh.local_slot, slot),
        mesh.peers@[slot].expected(),
    ensures
        ({
            let on = mesh.enabled && mesh.local_slot is Some;
            let relay = !(on && mesh::all_direct(mesh.peers@, mesh.local_slot->0));
            ||| relay
            ||| mesh.peers@[slot].direct() && mesh::direct_routes(
                mesh.peers@,
                mesh.local_slot->0,
                MAX_PLAYERS as int,
            ).contains(mesh.peers@[slot].confirmed->0)
        }),
{
    if mesh.enabled && mesh.local_slot is Some {
        mesh_laws::every_peer_is_fed(mesh.peers@, mesh.local_slot->0, slot);
    }
}

} // verus!
