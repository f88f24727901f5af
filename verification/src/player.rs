//! A connected player as the world keeps it.

use crate::effect::{effect_views, effects_wf, sends, Effect, EffectView, Warning};
use crate::packet;
use crate::packet::{level_transfer_wire, packet_bytes, spawn_player_wire};
use crate::persist::PersistError;
use crate::world::World;
use vstd::prelude::*;
use vstd::slice::slice_to_vec;

verus! {

/// Where a player stands when it joins.
pub const SPAWN_X: u16 = 32;

/// Height of the spawn point.
pub const SPAWN_Y: u16 = 32;

/// Depth of the spawn point.
pub const SPAWN_Z: u16 = 32;

/// One connected client. `id` names the connection that the player's
/// messages are written to.
#[derive(Clone, Debug, PartialEq, Eq)]
pub struct Player {
    pub id: u32,
    pub name: String,
    pub x: u16,
    pub y: u16,
    pub z: u16,
    pub yaw: u8,
    pub pitch: u8,
}

/// A player as a value.
#[verifier::ext_equal]
pub struct PlayerView {
    pub id: u32,
    pub name: Seq<char>,
    pub x: u16,
    pub y: u16,
    pub z: u16,
    pub yaw: u8,
    pub pitch: u8,
}

impl View for Player {
    type V = PlayerView;

    open spec fn view(&self) -> PlayerView {
        PlayerView {
            id: self.id,
            name: self.name@,
            x: self.x,
            y: self.y,
            z: self.z,
            yaw: self.yaw,
            pitch: self.pitch,
        }
    }
}

/// The player that joins under `id` and `name`: at the spawn point, looking
/// straight ahead.
pub open spec fn spawned(id: u32, name: Seq<char>) -> PlayerView {
    PlayerView { id, name, x: SPAWN_X, y: SPAWN_Y, z: SPAWN_Z, yaw: 0, pitch: 0 }
}

/// The low byte of a player id: the id as messages carry it.
pub open spec fn wire_id(id: u32) -> u8 {
    (id % 256) as u8
}

/// The message that describes a player to others.
pub open spec fn spawn_of(p: PlayerView) -> Seq<u8> {
    spawn_player_wire(wire_id(p.id), p.name, p.x, p.y, p.z, p.yaw, p.pitch)
}

/// A compressed level, where there is one.
pub open spec fn level_view(level: Result<Vec<u8>, PersistError>) -> Option<Seq<u8>> {
    match level {
        Ok(blob) => Some(blob@),
        Err(_) => None,
    }
}

/// What the transfer of a level to player `to` asks for: the messages of
/// the transfer, or a warning where there is no compressed level.
pub open spec fn level_effects(
    to: u32,
    level: Option<Seq<u8>>,
    size_x: nat,
    size_y: nat,
    size_z: nat,
) -> Seq<EffectView> {
    match level {
        Some(blob) => sends(to, level_transfer_wire(blob, size_x, size_y, size_z)),
        None => seq![EffectView::Warn { warning: Warning::LevelUnavailable { to } }],
    }
}

/// The id as messages carry it.
pub fn id_byte(id: u32) -> (b: u8)
    ensures
        b == wire_id(id),
{
    let b: u8 = (id & 0xff) as u8;
    assert(b == id % 256) by (bit_vector)
        requires
            b == (id & 0xff) as u8,
    ;
    b
}

impl Player {
    /// The player that joins under `id` and `name`.
    pub fn new(id: u32, name: String) -> (p: Player)
        ensures
            p@ == spawned(id, name@),
    {
        Player { id, name, x: SPAWN_X, y: SPAWN_Y, z: SPAWN_Z, yaw: 0, pitch: 0 }
    }

    /// `data` for this player's connection.
    pub fn send(&self, data: &[u8]) -> (effect: Effect)
        ensures
            effect@ == (EffectView::Send { to: self.id, data: data@ }),
            effect.wf(),
    {
        Effect::Send { to: self.id, data: slice_to_vec(data) }
    }

    /// The message that describes this player to others.
    pub fn spawn_packet(&self) -> (packet: Vec<u8>)
        ensures
            packet@ == spawn_of(self@),
    {
        packet::spawn_player_packet(
            id_byte(self.id),
            &self.name,
            self.x,
            self.y,
            self.z,
            self.yaw,
            self.pitch,
        )
    }

    /// The transfer of `level`, the compressed grid of a world of the given
    /// dimensions, to this player. Without a compressed level nothing is
    /// sent and the fault is reported.
    pub fn send_level(
        &self,
        level: Result<Vec<u8>, PersistError>,
        size_x: usize,
        size_y: usize,
        size_z: usize,
    ) -> (effects: Vec<Effect>)
        ensures
            effect_views(effects@) == level_effects(
                self.id,
                level_view(level),
                size_x as nat,
                size_y as nat,
                size_z as nat,
            ),
            effects_wf(effects@),
    {
        let mut effects: Vec<Effect> = Vec::new();
        match level {
            Ok(blob) => {
                let packets = packet::level_transfer(blob.as_slice(), size_x, size_y, size_z);
                let mut i: usize = 0;
                while i < packets.len()
                    invariant
                        i <= packets.len(),
                        effects.len() == i,
                        effects_wf(effects@),
                        forall|k: int|
                            0 <= k < i ==> (#[trigger] effects[k])@ == (EffectView::Send {
                                to: self.id,
                                data: packets[k]@,
                            }),
                    decreases packets.len() - i,
                {
                    effects.push(self.send(packets[i].as_slice()));
                    i = i + 1;
                }
                assert(effect_views(effects@) =~= sends(self.id, packet_bytes(packets@)));
            },
            Err(_) => {
                effects.push(Effect::Warn { warning: Warning::LevelUnavailable { to: self.id } });
                assert(effect_views(effects@) =~= level_effects(
                    self.id,
                    level_view(level),
                    size_x as nat,
                    size_y as nat,
                    size_z as nat,
                ));
            },
        }
        effects
    }

    /// The transfer of the world's grid to this player: the messages of the
    /// transfer for the compressed grid, or a warning where the compressor
    /// gives none.
    pub fn send_world(&self, world: &World) -> (effects: Vec<Effect>)
        ensures
            effect_views(effects@) == level_effects(
                self.id,
                world@.level(),
                world@.size_x,
                world@.size_y,
                world@.size_z,
            ),
            effects_wf(effects@),
    {
        let level = world.to_gzip();
        self.send_level(level, world.size_x, world.size_y, world.size_z)
    }
}

} // verus!
