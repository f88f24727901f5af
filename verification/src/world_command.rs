//! The commands that change the world, and what handling each one does to
//! the world and asks of the program around it.

use crate::effect::{effect_views, effects_wf, Effect, EffectView, Warning};
use crate::packet;
use crate::packet::{
    despawn_player_wire, message_wire, server_identification_wire, teleport_player_wire, SELF_ID,
};
use crate::persist::PersistError;
use crate::player::{
    id_byte, level_effects, level_view, spawn_of, spawned, wire_id, Player, PlayerView, SPAWN_X,
    SPAWN_Y, SPAWN_Z,
};
use crate::text;
use crate::text::{joined_line, left_line, said_line, trimmed};
use crate::walk::{is_walk, walk_of};
use crate::world::{edit_wire, lemma_set_block_then_read, World, WorldView};
use vstd::prelude::*;

verus! {

broadcast use vstd::std_specs::hash::group_hash_axioms;

/// One event that changes the world. Every change goes through one of
/// these.
#[derive(Clone, Debug, PartialEq, Eq)]
#[allow(inconsistent_fields)]
pub enum WorldCommand {
    AddPlayer { player_id: u32, name: String },
    SetBlock { x: usize, y: usize, z: usize, value: u8, mode: u8 },
    MovePlayer { player_id: u32, x: u16, y: u16, z: u16, yaw: u8, pitch: u8 },
    RemovePlayer { player_id: u32 },
    PlayerMessage { player_id: u32, message: String },
    SystemMessage { message: String },
    Save,
}

/// A command as a value.
#[verifier::ext_equal]
#[allow(inconsistent_fields)]
pub enum CommandView {
    AddPlayer { player_id: u32, name: Seq<char> },
    SetBlock { x: usize, y: usize, z: usize, value: u8, mode: u8 },
    MovePlayer { player_id: u32, x: u16, y: u16, z: u16, yaw: u8, pitch: u8 },
    RemovePlayer { player_id: u32 },
    PlayerMessage { player_id: u32, message: Seq<char> },
    SystemMessage { message: Seq<char> },
    Save,
}

impl View for WorldCommand {
    type V = CommandView;

    open spec fn view(&self) -> CommandView {
        match *self {
            WorldCommand::AddPlayer { player_id, name } => CommandView::AddPlayer {
                player_id,
                name: name@,
            },
            WorldCommand::SetBlock { x, y, z, value, mode } => CommandView::SetBlock {
                x,
                y,
                z,
                value,
                mode,
            },
            WorldCommand::MovePlayer { player_id, x, y, z, yaw, pitch } => CommandView::MovePlayer {
                player_id,
                x,
                y,
                z,
                yaw,
                pitch,
            },
            WorldCommand::RemovePlayer { player_id } => CommandView::RemovePlayer { player_id },
            WorldCommand::PlayerMessage { player_id, message } => CommandView::PlayerMessage {
                player_id,
                message: message@,
            },
            WorldCommand::SystemMessage { message } => CommandView::SystemMessage {
                message: message@,
            },
            WorldCommand::Save => CommandView::Save,
        }
    }
}

/// The block that an edit writes: the given one when placing, air when
/// breaking.
pub open spec fn edit_value(value: u8, mode: u8) -> u8 {
    if mode != 0 {
        value
    } else {
        0
    }
}

impl WorldView {
    /// The world after a player joined under `id` with the name `name` as
    /// the client sent it.
    pub open spec fn add_player(self, id: u32, name: Seq<char>) -> WorldView {
        WorldView { players: self.players.insert(id, spawned(id, trimmed(name))), ..self }
    }

    /// For the player `to`, one message for each registered player of
    /// `order`, describing it, in that order.
    pub open spec fn roster(self, to: u32, order: Seq<u32>) -> Seq<EffectView>
        decreases order.len(),
    {
        if order.len() == 0 {
            seq![]
        } else {
            self.roster(to, order.drop_last()) + if self.players.contains_key(order.last()) {
                seq![EffectView::Send { to, data: spawn_of(self.players[order.last()]) }]
            } else {
                seq![]
            }
        }
    }

    /// What a join asks for, in order: the server's identification and the
    /// level for the new player; the players already there, described to
    /// the new one in the order `order`; the new player, described to
    /// everybody, itself included; the new player's own position; the
    /// line that announces it.
    pub open spec fn add_player_effects(
        self,
        id: u32,
        name: Seq<char>,
        level: Option<Seq<u8>>,
        order: Seq<u32>,
    ) -> Seq<EffectView> {
        let after = self.add_player(id, name);
        seq![EffectView::Send { to: id, data: server_identification_wire() }] + level_effects(
            id,
            level,
            self.size_x,
            self.size_y,
            self.size_z,
        ) + self.roster(id, order) + seq![
            after.broadcast(spawn_of(spawned(id, trimmed(name)))),
            EffectView::Send {
                to: id,
                data: teleport_player_wire(SELF_ID, SPAWN_X, SPAWN_Y, SPAWN_Z, 0, 0),
            },
        ] + after.chat(joined_line(trimmed(name)))
    }

    /// The world after a move: the player stands where the command says.
    /// A move of nobody changes nothing.
    pub open spec fn move_player(
        self,
        id: u32,
        x: u16,
        y: u16,
        z: u16,
        yaw: u8,
        pitch: u8,
    ) -> WorldView {
        if self.players.contains_key(id) {
            WorldView {
                players: self.players.insert(
                    id,
                    PlayerView { x, y, z, yaw, pitch, ..self.players[id] },
                ),
                ..self
            }
        } else {
            self
        }
    }

    /// What a move asks for: the new position for everybody, the mover
    /// included; nothing for a move of nobody.
    pub open spec fn move_player_effects(
        self,
        id: u32,
        x: u16,
        y: u16,
        z: u16,
        yaw: u8,
        pitch: u8,
    ) -> Seq<EffectView> {
        if self.players.contains_key(id) {
            seq![self.broadcast(teleport_player_wire(wire_id(id), x, y, z, yaw, pitch))]
        } else {
            seq![]
        }
    }

    /// The world without the player `id`.
    pub open spec fn remove_player(self, id: u32) -> WorldView {
        WorldView { players: self.players.remove(id), ..self }
    }

    /// What a removal asks for: for a player that is there, the line that
    /// announces it, to everybody before it leaves; then, in any case, the
    /// despawn for those who remain.
    pub open spec fn remove_player_effects(self, id: u32) -> Seq<EffectView> {
        let farewell = if self.players.contains_key(id) {
            self.chat(left_line(self.players[id].name))
        } else {
            seq![]
        };
        farewell + seq![self.remove_player(id).broadcast(despawn_player_wire(wire_id(id)))]
    }

    /// What a player's chat message asks for: the line for everybody, or
    /// nothing where the sender is not there.
    pub open spec fn player_message_effects(self, id: u32, message: Seq<char>) -> Seq<
        EffectView,
    > {
        if self.players.contains_key(id) {
            self.chat(said_line(self.players[id].name, message))
        } else {
            seq![]
        }
    }

    /// What a save asks for: the compressed grid for the world file, or a
    /// warning where there is none.
    pub open spec fn save_effects_of(level: Option<Seq<u8>>) -> Seq<EffectView> {
        match level {
            Some(blob) => seq![EffectView::Persist { data: blob }],
            None => seq![EffectView::Warn { warning: Warning::SaveFailed }],
        }
    }

    /// The world after `command`.
    pub open spec fn after(self, command: CommandView) -> WorldView {
        match command {
            CommandView::AddPlayer { player_id, name } => self.add_player(player_id, name),
            CommandView::SetBlock { x, y, z, value, mode } => self.with_block(
                x as nat,
                y as nat,
                z as nat,
                edit_value(value, mode),
            ),
            CommandView::MovePlayer { player_id, x, y, z, yaw, pitch } => self.move_player(
                player_id,
                x,
                y,
                z,
                yaw,
                pitch,
            ),
            CommandView::RemovePlayer { player_id } => self.remove_player(player_id),
            _ => self,
        }
    }

    /// What `command` asks for, where `level` is the compressed grid, if
    /// any, and the registry was walked in the order `order`.
    pub open spec fn effects_of(
        self,
        command: CommandView,
        level: Option<Seq<u8>>,
        order: Seq<u32>,
    ) -> Seq<EffectView> {
        match command {
            CommandView::AddPlayer { player_id, name } => self.add_player_effects(
                player_id,
                name,
                level,
                order,
            ),
            CommandView::SetBlock { x, y, z, value, mode } => self.set_block_effects(
                x,
                y,
                z,
                edit_value(value, mode),
                true,
            ),
            CommandView::MovePlayer { player_id, x, y, z, yaw, pitch } => self.move_player_effects(
                player_id,
                x,
                y,
                z,
                yaw,
                pitch,
            ),
            CommandView::RemovePlayer { player_id } => self.remove_player_effects(player_id),
            CommandView::PlayerMessage { player_id, message } => self.player_message_effects(
                player_id,
                message,
            ),
            CommandView::SystemMessage { message } => self.chat(message),
            CommandView::Save => Self::save_effects_of(level),
        }
    }
}

impl World {
    /// For the player `to`, one message for each registered player of
    /// `order`, describing it, in that order.
    pub fn roster(&self, to: &Player, order: &Vec<u32>) -> (effects: Vec<Effect>)
        ensures
            effect_views(effects@) == self@.roster(to.id, order@),
            effects_wf(effects@),
    {
        let mut effects: Vec<Effect> = Vec::new();
        let mut i: usize = 0;
        assert(effect_views(effects@) =~= self@.roster(to.id, order@.take(0)));
        while i < order.len()
            invariant
                i <= order.len(),
                effects_wf(effects@),
                effect_views(effects@) == self@.roster(to.id, order@.take(i as int)),
            decreases order.len() - i,
        {
            let ghost before = effects@;
            assert(order@.take(i + 1).drop_last() =~= order@.take(i as int));
            match self.players.get(&order[i]) {
                Some(other) => {
                    let described = other.spawn_packet();
                    effects.push(to.send(described.as_slice()));
                    assert(effect_views(effects@) =~= effect_views(before) + seq![
                        EffectView::Send { to: to.id, data: spawn_of(self@.players[order[i as int]]) },
                    ]);
                },
                None => {
                    assert(effect_views(effects@) =~= effect_views(before) + Seq::<
                        EffectView,
                    >::empty());
                },
            }
            i = i + 1;
        }
        assert(order@.take(order.len() as int) =~= order@);
        effects
    }
}

impl World {
    /// Handles a join where the compressor gave `level` for the grid and
    /// the registry, before the join, was walked in the order `order`.
    pub fn admit_player(
        &mut self,
        player_id: u32,
        name: String,
        level: Result<Vec<u8>, PersistError>,
        order: Vec<u32>,
    ) -> (effects: Vec<Effect>)
        requires
            old(self).wf(),
        ensures
            final(self).wf(),
            final(self)@ == old(self)@.add_player(player_id, name@),
            effect_views(effects@) == old(self)@.add_player_effects(
                player_id,
                name@,
                level_view(level),
                order@,
            ),
            effects_wf(effects@),
    {
        let player = Player::new(player_id, text::trim(name.as_str()));
        let mut effects: Vec<Effect> = Vec::new();
        let identification = packet::server_identification_packet();
        effects.push(player.send(identification.as_slice()));
        let mut transfer = player.send_level(level, self.size_x, self.size_y, self.size_z);
        effects.append(&mut transfer);
        let mut others = self.roster(&player, &order);
        effects.append(&mut others);
        let described = player.spawn_packet();
        let line = text::joined(&player.name);
        let ghost joined = player@;
        self.players.insert(player_id, player);
        assert(self@ =~= old(self)@.add_player(player_id, name@)) by {
            assert(self@.players =~= old(self)@.players.insert(player_id, joined));
        }
        effects.push(self.broadcast(described.as_slice()));
        let position = packet::teleport_player_packet(SELF_ID, SPAWN_X, SPAWN_Y, SPAWN_Z, 0, 0);
        effects.push(Effect::Send { to: player_id, data: position });
        let mut chat = self.broadcast_message(&line);
        effects.append(&mut chat);
        assert(effect_views(effects@) =~= old(self)@.add_player_effects(
            player_id,
            name@,
            level_view(level),
            order@,
        ));
        effects
    }

    /// Handles a join: the new player is registered under `player_id` with
    /// its trimmed name and is sent the compressed grid; old and new
    /// players learn of each other. The registry decides in which order the
    /// others are described.
    pub fn handle_add_player(&mut self, player_id: u32, name: String) -> (effects: Vec<Effect>)
        requires
            old(self).wf(),
        ensures
            final(self).wf(),
            final(self)@ == old(self)@.add_player(player_id, name@),
            effects_wf(effects@),
            exists|order: Seq<u32>|
                #![trigger is_walk(order, old(self)@.ids())]
                is_walk(order, old(self)@.ids()) && effect_views(effects@) == old(
                    self,
                )@.add_player_effects(player_id, name@, old(self)@.level(), order),
    {
        let level = self.to_gzip();
        let order = self.player_ids();
        let ghost level_seen = level_view(level);
        let ghost order_seen = order@;
        assert(level_seen == self@.level());
        let effects = self.admit_player(player_id, name, level, order);
        assert(is_walk(order_seen, old(self)@.ids()));
        effects
    }

    /// Handles a block edit from a player: places `value`, or breaks the
    /// block where `mode` is zero, and tells every player.
    pub fn handle_set_block(&mut self, x: usize, y: usize, z: usize, value: u8, mode: u8) -> (effects:
        Vec<Effect>)
        requires
            old(self).wf(),
        ensures
            final(self).wf(),
            final(self)@ == old(self)@.with_block(
                x as nat,
                y as nat,
                z as nat,
                edit_value(value, mode),
            ),
            effect_views(effects@) == old(self)@.set_block_effects(
                x,
                y,
                z,
                edit_value(value, mode),
                true,
            ),
            effects_wf(effects@),
    {
        let block_value: u8 = if mode != 0 {
            value
        } else {
            0
        };
        self.set_block(x, y, z, block_value, Some(true))
    }

    /// Handles a move: a known player stands at the new position and
    /// everybody is told; a move of an unknown player is ignored.
    pub fn handle_move_player(
        &mut self,
        player_id: u32,
        x: u16,
        y: u16,
        z: u16,
        yaw: u8,
        pitch: u8,
    ) -> (effects: Vec<Effect>)
        requires
            old(self).wf(),
        ensures
            final(self).wf(),
            final(self)@ == old(self)@.move_player(player_id, x, y, z, yaw, pitch),
            effect_views(effects@) == old(self)@.move_player_effects(
                player_id,
                x,
                y,
                z,
                yaw,
                pitch,
            ),
            effects_wf(effects@),
    {
        let mut effects: Vec<Effect> = Vec::new();
        match self.players.remove(&player_id) {
            Some(player) => {
                let mut player = player;
                player.x = x;
                player.y = y;
                player.z = z;
                player.yaw = yaw;
                player.pitch = pitch;
                let ghost moved = player@;
                self.players.insert(player_id, player);
                assert(self@ =~= old(self)@.move_player(player_id, x, y, z, yaw, pitch)) by {
                    assert(self@.players =~= old(self)@.players.insert(player_id, moved));
                }
                let position = packet::teleport_player_packet(
                    id_byte(player_id),
                    x,
                    y,
                    z,
                    yaw,
                    pitch,
                );
                effects.push(self.broadcast(position.as_slice()));
                assert(self@.ids() =~= old(self)@.ids());
            },
            None => {
                assert(self@ =~= old(self)@);
            },
        }
        assert(effect_views(effects@) =~= old(self)@.move_player_effects(
            player_id,
            x,
            y,
            z,
            yaw,
            pitch,
        ));
        effects
    }

    /// Handles a removal: a known player is announced as leaving and taken
    /// out of the registry; those who remain are told to despawn the id,
    /// whether it was known or not.
    pub fn handle_remove_player(&mut self, player_id: u32) -> (effects: Vec<Effect>)
        requires
            old(self).wf(),
        ensures
            final(self).wf(),
            final(self)@ == old(self)@.remove_player(player_id),
            effect_views(effects@) == old(self)@.remove_player_effects(player_id),
            effects_wf(effects@),
    {
        let mut effects: Vec<Effect> = Vec::new();
        match self.players.get(&player_id) {
            Some(player) => {
                let line = text::left(&player.name);
                let mut chat = self.broadcast_message(&line);
                effects.append(&mut chat);
            },
            None => {},
        }
        let _ = self.players.remove(&player_id);
        assert(self@ =~= old(self)@.remove_player(player_id)) by {
            assert(self@.players =~= old(self)@.players.remove(player_id));
        }
        let despawn = packet::despawn_player_packet(id_byte(player_id));
        effects.push(self.broadcast(despawn.as_slice()));
        assert(effect_views(effects@) =~= old(self)@.remove_player_effects(player_id));
        effects
    }

    /// Handles what a player said: the line for everybody where the sender
    /// is known, nothing where it is not.
    pub fn handle_player_message(&self, player_id: u32, message: String) -> (effects: Vec<Effect>)
        ensures
            effect_views(effects@) == self@.player_message_effects(player_id, message@),
            effects_wf(effects@),
    {
        match self.players.get(&player_id) {
            Some(player) => {
                let line = text::said(&player.name, &message);
                self.broadcast_message(&line)
            },
            None => {
                let effects: Vec<Effect> = Vec::new();
                assert(effect_views(effects@) =~= self@.player_message_effects(
                    player_id,
                    message@,
                ));
                effects
            },
        }
    }

    /// Handles a line from the server itself: the line for everybody.
    pub fn handle_system_message(&self, message: String) -> (effects: Vec<Effect>)
        ensures
            effect_views(effects@) == self@.chat(message@),
            effects_wf(effects@),
    {
        self.broadcast_message(&message)
    }

    /// What a save asks for, for each outcome of the compressor.
    pub fn persist(level: Result<Vec<u8>, PersistError>) -> (effects: Vec<Effect>)
        ensures
            effect_views(effects@) == WorldView::save_effects_of(level_view(level)),
            effects_wf(effects@),
    {
        let mut effects: Vec<Effect> = Vec::new();
        match level {
            Ok(blob) => {
                effects.push(Effect::Persist { data: blob });
            },
            Err(_) => {
                effects.push(Effect::Warn { warning: Warning::SaveFailed });
            },
        }
        assert(effect_views(effects@) =~= WorldView::save_effects_of(level_view(level)));
        effects
    }

    /// Handles a save: the compressed grid for the world file; where the
    /// compressor gives none, nothing is written and the fault is reported.
    pub fn handle_save(&self) -> (effects: Vec<Effect>)
        ensures
            effect_views(effects@) == WorldView::save_effects_of(self@.level()),
            effects_wf(effects@),
    {
        let level = self.save();
        World::persist(level)
    }
}

impl World {
    /// Handles one command. The registry decides in which order a join
    /// describes the players already there; all else is fixed by the world
    /// and the command.
    pub fn handle_command(&mut self, command: WorldCommand) -> (effects: Vec<Effect>)
        requires
            old(self).wf(),
        ensures
            final(self).wf(),
            final(self)@ == old(self)@.after(command@),
            effects_wf(effects@),
            exists|order: Seq<u32>|
                #![trigger is_walk(order, old(self)@.ids())]
                is_walk(order, old(self)@.ids()) && effect_views(effects@) == old(
                    self,
                )@.effects_of(command@, old(self)@.level(), order),
    {
        let ghost before = self@;
        let ghost any_order = walk_of(before.ids());
        match command {
            WorldCommand::AddPlayer { player_id, name } => self.handle_add_player(
                player_id,
                name,
            ),
            WorldCommand::SetBlock { x, y, z, value, mode } => {
                let effects = self.handle_set_block(x, y, z, value, mode);
                assert(is_walk(any_order, before.ids()) && effect_views(effects@)
                    == before.effects_of(command@, before.level(), any_order));
                effects
            },
            WorldCommand::MovePlayer { player_id, x, y, z, yaw, pitch } => {
                let effects = self.handle_move_player(player_id, x, y, z, yaw, pitch);
                assert(is_walk(any_order, before.ids()) && effect_views(effects@)
                    == before.effects_of(command@, before.level(), any_order));
                effects
            },
            WorldCommand::RemovePlayer { player_id } => {
                let effects = self.handle_remove_player(player_id);
                assert(is_walk(any_order, before.ids()) && effect_views(effects@)
                    == before.effects_of(command@, before.level(), any_order));
                effects
            },
            WorldCommand::PlayerMessage { player_id, message } => {
                let effects = self.handle_player_message(player_id, message);
                assert(is_walk(any_order, before.ids()) && effect_views(effects@)
                    == before.effects_of(command@, before.level(), any_order));
                effects
            },
            WorldCommand::SystemMessage { message } => {
                let effects = self.handle_system_message(message);
                assert(is_walk(any_order, before.ids()) && effect_views(effects@)
                    == before.effects_of(command@, before.level(), any_order));
                effects
            },
            WorldCommand::Save => {
                let effects = self.handle_save();
                assert(is_walk(any_order, before.ids()) && effect_views(effects@)
                    == before.effects_of(command@, before.level(), any_order));
                effects
            },
        }
    }
}

/// Walked in an order that lists only registered players, the roster holds
/// one message for each of them, in that order. Every walk of the registry
/// is such an order.
pub proof fn lemma_roster_of_registered(world: WorldView, to: u32, order: Seq<u32>)
    requires
        forall|i: int| 0 <= i < order.len() ==> world.players.contains_key(#[trigger] order[i]),
    ensures
        world.roster(to, order).len() == order.len(),
        forall|i: int|
            0 <= i < order.len() ==> #[trigger] world.roster(to, order)[i] == (EffectView::Send {
                to,
                data: spawn_of(world.players[order[i]]),
            }),
    decreases order.len(),
{
    if order.len() > 0 {
        lemma_roster_of_registered(world, to, order.drop_last());
    }
}

/// A join to a world without players: nobody is described to the new
/// player, whatever the walk, and the new player alone is told of itself.
pub proof fn lemma_first_join(
    world: WorldView,
    id: u32,
    name: Seq<char>,
    level: Option<Seq<u8>>,
    order: Seq<u32>,
)
    requires
        world.ids() == Set::<u32>::empty(),
        is_walk(order, world.ids()),
    ensures
        order == Seq::<u32>::empty(),
        world.add_player(id, name).ids() == set![id],
        world.add_player_effects(id, name, level, order) == seq![
            EffectView::Send { to: id, data: server_identification_wire() },
        ] + level_effects(id, level, world.size_x, world.size_y, world.size_z) + seq![
            EffectView::Broadcast {
                recipients: set![id],
                data: spawn_of(spawned(id, trimmed(name))),
            },
            EffectView::Send {
                to: id,
                data: teleport_player_wire(SELF_ID, SPAWN_X, SPAWN_Y, SPAWN_Z, 0, 0),
            },
            EffectView::Console { line: joined_line(trimmed(name)) },
            EffectView::Broadcast {
                recipients: set![id],
                data: message_wire(joined_line(trimmed(name))),
            },
        ],
{
    if order.len() > 0 {
        assert(order.to_set().contains(order[0]));
    }
    assert(order =~= Seq::<u32>::empty());
    assert(world.add_player(id, name).ids() =~= set![id]);
    assert(world.roster(id, order) =~= Seq::<EffectView>::empty());
    let ident = seq![EffectView::Send { to: id, data: server_identification_wire() }];
    let level_part = level_effects(id, level, world.size_x, world.size_y, world.size_z);
    assert(ident + level_part + world.roster(id, order) =~= ident + level_part);
}

/// Placing a block and then breaking it, inside the grid: the voxel holds
/// the block, then air, and each edit is told to the players by itself, in
/// its turn.
pub proof fn lemma_place_then_break(
    world: WorldView,
    x: usize,
    y: usize,
    z: usize,
    value: u8,
    mode: u8,
    level: Option<Seq<u8>>,
    order: Seq<u32>,
)
    requires
        world.wf(),
        world.in_bounds(x as nat, y as nat, z as nat),
        mode != 0,
    ensures
        ({
            let place = CommandView::SetBlock { x, y, z, value, mode };
            let break_it = CommandView::SetBlock { x, y, z, value, mode: 0 };
            let at = world.voxel_index(x as nat, y as nat, z as nat) as int;
            &&& world.after(place).data[at] == value
            &&& world.after(place).after(break_it).data[at] == 0
            &&& world.effects_of(place, level, order) == seq![
                world.broadcast(edit_wire(x, y, z, value)),
            ]
            &&& world.after(place).effects_of(break_it, level, order) == seq![
                world.broadcast(edit_wire(x, y, z, 0)),
            ]
        }),
{
    lemma_set_block_then_read(world, x as nat, y as nat, z as nat, value);
    let placed = world.with_block(x as nat, y as nat, z as nat, value);
    lemma_set_block_then_read(placed, x as nat, y as nat, z as nat, 0);
}

/// Two moves of one registered player are two messages: each move tells
/// everybody the position it carries, and the player stands where the
/// second one says.
pub proof fn lemma_moves_are_not_coalesced(
    world: WorldView,
    id: u32,
    first: (u16, u16, u16, u8, u8),
    second: (u16, u16, u16, u8, u8),
)
    requires
        world.players.contains_key(id),
    ensures
        ({
            let moved = world.move_player(id, first.0, first.1, first.2, first.3, first.4);
            let settled = moved.move_player(id, second.0, second.1, second.2, second.3, second.4);
            &&& world.move_player_effects(id, first.0, first.1, first.2, first.3, first.4) == seq![
                world.broadcast(
                    teleport_player_wire(wire_id(id), first.0, first.1, first.2, first.3, first.4),
                ),
            ]
            &&& moved.move_player_effects(id, second.0, second.1, second.2, second.3, second.4)
                == seq![
                world.broadcast(
                    teleport_player_wire(
                        wire_id(id),
                        second.0,
                        second.1,
                        second.2,
                        second.3,
                        second.4,
                    ),
                ),
            ]
            &&& settled.players[id] == (PlayerView {
                x: second.0,
                y: second.1,
                z: second.2,
                yaw: second.3,
                pitch: second.4,
                ..world.players[id]
            })
            &&& settled.ids() == world.ids()
        }),
{
    let moved = world.move_player(id, first.0, first.1, first.2, first.3, first.4);
    let settled = moved.move_player(id, second.0, second.1, second.2, second.3, second.4);
    assert(moved.ids() =~= world.ids());
    assert(settled.ids() =~= world.ids());
}

/// Removing a player twice is removing it once: after a removal the
/// registry does not hold the id, a second removal leaves the world as it
/// is, and all it asks for is the one despawn for those who remain.
pub proof fn lemma_remove_player_idempotent(world: WorldView, id: u32)
    ensures
        !world.remove_player(id).players.contains_key(id),
        world.remove_player(id).remove_player(id) == world.remove_player(id),
        world.remove_player(id).remove_player_effects(id) == seq![
            world.remove_player(id).broadcast(despawn_player_wire(wire_id(id))),
        ],
{
    let once = world.remove_player(id);
    assert(once.players.remove(id) =~= once.players);
    assert(once.remove_player(id) =~= once);
    assert(once.remove_player_effects(id) =~= seq![
        once.broadcast(despawn_player_wire(wire_id(id))),
    ]);
}

} // verus!
