//! The voxel grid and the registry of connected players.

use crate::effect::{effect_views, effects_wf, Effect, EffectView, Warning};
use crate::packet;
use crate::packet::{message_wire, set_block_wire};
use crate::persist;
use crate::persist::{decoded, encodes, framed, gunzip_of, gzip_of, unframed, PersistError};
use crate::player::{Player, PlayerView};
use crate::walk;
use std::collections::HashMap;
use vstd::prelude::*;
use vstd::slice::slice_to_vec;

verus! {

broadcast use vstd::std_specs::hash::group_hash_axioms;

/// The grid, one byte for each voxel, and the players by id.
pub struct World {
    pub size_x: usize,
    pub size_y: usize,
    pub size_z: usize,
    pub data: Vec<u8>,
    pub players: HashMap<u32, Player>,
}

/// A world as a value.
#[verifier::ext_equal]
pub struct WorldView {
    pub size_x: nat,
    pub size_y: nat,
    pub size_z: nat,
    pub data: Seq<u8>,
    pub players: Map<u32, PlayerView>,
}

impl View for World {
    type V = WorldView;

    open spec fn view(&self) -> WorldView {
        WorldView {
            size_x: self.size_x as nat,
            size_y: self.size_y as nat,
            size_z: self.size_z as nat,
            data: self.data@,
            players: self.players@.map_values(|p: Player| p@),
        }
    }
}

impl WorldView {
    /// Number of voxels of the grid.
    pub open spec fn volume(self) -> nat {
        self.size_x * self.size_y * self.size_z
    }

    /// True for the coordinates of a voxel of the grid.
    pub open spec fn in_bounds(self, x: nat, y: nat, z: nat) -> bool {
        x < self.size_x && y < self.size_y && z < self.size_z
    }

    /// Where the voxel `(x, y, z)` lies in `data`.
    pub open spec fn voxel_index(self, x: nat, y: nat, z: nat) -> nat {
        x + self.size_x * (z + self.size_z * y)
    }

    /// The grid holds one byte for each voxel, and each player is kept under
    /// its own id.
    pub open spec fn wf(self) -> bool {
        &&& self.data.len() == self.volume()
        &&& self.players.dom().finite()
        &&& forall|id: u32| self.players.contains_key(id) ==> (#[trigger] self.players[id]).id == id
    }

    /// The ids of the registered players.
    pub open spec fn ids(self) -> Set<u32> {
        self.players.dom()
    }

    /// `data` for every registered player.
    pub open spec fn broadcast(self, data: Seq<u8>) -> EffectView {
        EffectView::Broadcast { recipients: self.ids(), data }
    }

    /// A chat line: on the console, then as a message for every registered
    /// player.
    pub open spec fn chat(self, line: Seq<char>) -> Seq<EffectView> {
        seq![EffectView::Console { line }, self.broadcast(message_wire(line))]
    }

    /// The world after the voxel `(x, y, z)` is set to `value`: unchanged
    /// where the coordinates are outside the grid.
    pub open spec fn with_block(self, x: nat, y: nat, z: nat, value: u8) -> WorldView {
        if self.in_bounds(x, y, z) {
            WorldView { data: self.data.update(self.voxel_index(x, y, z) as int, value), ..self }
        } else {
            self
        }
    }

    /// What setting a block asks for: a warning where the coordinates are
    /// outside the grid; else, where `announce` is set, the edit for every
    /// player, with each coordinate as its low 16 bits.
    pub open spec fn set_block_effects(
        self,
        x: usize,
        y: usize,
        z: usize,
        value: u8,
        announce: bool,
    ) -> Seq<EffectView> {
        if !self.in_bounds(x as nat, y as nat, z as nat) {
            seq![EffectView::Warn { warning: Warning::OutOfBounds { x, y, z } }]
        } else if announce {
            seq![self.broadcast(edit_wire(x, y, z, value))]
        } else {
            seq![]
        }
    }

    /// The compressed grid, or nothing where the compressor gives none.
    pub open spec fn level(self) -> Option<Seq<u8>> {
        gzip_of(framed(self.data))
    }

    /// The world with `data` for its grid.
    pub open spec fn with_data(self, data: Seq<u8>) -> WorldView {
        WorldView { data, ..self }
    }
}

/// A block edit as players are told of it: each coordinate as its low 16
/// bits.
pub open spec fn edit_wire(x: usize, y: usize, z: usize, value: u8) -> Seq<u8> {
    set_block_wire((x % 0x10000) as u16, (y % 0x10000) as u16, (z % 0x10000) as u16, value)
}

/// Dimensions of the default grid.
pub const DEFAULT_SIZE_X: usize = 128;

pub const DEFAULT_SIZE_Y: usize = 64;

pub const DEFAULT_SIZE_Z: usize = 128;

/// The block that the ground is made of.
pub const GROUND_BLOCK: u8 = 2;

/// The default world: air over one layer of ground at `y == 0`, and nobody
/// in it.
pub open spec fn default_world() -> WorldView {
    WorldView {
        size_x: DEFAULT_SIZE_X as nat,
        size_y: DEFAULT_SIZE_Y as nat,
        size_z: DEFAULT_SIZE_Z as nat,
        data: Seq::new(
            (DEFAULT_SIZE_X * DEFAULT_SIZE_Y * DEFAULT_SIZE_Z) as nat,
            |i: int|
                if i < DEFAULT_SIZE_X * DEFAULT_SIZE_Z {
                    GROUND_BLOCK
                } else {
                    0u8
                },
        ),
        players: Map::empty(),
    }
}

/// A voxel inside the grid has its index inside the grid's bytes, and the
/// index can be computed without overflow.
proof fn lemma_voxel_index(sx: nat, sy: nat, sz: nat, x: nat, y: nat, z: nat)
    requires
        x < sx,
        y < sy,
        z < sz,
    ensures
        sz * y <= sz * sy <= sx * sy * sz,
        z + sz * y < sz * sy,
        sx * (z + sz * y) <= sx * sy * sz,
        x + sx * (z + sz * y) < sx * sy * sz,
{
    assert(sz * y + sz <= sz * sy) by (nonlinear_arith)
        requires
            y < sy,
    ;
    assert(sx * (z + sz * y) + sx <= sx * (sz * sy)) by (nonlinear_arith)
        requires
            z + sz * y + 1 <= sz * sy,
    ;
    assert(sx * (sz * sy) == sx * sy * sz) by (nonlinear_arith);
    assert(sz * sy <= sx * (sz * sy)) by (nonlinear_arith)
        requires
            1 <= sx,
    ;
}

impl World {
    /// The grid holds one byte for each voxel, and each player is kept under
    /// its own id.
    pub open spec fn wf(&self) -> bool {
        self@.wf()
    }

    /// The default world.
    pub fn new() -> (world: World)
        ensures
            world.wf(),
            world@ == default_world(),
    {
        let size_x: usize = DEFAULT_SIZE_X;
        let size_y: usize = DEFAULT_SIZE_Y;
        let size_z: usize = DEFAULT_SIZE_Z;
        let mut world = World {
            size_x,
            size_y,
            size_z,
            data: vec![0u8; size_x * size_y * size_z],
            players: HashMap::new(),
        };
        assert(world@.players =~= Map::<u32, PlayerView>::empty());
        let mut x: usize = 0;
        while x < size_x
            invariant
                size_x == DEFAULT_SIZE_X,
                size_y == DEFAULT_SIZE_Y,
                size_z == DEFAULT_SIZE_Z,
                x <= size_x,
                world.wf(),
                world.size_x == size_x,
                world.size_y == size_y,
                world.size_z == size_z,
                world@.players == Map::<u32, PlayerView>::empty(),
                forall|i: int|
                    0 <= i < world.data@.len() ==> #[trigger] world.data@[i] == if i < size_x
                        * size_z && i % (size_x as int) < x {
                        GROUND_BLOCK
                    } else {
                        0u8
                    },
            decreases size_x - x,
        {
            let mut z: usize = 0;
            while z < size_z
                invariant
                    size_x == DEFAULT_SIZE_X,
                    size_y == DEFAULT_SIZE_Y,
                    size_z == DEFAULT_SIZE_Z,
                    x < size_x,
                    z <= size_z,
                    world.wf(),
                    world.size_x == size_x,
                    world.size_y == size_y,
                    world.size_z == size_z,
                    world@.players == Map::<u32, PlayerView>::empty(),
                    forall|i: int|
                        0 <= i < world.data@.len() ==> #[trigger] world.data@[i] == if i < size_x
                            * size_z && (i % (size_x as int) < x || (i % (size_x as int) == x && i
                            / (size_x as int) < z)) {
                            GROUND_BLOCK
                        } else {
                            0u8
                        },
                decreases size_z - z,
            {
                let _ = world.set_block(x, 0, z, GROUND_BLOCK, Some(false));
                z = z + 1;
            }
            x = x + 1;
        }
        assert(world@ =~= default_world());
        world
    }

    /// Sets the voxel `(x, y, z)` to `value`. Coordinates outside the grid
    /// change nothing and are reported. With `send_update` set to
    /// `Some(true)` every player is told of the edit.
    pub fn set_block(
        &mut self,
        x: usize,
        y: usize,
        z: usize,
        value: u8,
        send_update: Option<bool>,
    ) -> (effects: Vec<Effect>)
        requires
            old(self).wf(),
        ensures
            final(self).wf(),
            final(self)@ == old(self)@.with_block(x as nat, y as nat, z as nat, value),
            old(self)@.in_bounds(x as nat, y as nat, z as nat) ==> final(self).data@[old(
                self,
            )@.voxel_index(x as nat, y as nat, z as nat) as int] == value,
            !old(self)@.in_bounds(x as nat, y as nat, z as nat) ==> final(self)@ == old(self)@,
            effect_views(effects@) == old(self)@.set_block_effects(
                x,
                y,
                z,
                value,
                send_update == Some(true),
            ),
            effects_wf(effects@),
    {
        let mut effects: Vec<Effect> = Vec::new();
        if x >= self.size_x || y >= self.size_y || z >= self.size_z {
            effects.push(Effect::Warn { warning: Warning::OutOfBounds { x, y, z } });
            assert(effect_views(effects@) =~= old(self)@.set_block_effects(
                x,
                y,
                z,
                value,
                send_update == Some(true),
            ));
            return effects;
        }
        proof {
            lemma_voxel_index(
                self.size_x as nat,
                self.size_y as nat,
                self.size_z as nat,
                x as nat,
                y as nat,
                z as nat,
            );
            assert(self@.volume() == self.data.len());
        }
        let index: usize = x + self.size_x * (z + self.size_z * y);
        self.data.set(index, value);
        assert(self@ =~= old(self)@.with_block(x as nat, y as nat, z as nat, value));
        let announce = match send_update {
            Some(b) => b,
            None => false,
        };
        if announce {
            let data = packet::set_block(
                packet::low_u16(x),
                packet::low_u16(y),
                packet::low_u16(z),
                value,
            );
            effects.push(self.broadcast(data.as_slice()));
        }
        assert(effect_views(effects@) =~= old(self)@.set_block_effects(
            x,
            y,
            z,
            value,
            send_update == Some(true),
        ));
        effects
    }

    /// `data` for every registered player.
    pub fn broadcast(&self, data: &[u8]) -> (effect: Effect)
        ensures
            effect@ == self@.broadcast(data@),
            effect.wf(),
    {
        Effect::Broadcast { recipients: self.player_ids(), data: slice_to_vec(data) }
    }

    /// A chat line for the console and for every registered player.
    pub fn broadcast_message(&self, message: &String) -> (effects: Vec<Effect>)
        ensures
            effect_views(effects@) == self@.chat(message@),
            effects_wf(effects@),
    {
        let mut effects: Vec<Effect> = Vec::new();
        effects.push(Effect::Console { line: message.clone() });
        let data = packet::message(message);
        effects.push(self.broadcast(data.as_slice()));
        assert(effect_views(effects@) =~= self@.chat(message@));
        effects
    }

    /// The grid in its compressed persisted form, or `Compress` exactly
    /// where the compressor gives none.
    pub fn to_gzip(&self) -> (r: Result<Vec<u8>, PersistError>)
        ensures
            match r {
                Ok(blob) => self@.level() == Some(blob@) && encodes(blob@, self.data@),
                Err(e) => self@.level() is None && e == PersistError::Compress,
            },
    {
        persist::encode(self.data.as_slice())
    }

    /// Decompresses a persisted form, header included.
    pub fn from_gzip(&self, gzip_data: Vec<u8>) -> (r: Result<Vec<u8>, PersistError>)
        ensures
            match r {
                Ok(payload) => gunzip_of(gzip_data@) == Some(payload@),
                Err(e) => gunzip_of(gzip_data@) is None && e == PersistError::Decompress,
            },
    {
        persist::decompress(gzip_data.as_slice())
    }

    /// Replaces the grid by the one in `payload`, an uncompressed persisted
    /// form. A payload that does not hold one byte for each voxel of this
    /// world is refused, and the world stays as it is.
    pub fn restore(&mut self, payload: Vec<u8>) -> (r: Result<(), PersistError>)
        requires
            old(self).wf(),
        ensures
            final(self).wf(),
            match unframed(payload@, old(self)@.volume()) {
                Ok(voxels) => r is Ok && final(self)@ == old(self)@.with_data(voxels),
                Err(e) => r == Err::<(), PersistError>(e) && final(self)@ == old(self)@,
            },
    {
        match persist::unframe(payload, self.data.len()) {
            Ok(voxels) => {
                self.data = voxels;
                assert(self@ =~= old(self)@.with_data(voxels@));
                Ok(())
            },
            Err(e) => Err(e),
        }
    }

    /// Replaces the grid by the one in `compressed`, the content of a world
    /// file. Where that cannot be decoded for this world's dimensions, the
    /// world stays as it is.
    pub fn load(&mut self, compressed: Vec<u8>) -> (r: Result<(), PersistError>)
        requires
            old(self).wf(),
        ensures
            final(self).wf(),
            match decoded(compressed@, old(self)@.volume()) {
                Ok(voxels) => r is Ok && final(self)@ == old(self)@.with_data(voxels),
                Err(e) => r == Err::<(), PersistError>(e) && final(self)@ == old(self)@,
            },
    {
        match self.from_gzip(compressed) {
            Ok(payload) => self.restore(payload),
            Err(e) => Err(e),
        }
    }

    /// The content to write to the world file: the grid in its compressed
    /// persisted form, or `Compress` exactly where the compressor gives none.
    pub fn save(&self) -> (r: Result<Vec<u8>, PersistError>)
        ensures
            match r {
                Ok(blob) => self@.level() == Some(blob@) && encodes(blob@, self.data@),
                Err(e) => self@.level() is None && e == PersistError::Compress,
            },
    {
        self.to_gzip()
    }

    /// The ids of the registered players, each once, in the order in which
    /// the registry hands them out.
    pub fn player_ids(&self) -> (ids: Vec<u32>)
        ensures
            ids@.no_duplicates(),
            ids@.to_set() == self@.ids(),
    {
        let ids = walk::keys(&self.players);
        assert(self@.ids() =~= self.players@.dom());
        ids
    }
}

/// A block that was set is the block that is read: inside the grid the
/// voxel holds the value and every other voxel is as before; outside the
/// grid the world is unchanged.
pub proof fn lemma_set_block_then_read(world: WorldView, x: nat, y: nat, z: nat, value: u8)
    requires
        world.wf(),
    ensures
        world.in_bounds(x, y, z) ==> {
            &&& 0 <= world.voxel_index(x, y, z) < world.data.len()
            &&& world.with_block(x, y, z, value).data[world.voxel_index(x, y, z) as int] == value
            &&& forall|i: int|
                0 <= i < world.data.len() && i != world.voxel_index(x, y, z) ==> world.with_block(
                    x,
                    y,
                    z,
                    value,
                ).data[i] == #[trigger] world.data[i]
        },
        !world.in_bounds(x, y, z) ==> world.with_block(x, y, z, value) == world,
        world.with_block(x, y, z, value).wf(),
{
    if world.in_bounds(x, y, z) {
        lemma_voxel_index(world.size_x, world.size_y, world.size_z, x, y, z);
    }
}

/// What was saved loads again: a blob that encodes a world's grid decodes,
/// for every world of as many voxels, to that grid.
pub proof fn lemma_save_load(saved: WorldView, blob: Seq<u8>, into: WorldView)
    requires
        saved.wf(),
        encodes(blob, saved.data),
        into.volume() == saved.volume(),
    ensures
        decoded(blob, into.volume()) == Ok::<Seq<u8>, PersistError>(saved.data),
{
    persist::lemma_persist_round_trip(saved.data, blob);
}

} // verus!
