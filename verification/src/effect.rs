//! What a handled command asks of the program around the world: bytes for
//! players' connections, lines for the console, bytes for the world file.

use vstd::prelude::*;

verus! {

/// A fault that is reported and otherwise ignored.
#[derive(Clone, Copy, Debug, PartialEq, Eq, Structural)]
pub enum Warning {
    /// A block edit outside the grid; the grid is unchanged.
    OutOfBounds { x: usize, y: usize, z: usize },
    /// The level could not be compressed for the player `to`; no level
    /// transfer was sent.
    LevelUnavailable { to: u32 },
    /// The world could not be compressed for saving; nothing is written.
    SaveFailed,
}

/// One thing to do, in the order in which the handler lists it.
#[derive(Clone, Debug, PartialEq, Eq)]
pub enum Effect {
    /// Write `data` to the connection of player `to`.
    Send { to: u32, data: Vec<u8> },
    /// Write `data` to the connection of each player in `recipients`.
    Broadcast { recipients: Vec<u32>, data: Vec<u8> },
    /// Print `line` on the server's console.
    Console { line: String },
    /// Replace the world file's content by `data`.
    Persist { data: Vec<u8> },
    /// Log `warning`.
    Warn { warning: Warning },
}

/// An effect as a value: byte and character sequences, and the recipients
/// of a broadcast as a set.
#[verifier::ext_equal]
pub enum EffectView {
    Send { to: u32, data: Seq<u8> },
    Broadcast { recipients: Set<u32>, data: Seq<u8> },
    Console { line: Seq<char> },
    Persist { data: Seq<u8> },
    Warn { warning: Warning },
}

impl View for Effect {
    type V = EffectView;

    open spec fn view(&self) -> EffectView {
        match *self {
            Effect::Send { to, data } => EffectView::Send { to, data: data@ },
            Effect::Broadcast { recipients, data } => EffectView::Broadcast {
                recipients: recipients@.to_set(),
                data: data@,
            },
            Effect::Console { line } => EffectView::Console { line: line@ },
            Effect::Persist { data } => EffectView::Persist { data: data@ },
            Effect::Warn { warning } => EffectView::Warn { warning },
        }
    }
}

impl Effect {
    /// A broadcast names each recipient once.
    pub open spec fn wf(&self) -> bool {
        match *self {
            Effect::Broadcast { recipients, data } => recipients@.no_duplicates(),
            _ => true,
        }
    }
}

/// The values of a list of effects, in order.
pub open spec fn effect_views(effects: Seq<Effect>) -> Seq<EffectView> {
    effects.map_values(|e: Effect| e@)
}

/// Every broadcast in the list names each recipient once.
pub open spec fn effects_wf(effects: Seq<Effect>) -> bool {
    forall|i: int| 0 <= i < effects.len() ==> (#[trigger] effects[i]).wf()
}

/// The effects that send each of `packets` to player `to`, in order.
pub open spec fn sends(to: u32, packets: Seq<Seq<u8>>) -> Seq<EffectView> {
    packets.map_values(|p: Seq<u8>| EffectView::Send { to, data: p })
}

} // verus!
