//! Compositions and their evaluation.

use vstd::prelude::*;
use crate::runtime::model::FrameRange;
use crate::runtime::model::Layer;

pub mod constancy;
pub mod model;
pub mod render;

pub use crate::runtime::render::Command;
pub use crate::runtime::render::Renderer;

verus! {

/// Precomposed layers that layers can instance by name.
#[derive(Clone, Debug)]
pub struct Asset {
    /// Name by which the asset is instanced.
    pub name: String,
    /// Layers of the asset.
    pub layers: Vec<Layer>,
}

/// Model of an animation.
#[derive(Clone, Debug)]
pub struct Composition {
    /// Frames in which the animation is active.
    pub frames: FrameRange,
    /// Frames per second.
    pub frame_rate: i64,
    /// Width of the animation.
    pub width: usize,
    /// Height of the animation.
    pub height: usize,
    /// Precomposed layers that may be instanced. Where two assets share a
    /// name, the first one is the asset of that name.
    pub assets: Vec<Asset>,
    /// Collection of layers.
    pub layers: Vec<Layer>,
}

/// The index of the first asset from index `from` on that is named `name`.
pub open spec fn first_named(assets: Seq<Asset>, name: Seq<char>, from: int) -> Option<int>
    decreases assets.len() - from,
{
    if from < 0 || from >= assets.len() {
        None
    } else if assets[from].name@ == name {
        Some(from)
    } else {
        first_named(assets, name, from + 1)
    }
}

/// The number of layers in the first `n` assets.
pub open spec fn asset_layer_count(assets: Seq<Asset>, n: nat) -> nat
    decreases n,
{
    if n == 0 {
        0
    } else {
        asset_layer_count(assets, (n - 1) as nat) + assets[n - 1].layers@.len()
    }
}

impl Composition {
    /// The index of the asset named `name`.
    pub open spec fn asset_index_spec(self, name: Seq<char>) -> Option<int> {
        first_named(self.assets@, name, 0)
    }

    /// The number of layers in the composition, its assets included.
    pub open spec fn layer_count(self) -> nat {
        self.layers@.len() + asset_layer_count(self.assets@, self.assets@.len())
    }

    /// How deeply instances and mattes are followed during evaluation: the
    /// number of layers of the composition, its assets included, as far as a
    /// `usize` holds it. The bound keeps a composition that instances or
    /// mattes itself from drawing without end.
    pub open spec fn depth_limit_spec(self) -> nat {
        if self.layer_count() <= usize::MAX {
            self.layer_count()
        } else {
            usize::MAX as nat
        }
    }

    /// Looks up an asset by name.
    pub fn asset_index(&self, name: &String) -> (r: Option<usize>)
        ensures
            r is Some <==> self.asset_index_spec(name@) is Some,
            r matches Some(i) ==> self.asset_index_spec(name@) == Some(i as int) && i
                < self.assets@.len(),
    {
        let mut i: usize = 0;
        while i < self.assets.len()
            invariant
                i <= self.assets.len(),
                first_named(self.assets@, name@, 0) == first_named(self.assets@, name@, i as int),
            decreases self.assets.len() - i,
        {
            if self.assets[i].name == *name {
                return Some(i);
            }
            i += 1;
        }
        None
    }

    /// Returns the greatest depth to which instances and mattes are
    /// followed.
    pub fn depth_limit(&self) -> (r: usize)
        ensures
            r == self.depth_limit_spec(),
    {
        let mut total: usize = self.layers.len();
        let mut i: usize = 0;
        while i < self.assets.len()
            invariant
                i <= self.assets.len(),
                total == if self.layers@.len() + asset_layer_count(self.assets@, i as nat)
                    <= usize::MAX {
                    self.layers@.len() + asset_layer_count(self.assets@, i as nat)
                } else {
                    usize::MAX as nat
                },
            decreases self.assets.len() - i,
        {
            let n = self.assets[i].layers.len();
            total = if n > usize::MAX - total {
                usize::MAX
            } else {
                total + n
            };
            i += 1;
        }
        total
    }
}

impl Default for Composition {
    /// A composition without layers.
    fn default() -> (r: Self)
        ensures
            r.layers@.len() == 0,
            r.assets@.len() == 0,
            r.frames == (FrameRange { start: 0, end: 0 }),
            r.frame_rate == 0,
            r.width == 0,
            r.height == 0,
    {
        Composition {
            frames: FrameRange { start: 0, end: 0 },
            frame_rate: 0,
            width: 0,
            height: 0,
            assets: Vec::new(),
            layers: Vec::new(),
        }
    }
}

} // verus!
