//! The scrolling layer of the backdrop.
use vstd::prelude::*;
use crate::units::{valid_delta, SECOND};
use crate::math::reach_in;

verus! {

/// The largest speed and period of the backdrop's scroll.
pub const SCROLL_MAX: i64 = 1_000_000_000;

/// The backdrop's scrolling layer: how fast it scrolls, how far it has, and
/// after how far it starts again.
#[derive(Clone, Copy, Debug, PartialEq, Eq, Structural)]
pub struct BGLayer1 {
    pub speed: i64,
    pub offset: i64,
    pub max_offset: i64,
}

impl BGLayer1 {
    /// Speed, offset and period are in range.
    pub open spec fn wf(self) -> bool {
        &&& 0 <= self.speed <= SCROLL_MAX
        &&& 0 <= self.offset <= SCROLL_MAX
        &&& 0 <= self.max_offset <= SCROLL_MAX
    }

    /// The offset after `dt` more microseconds: further by the way of that
    /// time, or back at the start once that reaches the period.
    pub open spec fn scrolled(self, dt: int) -> int {
        if self.offset + reach_in(self.speed as int, dt) >= self.max_offset {
            0
        } else {
            self.offset + reach_in(self.speed as int, dt)
        }
    }
}

/// The scrolling layer as a level starts with it: 10 units per second, with a
/// period of 128 units.
pub fn bg_layer_1() -> (layer: BGLayer1)
    ensures
        layer == (BGLayer1 { speed: 10_000, offset: 0, max_offset: 128_000 }),
        layer.wf(),
{
    BGLayer1 { speed: 10_000, offset: 0, max_offset: 128_000 }
}

/// Scrolls the layer for one tick and returns the offset at which to draw
/// it, along both axes.
pub fn move_layer_1_around(layer: &mut BGLayer1, dt: i64) -> (offset: i64)
    requires
        old(layer).wf(),
        valid_delta(dt as int),
    ensures
        offset == old(layer).scrolled(dt as int),
        *final(layer) == (BGLayer1 { offset, ..*old(layer) }),
        final(layer).wf(),
{
    assert(0 <= layer.speed * dt <= 1_000_000_000 * 1_000_000_000int) by (nonlinear_arith)
        requires 0 <= layer.speed <= 1_000_000_000, 0 <= dt <= 1_000_000_000;
    let step: i64 = layer.speed * dt / SECOND;
    layer.offset = if layer.offset + step >= layer.max_offset {
        0
    } else {
        layer.offset + step
    };
    layer.offset
}

} // verus!
