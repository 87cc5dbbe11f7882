//! Gray–Scott reaction–diffusion simulation state on a 2D periodic grid.
//!
//! A [`System`] owns two equally sized cell buffers — the current generation
//! and a scratch target — together with the fixed 3-by-3 convolution kernel,
//! the model parameters, and the cached range of the B channel used to
//! normalize it for display. One evolution step reads the whole current
//! buffer, writes the next generation into the scratch buffer, swaps the two,
//! and rebuilds the cached range in the same pass.
//!
//! Every concentration, weight and parameter is carried as the 32-bit pattern
//! of an IEEE 754 single-precision value (what `to_bits` yields). The
//! structural logic — buffer layout, toroidal neighbor lookup, double
//! buffering, range folding — is verified here; the numerical update rule
//! itself works on hardware floats, which this crate does not touch, so the
//! evolution step takes it from the caller as a contracted closure and its
//! postcondition pins every output cell to that closure's relation on the
//! pre-step neighborhood.

pub mod f32range;

use vstd::arithmetic::div_mod::{
    lemma_fundamental_div_mod,
    lemma_fundamental_div_mod_converse,
    lemma_mod_add_multiples_vanish,
    lemma_mod_division_less_than_divisor,
    lemma_mod_self_0,
    lemma_small_mod,
};
use vstd::prelude::*;

use crate::f32range::{empty_range, expand_spec, fold_range, zero_range, F32Range};

verus! {

/// One grid position: the concentrations of chemical A and chemical B, as
/// single-precision bit patterns.
pub type Cell = (u32, u32);

/// Pattern of one: the A concentration of the inert cell, and the default
/// diffusion rate of chemical A.
pub const CODE_ONE: u32 = 0x3F80_0000;

/// Pattern of one half: the default diffusion rate of chemical B.
pub const CODE_HALF: u32 = 0x3F00_0000;

/// Pattern of 0.055: the default feed rate.
pub const DEFAULT_FEED_RATE: u32 = 0x3D61_47AE;

/// Pattern of 0.062: the default kill rate.
pub const DEFAULT_KILL_RATE: u32 = 0x3D7D_F3B6;

/// Pattern of 0.05: the kernel weight at the four corners.
pub const WEIGHT_CORNER: u32 = 0x3D4C_CCCD;

/// Pattern of 0.20: the kernel weight at the four edges.
pub const WEIGHT_EDGE: u32 = 0x3E4C_CCCD;

/// Pattern of minus one: the kernel weight at the center.
pub const WEIGHT_CENTER: u32 = 0xBF80_0000;

/// The cell every grid starts from: chemical A at one, chemical B at zero.
pub open spec fn inert_cell() -> Cell {
    (CODE_ONE, 0u32)
}

/// The fixed 3-by-3 convolution kernel, row-major: an approximate discrete
/// Laplacian whose weights sum to zero.
pub open spec fn kernel_spec() -> Seq<u32> {
    seq![
        WEIGHT_CORNER,
        WEIGHT_EDGE,
        WEIGHT_CORNER,
        WEIGHT_EDGE,
        WEIGHT_CENTER,
        WEIGHT_EDGE,
        WEIGHT_CORNER,
        WEIGHT_EDGE,
        WEIGHT_CORNER,
    ]
}

/// The B-channel patterns of a buffer, in buffer order.
pub open spec fn b_codes(world: Seq<Cell>) -> Seq<u32> {
    world.map_values(|c: Cell| c.1)
}

/// The coordinate one step down from `x` on a torus of extent `n`: the last
/// coordinate when `x` is the first.
pub open spec fn wrap_dec(x: int, n: int) -> int {
    if x == 0 {
        n - 1
    } else {
        x - 1
    }
}

/// The coordinate one step up from `x` on a torus of extent `n`: the first
/// coordinate when `x` is the last.
pub open spec fn wrap_inc(x: int, n: int) -> int {
    if x + 1 == n {
        0
    } else {
        x + 1
    }
}

/// Law: the toroidal neighbor steps agree with modular arithmetic on the
/// coordinate — one step down is `(x - 1 + n) % n` and one step up is
/// `(x + 1) % n` — so the grid edges wrap around rather than clamp.
pub proof fn lemma_wrap_is_modular(x: int, n: int)
    requires
        0 <= x < n,
    ensures
        wrap_dec(x, n) == (x - 1 + n) % n,
        wrap_inc(x, n) == (x + 1) % n,
{
    if x == 0 {
        lemma_small_mod((n - 1) as nat, n as nat);
    } else {
        lemma_mod_add_multiples_vanish(x - 1, n);
        lemma_small_mod((x - 1) as nat, n as nat);
    }
    if x + 1 == n {
        lemma_mod_self_0(n);
    } else {
        lemma_small_mod((x + 1) as nat, n as nat);
    }
}

/// Row-major positions `(y, x)` on a `w`-by-`h` grid index into a buffer of
/// `w * h` cells.
proof fn lemma_index_in_bounds(x: int, y: int, w: int, h: int)
    requires
        0 <= x < w,
        0 <= y < h,
    ensures
        0 <= y * w + x < w * h,
{
    assert(0 <= y * w + x < w * h) by (nonlinear_arith)
        requires
            0 <= x < w,
            0 <= y < h,
    ;
}

fn wrap_dec_exec(x: usize, n: usize) -> (r: usize)
    requires
        1 <= n,
        x < n,
    ensures
        r == wrap_dec(x as int, n as int),
        r < n,
{
    if x == 0 {
        n - 1
    } else {
        x - 1
    }
}

fn wrap_inc_exec(x: usize, n: usize) -> (r: usize)
    requires
        1 <= n,
        x < n,
    ensures
        r == wrap_inc(x as int, n as int),
        r < n,
{
    if x + 1 == n {
        0
    } else {
        x + 1
    }
}

/// A buffer of `n` inert cells.
fn filled(n: usize) -> (v: Vec<Cell>)
    ensures
        v@.len() == n,
        forall|i: int| 0 <= i < n ==> v@[i] == inert_cell(),
{
    let mut v: Vec<Cell> = Vec::new();
    let mut i: usize = 0;
    while i < n
        invariant
            i <= n,
            v@.len() == i,
            forall|j: int| 0 <= j < i ==> v@[j] == inert_cell(),
        decreases n - i,
    {
        v.push((CODE_ONE, 0u32));
        i += 1;
    }
    v
}

/// The simulation state: grid dimensions, the two cell buffers, the fixed
/// kernel, the model parameters, and the cached B-channel range.
#[derive(Debug)]
pub struct System {
    /// Number of columns.
    pub width: usize,
    /// Number of rows.
    pub height: usize,
    /// The current generation, row-major.
    pub world: Vec<Cell>,
    /// The scratch buffer an evolution step writes into before the swap;
    /// internal state, exposed for specification only.
    pub world_buffer: Vec<Cell>,
    /// The convolution kernel, row-major.
    pub kernel: Vec<u32>,
    /// The rate chemical A is poured into the system.
    pub feed_rate: u32,
    /// The rate chemical B is removed from the system.
    pub kill_rate: u32,
    /// The diffusion rates of chemicals A and B.
    pub diffusion_rates: (u32, u32),
    /// The cached range of the B channel; correct as of the last evolution
    /// step or explicit metadata update, stale after direct cell writes.
    pub b_range: F32Range,
}

/// The scalar model parameters one evolution step hands to the update rule.
#[derive(Debug, Clone, Copy, PartialEq)]
pub struct Params {
    /// The rate chemical A is poured into the system.
    pub feed_rate: u32,
    /// The rate chemical B is removed from the system.
    pub kill_rate: u32,
    /// The diffusion rate of chemical A.
    pub diffusion_a: u32,
    /// The diffusion rate of chemical B.
    pub diffusion_b: u32,
    /// The time delta of the step.
    pub dt: u32,
}

/// The 3-by-3 neighborhood an evolution step hands to the update rule, read
/// from the pre-step buffer with toroidal wraparound, in kernel order.
#[derive(Debug, Clone, Copy, PartialEq)]
pub struct Stencil {
    pub top_left: Cell,
    pub top: Cell,
    pub top_right: Cell,
    pub left: Cell,
    pub center: Cell,
    pub right: Cell,
    pub bottom_left: Cell,
    pub bottom: Cell,
    pub bottom_right: Cell,
}

/// The neighborhood of `(x, y)` in `world`, a row-major `w`-by-`h` buffer,
/// with toroidal wraparound.
pub open spec fn stencil_spec(world: Seq<Cell>, w: int, h: int, x: int, y: int) -> Stencil {
    let lx = wrap_dec(x, w);
    let rx = wrap_inc(x, w);
    let ty = wrap_dec(y, h);
    let by = wrap_inc(y, h);
    Stencil {
        top_left: world[ty * w + lx],
        top: world[ty * w + x],
        top_right: world[ty * w + rx],
        left: world[y * w + lx],
        center: world[y * w + x],
        right: world[y * w + rx],
        bottom_left: world[by * w + lx],
        bottom: world[by * w + x],
        bottom_right: world[by * w + rx],
    }
}

/// What one metadata update does to a system: the grid and every other field
/// are left alone, and the cached range is rebuilt by folding the B channel
/// of the whole current buffer into an empty tracker.
pub open spec fn metadata_step(pre: System, post: System) -> bool {
    &&& post.world@ == pre.world@
    &&& post.world_buffer@ == pre.world_buffer@
    &&& same_shape(pre, post)
    &&& post.b_range == fold_range(b_codes(post.world@))
}

/// The fields no operation but a parameter write ever changes: dimensions,
/// kernel, and the model parameters.
pub open spec fn same_shape(a: System, b: System) -> bool {
    &&& b.width == a.width
    &&& b.height == a.height
    &&& b.kernel@ == a.kernel@
    &&& b.feed_rate == a.feed_rate
    &&& b.kill_rate == a.kill_rate
    &&& b.diffusion_rates == a.diffusion_rates
}

/// Law: recomputing the metadata is idempotent. The range a metadata update
/// installs is a function of the current buffer alone, so a second update
/// without intervening writes installs the very same range.
pub proof fn lemma_metadata_idempotent(s0: System, s1: System, s2: System)
    requires
        metadata_step(s0, s1),
        metadata_step(s1, s2),
    ensures
        s2.b_range == s1.b_range,
{
}

/// Law: a system whose cached range equals the fold of its current buffer's
/// B channel — as every evolution step and metadata update leaves it — is a
/// fixpoint of the metadata update: recomputing changes nothing.
pub proof fn lemma_fresh_metadata_is_fixpoint(s: System)
    requires
        s.b_range == fold_range(b_codes(s.world@)),
    ensures
        metadata_step(s, s),
{
}

/// The neighborhood every cell of an all-inert grid sees: nine inert cells.
pub open spec fn inert_stencil() -> Stencil {
    Stencil {
        top_left: inert_cell(),
        top: inert_cell(),
        top_right: inert_cell(),
        left: inert_cell(),
        center: inert_cell(),
        right: inert_cell(),
        bottom_left: inert_cell(),
        bottom: inert_cell(),
        bottom_right: inert_cell(),
    }
}

/// Law: an evolution step conserves an all-inert grid, provided the update
/// rule fixes the all-inert neighborhood. The step's postcondition relates
/// every output cell to the rule on its pre-step neighborhood, which on an
/// all-inert grid is the inert one at every position; a rule that maps that
/// neighborhood back to the inert cell — as the reaction-diffusion formula
/// does, its B-source terms vanishing and the Laplacian of a uniform field
/// being zero — therefore leaves every cell inert.
pub proof fn lemma_inert_grid_conserved<F: Fn(Params, Stencil) -> Cell>(
    pre: System,
    post: System,
    update: F,
    dt: u32,
)
    requires
        pre.wf(),
        pre.width >= 1,
        pre.height >= 1,
        forall|i: int| 0 <= i < pre.world@.len() ==> pre.world@[i] == inert_cell(),
        post.world@.len() == pre.world@.len(),
        forall|i: int|
            0 <= i < post.world@.len() ==> call_ensures(
                update,
                (pre.params_spec(dt), pre.stencil_at(i)),
                #[trigger] post.world@[i],
            ),
        forall|r: Cell|
            call_ensures(update, (pre.params_spec(dt), inert_stencil()), r) ==> r == inert_cell(),
    ensures
        forall|i: int| 0 <= i < post.world@.len() ==> post.world@[i] == inert_cell(),
{
    let w = pre.width as int;
    let h = pre.height as int;
    assert forall|i: int| 0 <= i < post.world@.len() implies post.world@[i] == inert_cell() by {
        let x = i % w;
        let y = i / w;
        lemma_fundamental_div_mod(i, w);
        lemma_mod_division_less_than_divisor(i, w);
        assert(0 <= y < h) by (nonlinear_arith)
            requires
                i == w * y + x,
                0 <= x < w,
                0 <= i < w * h,
        ;
        lemma_index_in_bounds(wrap_dec(x, w), wrap_dec(y, h), w, h);
        lemma_index_in_bounds(x, wrap_dec(y, h), w, h);
        lemma_index_in_bounds(wrap_inc(x, w), wrap_dec(y, h), w, h);
        lemma_index_in_bounds(wrap_dec(x, w), y, w, h);
        lemma_index_in_bounds(x, y, w, h);
        lemma_index_in_bounds(wrap_inc(x, w), y, w, h);
        lemma_index_in_bounds(wrap_dec(x, w), wrap_inc(y, h), w, h);
        lemma_index_in_bounds(x, wrap_inc(y, h), w, h);
        lemma_index_in_bounds(wrap_inc(x, w), wrap_inc(y, h), w, h);
        assert(pre.stencil_at(i) == inert_stencil());
    }
}

impl System {
    /// The structural invariant: both buffers cover the whole grid and the
    /// kernel holds the fixed Laplacian weights.
    pub open spec fn wf(self) -> bool {
        &&& self.world@.len() == self.width * self.height
        &&& self.world_buffer@.len() == self.width * self.height
        &&& self.kernel@ == kernel_spec()
    }

    /// The parameter block an evolution step with time delta `dt` hands to
    /// the update rule.
    pub open spec fn params_spec(self, dt: u32) -> Params {
        Params {
            feed_rate: self.feed_rate,
            kill_rate: self.kill_rate,
            diffusion_a: self.diffusion_rates.0,
            diffusion_b: self.diffusion_rates.1,
            dt: dt,
        }
    }

    /// The pre-step neighborhood of the cell at buffer index `i`.
    pub open spec fn stencil_at(self, i: int) -> Stencil {
        stencil_spec(
            self.world@,
            self.width as int,
            self.height as int,
            i % (self.width as int),
            i / (self.width as int),
        )
    }

    /// Builds a grid of the given dimensions: every cell inert — chemical A
    /// at one, chemical B at zero — the fixed kernel, default model
    /// parameters, and the cached B range at the degenerate zero range, or
    /// empty if the grid has no cell.
    pub fn new(width: usize, height: usize) -> (s: System)
        requires
            width * height <= usize::MAX,
        ensures
            s.wf(),
            s.width == width,
            s.height == height,
            forall|i: int| 0 <= i < s.world@.len() ==> s.world@[i] == inert_cell(),
            forall|i: int| 0 <= i < s.world_buffer@.len() ==> s.world_buffer@[i] == inert_cell(),
            s.feed_rate == DEFAULT_FEED_RATE,
            s.kill_rate == DEFAULT_KILL_RATE,
            s.diffusion_rates == (CODE_ONE, CODE_HALF),
            s.b_range == if width * height > 0 {
                zero_range()
            } else {
                empty_range()
            },
    {
        let size = width * height;
        let mut kernel: Vec<u32> = Vec::new();
        kernel.push(WEIGHT_CORNER);
        kernel.push(WEIGHT_EDGE);
        kernel.push(WEIGHT_CORNER);
        kernel.push(WEIGHT_EDGE);
        kernel.push(WEIGHT_CENTER);
        kernel.push(WEIGHT_EDGE);
        kernel.push(WEIGHT_CORNER);
        kernel.push(WEIGHT_EDGE);
        kernel.push(WEIGHT_CORNER);
        proof {
            assert(kernel@ =~= kernel_spec());
        }
        System {
            width,
            height,
            world: filled(size),
            world_buffer: filled(size),
            kernel,
            feed_rate: DEFAULT_FEED_RATE,
            kill_rate: DEFAULT_KILL_RATE,
            diffusion_rates: (CODE_ONE, CODE_HALF),
            b_range: if size > 0 {
                F32Range::zero()
            } else {
                F32Range::empty()
            },
        }
    }

    /// Number of columns.
    pub fn width(&self) -> (w: usize)
        ensures
            w == self.width,
    {
        self.width
    }

    /// Number of rows.
    pub fn height(&self) -> (h: usize)
        ensures
            h == self.height,
    {
        self.height
    }

    /// Reads the current buffer at the given coordinates.
    pub fn get(&self, xy: (usize, usize)) -> (c: Cell)
        requires
            self.wf(),
            xy.0 < self.width,
            xy.1 < self.height,
        ensures
            c == self.world@[xy.1 * self.width + xy.0],
    {
        let (x, y) = xy;
        let n = self.world.len();
        proof {
            lemma_index_in_bounds(x as int, y as int, self.width as int, self.height as int);
            assert(y * self.width + x < n);
        }
        self.world[y * self.width + x]
    }

    /// Overwrites the current buffer at the given coordinates. The cached
    /// B range is left untouched: it is stale until `update_metadata` or
    /// `evolve` rebuilds it.
    pub fn set(&mut self, xy: (usize, usize), c: Cell)
        requires
            old(self).wf(),
            xy.0 < old(self).width,
            xy.1 < old(self).height,
        ensures
            final(self).wf(),
            same_shape(*old(self), *final(self)),
            final(self).world@ == old(self).world@.update(
                xy.1 * old(self).width + xy.0,
                c,
            ),
            final(self).world_buffer@ == old(self).world_buffer@,
            final(self).b_range == old(self).b_range,
    {
        let (x, y) = xy;
        let n = self.world.len();
        proof {
            lemma_index_in_bounds(x as int, y as int, self.width as int, self.height as int);
            assert(y * self.width + x < n);
        }
        self.world[y * self.width + x] = c;
    }

    /// The cached B-channel range.
    pub fn b_range(&self) -> (r: F32Range)
        ensures
            r == self.b_range,
    {
        self.b_range
    }

    /// Rebuilds the cached B range from the current buffer: the range is
    /// reset to empty and every cell's B pattern is folded in, in buffer
    /// order. Linear in the grid size, so batches of `set` calls should be
    /// followed by one call here rather than one each.
    pub fn update_metadata(&mut self)
        ensures
            final(self).wf() == old(self).wf(),
            metadata_step(*old(self), *final(self)),
    {
        self.b_range = F32Range::empty();
        let n = self.world.len();
        let mut i: usize = 0;
        while i < n
            invariant
                i <= n,
                n == self.world.len(),
                self.world@ == old(self).world@,
                self.world_buffer@ == old(self).world_buffer@,
                same_shape(*old(self), *self),
                self.b_range == fold_range(b_codes(self.world@).take(i as int)),
            decreases n - i,
        {
            let b = self.world[i].1;
            proof {
                let bs = b_codes(self.world@);
                assert(bs.take(i + 1).drop_last() =~= bs.take(i as int));
                assert(bs.take(i + 1).last() == bs[i as int]);
                assert(bs[i as int] == b);
            }
            self.b_range.expand(b);
            i += 1;
        }
        proof {
            assert(b_codes(self.world@).take(n as int) =~= b_codes(self.world@));
        }
    }

    /// Every cell of the current buffer with its coordinates: entry `i`
    /// holds the position `(i % width, i / width)` — row-major order — and
    /// the cell stored there.
    pub fn cells(&self) -> (v: Vec<((usize, usize), Cell)>)
        requires
            self.wf(),
        ensures
            v@.len() == self.world@.len(),
            forall|i: int|
                0 <= i < v@.len() ==> #[trigger] v@[i] == (
                    ((i % (self.width as int)) as usize, (i / (self.width as int)) as usize),
                    self.world@[i],
                ),
    {
        let n = self.world.len();
        let w = self.width;
        proof {
            assert((w as int) * (self.height as int) > 0 ==> w >= 1) by (nonlinear_arith);
        }
        let mut v: Vec<((usize, usize), Cell)> = Vec::new();
        let mut i: usize = 0;
        let mut x: usize = 0;
        let mut y: usize = 0;
        while i < n
            invariant
                self.wf(),
                w == self.width,
                n == self.world@.len(),
                i <= n,
                v@.len() == i,
                i == y * w + x,
                n > 0 ==> x < w && y <= self.height,
                forall|j: int|
                    0 <= j < i ==> #[trigger] v@[j] == (
                        ((j % (w as int)) as usize, (j / (w as int)) as usize),
                        self.world@[j],
                    ),
            decreases n - i,
        {
            proof {
                lemma_fundamental_div_mod_converse(i as int, w as int, y as int, x as int);
            }
            v.push(((x, y), self.world[i]));
            i = i + 1;
            x = x + 1;
            if x == w {
                x = 0;
                y = y + 1;
                proof {
                    assert((y * w + 0) as int == i as int) by (nonlinear_arith)
                        requires
                            i as int == (y - 1) * (w as int) + w,
                    ;
                    assert(y <= self.height) by (nonlinear_arith)
                        requires
                            y * (w as int) <= (self.width * self.height) as int,
                            w as int == self.width as int,
                            w >= 1,
                            y >= 0,
                    ;
                }
            }
        }
        v
    }

    /// Advances the grid by one generation and rebuilds the cached B range
    /// in the same pass.
    ///
    /// The numerical update rule is supplied by the caller: for every
    /// position, `update` receives the model parameters with the time delta
    /// `dt` and the cell's pre-step neighborhood — read with toroidal
    /// wraparound — and returns the cell's next value. The step writes only
    /// the scratch buffer, so every output cell is a function of pre-step
    /// values alone, whatever order the grid is walked in; the two buffers
    /// then swap roles, and the fresh range holds the fold of the new
    /// generation's B channel.
    pub fn evolve<F: Fn(Params, Stencil) -> Cell>(&mut self, dt: u32, update: F)
        requires
            old(self).wf(),
            old(self).width >= 1,
            old(self).height >= 1,
            forall|p: Params, st: Stencil| call_requires(update, (p, st)),
        ensures
            final(self).wf(),
            same_shape(*old(self), *final(self)),
            final(self).world@.len() == old(self).world@.len(),
            forall|i: int|
                0 <= i < final(self).world@.len() ==> call_ensures(
                    update,
                    (old(self).params_spec(dt), old(self).stencil_at(i)),
                    #[trigger] final(self).world@[i],
                ),
            final(self).world_buffer@ == old(self).world@,
            final(self).b_range == fold_range(b_codes(final(self).world@)),
    {
        let w = self.width;
        let h = self.height;
        let n = self.world.len();
        let params = Params {
            feed_rate: self.feed_rate,
            kill_rate: self.kill_rate,
            diffusion_a: self.diffusion_rates.0,
            diffusion_b: self.diffusion_rates.1,
            dt,
        };
        self.b_range = F32Range::empty();
        let mut i: usize = 0;
        let mut x: usize = 0;
        let mut y: usize = 0;
        while i < n
            invariant
                self.wf(),
                w == self.width,
                h == self.height,
                w >= 1,
                h >= 1,
                n == self.world@.len(),
                n == self.world_buffer@.len(),
                i <= n,
                i == y * w + x,
                x < w,
                y <= h,
                self.world@ == old(self).world@,
                same_shape(*old(self), *self),
                params == old(self).params_spec(dt),
                forall|p: Params, st: Stencil| call_requires(update, (p, st)),
                forall|j: int|
                    0 <= j < i ==> call_ensures(
                        update,
                        (old(self).params_spec(dt), old(self).stencil_at(j)),
                        #[trigger] self.world_buffer@[j],
                    ),
                self.b_range == fold_range(b_codes(self.world_buffer@).take(i as int)),
            decreases n - i,
        {
            proof {
                lemma_fundamental_div_mod_converse(i as int, w as int, y as int, x as int);
                assert(y < h) by (nonlinear_arith)
                    requires
                        (y as int) * (w as int) + (x as int) < (w as int) * (h as int),
                        0 <= x < w,
                        0 <= y,
                ;
            }
            let lx = wrap_dec_exec(x, w);
            let rx = wrap_inc_exec(x, w);
            let ty = wrap_dec_exec(y, h);
            let by = wrap_inc_exec(y, h);
            proof {
                lemma_index_in_bounds(lx as int, ty as int, w as int, h as int);
                lemma_index_in_bounds(x as int, ty as int, w as int, h as int);
                lemma_index_in_bounds(rx as int, ty as int, w as int, h as int);
                lemma_index_in_bounds(lx as int, y as int, w as int, h as int);
                lemma_index_in_bounds(x as int, y as int, w as int, h as int);
                lemma_index_in_bounds(rx as int, y as int, w as int, h as int);
                lemma_index_in_bounds(lx as int, by as int, w as int, h as int);
                lemma_index_in_bounds(x as int, by as int, w as int, h as int);
                lemma_index_in_bounds(rx as int, by as int, w as int, h as int);
            }
            let st = Stencil {
                top_left: self.world[ty * w + lx],
                top: self.world[ty * w + x],
                top_right: self.world[ty * w + rx],
                left: self.world[y * w + lx],
                center: self.world[y * w + x],
                right: self.world[y * w + rx],
                bottom_left: self.world[by * w + lx],
                bottom: self.world[by * w + x],
                bottom_right: self.world[by * w + rx],
            };
            proof {
                assert(st == old(self).stencil_at(i as int));
            }
            let nc = update(params, st);
            let ghost prebuf = self.world_buffer@;
            self.world_buffer[i] = nc;
            proof {
                let bs = b_codes(self.world_buffer@);
                assert(bs.take(i as int) =~= b_codes(prebuf).take(i as int));
                assert(bs.take(i + 1).drop_last() =~= bs.take(i as int));
                assert(bs.take(i + 1).last() == nc.1);
                assert(fold_range(bs.take(i + 1)) == expand_spec(fold_range(bs.take(i as int)), nc.1));
            }
            self.b_range.expand(nc.1);
            i = i + 1;
            x = x + 1;
            if x == w {
                x = 0;
                y = y + 1;
                proof {
                    assert((y * w + 0) as int == i as int) by (nonlinear_arith)
                        requires
                            i as int == (y - 1) * (w as int) + w,
                    ;
                    assert(y <= h) by (nonlinear_arith)
                        requires
                            y * (w as int) <= (w * h) as int,
                            w >= 1,
                            y >= 0,
                    ;
                }
            }
        }
        proof {
            assert(b_codes(self.world_buffer@).take(n as int) =~= b_codes(self.world_buffer@));
        }
        core::mem::swap(&mut self.world, &mut self.world_buffer);
    }
}

} // verus!
