//! Scatter layer data: points, instance records and layer compositing.
//!
//! Positions are in normalized device coordinates, colors are RGBA and
//! sizes are disk diameters in pixels. All are single-precision floats held
//! as their IEEE-754 bit patterns; the layer never computes with them, it
//! lays them out for instanced drawing.

use vstd::prelude::*;

verus! {

/// Number of 32-bit words in one instance record (48 bytes): position,
/// padding to 16 bytes, color, size, padding to 16 bytes.
pub const INSTANCE_WORDS: usize = 12;

/// The instance record of one point.
pub open spec fn instance_record(position: [u32; 2], color: [u32; 4], size: u32) -> Seq<u32> {
    seq![position[0], position[1], 0u32, 0u32, color[0], color[1], color[2], color[3], size, 0u32, 0u32, 0u32]
}

/// Errors in the layout of point data handed over as flat arrays or columns.
#[derive(Debug, Clone, Copy, PartialEq, Eq, Structural)]
pub enum LayoutError {
    /// The interleaved positions array does not hold whole `(x, y)` pairs.
    PositionsNotPairs,
    /// The interleaved colors array does not hold four channels per point.
    ColorsLength,
    /// The sizes array does not hold one size per point.
    SizesLength,
    /// The seven columns do not have the same length.
    ColumnLengths,
}

impl LayoutError {
    /// The message of the error.
    pub fn message(&self) -> (s: String)
        ensures
            self is PositionsNotPairs ==> s@ == "positions length must be a multiple of 2"@,
            self is ColorsLength ==> s@ == "colors length must be positions.len() * 4 (RGBA per point)"@,
            self is SizesLength ==> s@ == "sizes length must match number of points"@,
            self is ColumnLengths ==> s@ == "all Arrow columns must have the same length"@,
    {
        match self {
            LayoutError::PositionsNotPairs => "positions length must be a multiple of 2".to_owned(),
            LayoutError::ColorsLength => "colors length must be positions.len() * 4 (RGBA per point)".to_owned(),
            LayoutError::SizesLength => "sizes length must match number of points".to_owned(),
            LayoutError::ColumnLengths => "all Arrow columns must have the same length".to_owned(),
        }
    }
}

/// Scatter marks: one position, color and size per point, the canvas size
/// the pixel sizes refer to, and whether drawing clears the target first.
pub struct ScatterLayer {
    /// Point positions `(x, y)`.
    pub positions: Vec<[u32; 2]>,
    /// Point colors `(r, g, b, a)`.
    pub colors: Vec<[u32; 4]>,
    /// Point diameters in pixels.
    pub sizes: Vec<u32>,
    /// Canvas size in pixels; must match the render target.
    pub canvas_px: (u32, u32),
    /// Whether drawing clears the target to black first (the default); set
    /// to `false` when compositing so that earlier draws stay visible.
    pub clear_before_draw: bool,
}

impl ScatterLayer {
    /// Positions, colors and sizes describe the same number of points.
    pub open spec fn well_formed(&self) -> bool {
        &&& self.colors@.len() == self.positions@.len()
        &&& self.sizes@.len() == self.positions@.len()
    }

    /// Builds a layer that clears the target before drawing.
    pub fn new(positions: Vec<[u32; 2]>, colors: Vec<[u32; 4]>, sizes: Vec<u32>, canvas_px: (u32, u32)) -> (layer: Self)
        requires
            colors@.len() == positions@.len(),
            sizes@.len() == positions@.len(),
        ensures
            layer.well_formed(),
            layer.positions@ == positions@,
            layer.colors@ == colors@,
            layer.sizes@ == sizes@,
            layer.canvas_px == canvas_px,
            layer.clear_before_draw,
    {
        ScatterLayer { positions, colors, sizes, canvas_px, clear_before_draw: true }
    }

    /// Canvas size in pixels.
    pub fn canvas_px(&self) -> (c: (u32, u32))
        ensures
            c == self.canvas_px,
    {
        self.canvas_px
    }

    /// Number of points.
    pub fn len(&self) -> (n: usize)
        ensures
            n == self.positions@.len(),
    {
        self.positions.len()
    }

    /// Whether the layer has no points.
    pub fn is_empty(&self) -> (b: bool)
        ensures
            b <==> self.positions@.len() == 0,
    {
        self.positions.len() == 0
    }

    /// Whether drawing this layer clears the target to black first.
    pub fn clear_before_draw(&self) -> (b: bool)
        ensures
            b == self.clear_before_draw,
    {
        self.clear_before_draw
    }

    /// Replaces the point data.
    pub fn set_points(&mut self, positions: Vec<[u32; 2]>, colors: Vec<[u32; 4]>, sizes: Vec<u32>)
        requires
            colors@.len() == positions@.len(),
            sizes@.len() == positions@.len(),
        ensures
            final(self).well_formed(),
            final(self).positions@ == positions@,
            final(self).colors@ == colors@,
            final(self).sizes@ == sizes@,
            final(self).canvas_px == old(self).canvas_px,
            final(self).clear_before_draw == old(self).clear_before_draw,
    {
        self.positions = positions;
        self.colors = colors;
        self.sizes = sizes;
    }

    /// Updates the canvas size (after a resize of the target).
    pub fn set_canvas_px(&mut self, canvas_px: (u32, u32))
        ensures
            *final(self) == (ScatterLayer { canvas_px, ..*old(self) }),
    {
        self.canvas_px = canvas_px;
    }

    /// When `false`, drawing keeps the existing target contents.
    pub fn set_clear_before_draw(&mut self, clear: bool)
        ensures
            *final(self) == (ScatterLayer { clear_before_draw: clear, ..*old(self) }),
    {
        self.clear_before_draw = clear;
    }

    /// Builds a layer from seven equally long columns `x`, `y`, `r`, `g`,
    /// `b`, `a` and `size`.
    pub fn from_columns(
        x: &[u32],
        y: &[u32],
        r: &[u32],
        g: &[u32],
        b: &[u32],
        a: &[u32],
        size: &[u32],
        canvas_px: (u32, u32),
    ) -> (res: Result<Self, LayoutError>)
        ensures
            ({
                let n = x@.len();
                if y@.len() == n && r@.len() == n && g@.len() == n && b@.len() == n && a@.len() == n
                    && size@.len() == n {
                    res matches Ok(layer) && {
                        &&& layer.well_formed()
                        &&& layer.positions@.len() == n
                        &&& forall|i: int| 0 <= i < n ==> {
                            &&& #[trigger] layer.positions@[i] == [x@[i], y@[i]]
                            &&& layer.colors@[i] == [r@[i], g@[i], b@[i], a@[i]]
                            &&& layer.sizes@[i] == size@[i]
                        }
                        &&& layer.canvas_px == canvas_px
                        &&& layer.clear_before_draw
                    }
                } else {
                    res == Err::<Self, LayoutError>(LayoutError::ColumnLengths)
                }
            }),
    {
        let n = x.len();
        if y.len() != n || r.len() != n || g.len() != n || b.len() != n || a.len() != n || size.len() != n {
            return Err(LayoutError::ColumnLengths);
        }
        let mut positions: Vec<[u32; 2]> = Vec::new();
        let mut colors: Vec<[u32; 4]> = Vec::new();
        let mut sizes: Vec<u32> = Vec::new();
        let mut i: usize = 0;
        while i < n
            invariant
                n == x@.len(),
                y@.len() == n && r@.len() == n && g@.len() == n && b@.len() == n && a@.len() == n && size@.len() == n,
                i <= n,
                positions@.len() == i,
                colors@.len() == i,
                sizes@.len() == i,
                forall|k: int| 0 <= k < i ==> {
                    &&& #[trigger] positions@[k] == [x@[k], y@[k]]
                    &&& colors@[k] == [r@[k], g@[k], b@[k], a@[k]]
                    &&& sizes@[k] == size@[k]
                },
            decreases n - i,
        {
            positions.push([x[i], y[i]]);
            colors.push([r[i], g[i], b[i], a[i]]);
            sizes.push(size[i]);
            i = i + 1;
        }
        Ok(ScatterLayer { positions, colors, sizes, canvas_px, clear_before_draw: true })
    }

    /// Builds a layer from one column-major block holding seven columns of
    /// `n` values each, in the order `x | y | r | g | b | a | size`.
    pub fn from_arrow_block(block: &[u32], n: usize, canvas_px: (u32, u32)) -> (layer: Self)
        requires
            7 * n <= block@.len(),
        ensures
            layer.well_formed(),
            layer.positions@.len() == n,
            forall|i: int| 0 <= i < n ==> {
                &&& #[trigger] layer.positions@[i] == [block@[i], block@[n + i]]
                &&& layer.colors@[i] == [block@[2 * n + i], block@[3 * n + i], block@[4 * n + i], block@[5 * n + i]]
                &&& layer.sizes@[i] == block@[6 * n + i]
            },
            layer.canvas_px == canvas_px,
            layer.clear_before_draw,
    {
        let mut positions: Vec<[u32; 2]> = Vec::new();
        let mut colors: Vec<[u32; 4]> = Vec::new();
        let mut sizes: Vec<u32> = Vec::new();
        let mut i: usize = 0;
        while i < n
            invariant
                7 * n <= block@.len(),
                i <= n,
                positions@.len() == i,
                colors@.len() == i,
                sizes@.len() == i,
                forall|k: int| 0 <= k < i ==> {
                    &&& #[trigger] positions@[k] == [block@[k], block@[n + k]]
                    &&& colors@[k] == [block@[2 * n + k], block@[3 * n + k], block@[4 * n + k], block@[5 * n + k]]
                    &&& sizes@[k] == block@[6 * n + k]
                },
            decreases n - i,
        {
            positions.push([block[i], block[n + i]]);
            colors.push([block[2 * n + i], block[3 * n + i], block[4 * n + i], block[5 * n + i]]);
            sizes.push(block[6 * n + i]);
            i = i + 1;
        }
        let layer = ScatterLayer { positions, colors, sizes, canvas_px, clear_before_draw: true };
        assert forall|k: int| 0 <= k < n implies {
            &&& #[trigger] layer.positions@[k] == [block@[k], block@[n + k]]
            &&& layer.colors@[k] == [block@[2 * n + k], block@[3 * n + k], block@[4 * n + k], block@[5 * n + k]]
            &&& layer.sizes@[k] == block@[6 * n + k]
        } by {
            assert(positions@[k] == [block@[k], block@[n + k]]);
        }
        layer
    }

    /// Builds a layer from interleaved arrays: `positions` holds `(x, y)`
    /// pairs, `colors` four channels per point and `sizes` one size per
    /// point. The canvas is `1 x 1` until the layer joins a scene.
    pub fn from_interleaved(positions: &[u32], colors: &[u32], sizes: &[u32]) -> (res: Result<Self, LayoutError>)
        ensures
            ({
                let n = positions@.len() / 2;
                if positions@.len() % 2 != 0 {
                    res == Err::<Self, LayoutError>(LayoutError::PositionsNotPairs)
                } else if colors@.len() != 4 * n {
                    res == Err::<Self, LayoutError>(LayoutError::ColorsLength)
                } else if sizes@.len() != n {
                    res == Err::<Self, LayoutError>(LayoutError::SizesLength)
                } else {
                    res matches Ok(layer) && {
                        &&& layer.well_formed()
                        &&& layer.positions@.len() == n
                        &&& forall|i: int| 0 <= i < n ==> {
                            &&& #[trigger] layer.positions@[i] == [positions@[2 * i], positions@[2 * i + 1]]
                            &&& layer.colors@[i] == [colors@[4 * i], colors@[4 * i + 1], colors@[4 * i + 2], colors@[4 * i + 3]]
                            &&& layer.sizes@[i] == sizes@[i]
                        }
                        &&& layer.canvas_px == (1u32, 1u32)
                        &&& layer.clear_before_draw
                    }
                }
            }),
    {
        let len = positions.len();
        if len % 2 != 0 {
            return Err(LayoutError::PositionsNotPairs);
        }
        let n = len / 2;
        let clen = colors.len();
        if clen / 4 != n || clen % 4 != 0 {
            return Err(LayoutError::ColorsLength);
        }
        if sizes.len() != n {
            return Err(LayoutError::SizesLength);
        }
        let mut pos: Vec<[u32; 2]> = Vec::new();
        let mut col: Vec<[u32; 4]> = Vec::new();
        let mut siz: Vec<u32> = Vec::new();
        let mut i: usize = 0;
        while i < n
            invariant
                len == positions@.len(),
                n == len / 2,
                len % 2 == 0,
                clen == colors@.len(),
                colors@.len() == 4 * n,
                sizes@.len() == n,
                i <= n,
                pos@.len() == i,
                col@.len() == i,
                siz@.len() == i,
                forall|k: int| 0 <= k < i ==> {
                    &&& #[trigger] pos@[k] == [positions@[2 * k], positions@[2 * k + 1]]
                    &&& col@[k] == [colors@[4 * k], colors@[4 * k + 1], colors@[4 * k + 2], colors@[4 * k + 3]]
                    &&& siz@[k] == sizes@[k]
                },
            decreases n - i,
        {
            pos.push([positions[2 * i], positions[2 * i + 1]]);
            col.push([colors[4 * i], colors[4 * i + 1], colors[4 * i + 2], colors[4 * i + 3]]);
            siz.push(sizes[i]);
            i = i + 1;
        }
        Ok(ScatterLayer { positions: pos, colors: col, sizes: siz, canvas_px: (1, 1), clear_before_draw: true })
    }

    /// The instance records of the layer's points, in order.
    pub open spec fn instance_records(&self) -> Seq<Seq<u32>> {
        Seq::new(
            self.positions@.len(),
            |i: int| instance_record(self.positions@[i], self.colors@[i], self.sizes@[i]),
        )
    }

    /// The instance buffer contents: the records of all points, back to back.
    pub fn instance_words(&self) -> (words: Vec<u32>)
        requires
            self.well_formed(),
            INSTANCE_WORDS * self.positions@.len() <= usize::MAX,
        ensures
            words@ == self.instance_records().flatten_alt(),
    {
        let n = self.positions.len();
        let mut words: Vec<u32> = Vec::new();
        let mut i: usize = 0;
        while i < n
            invariant
                n == self.positions@.len(),
                self.well_formed(),
                i <= n,
                words@ == self.instance_records().take(i as int).flatten_alt(),
            decreases n - i,
        {
            let p = self.positions[i];
            let c = self.colors[i];
            let s = self.sizes[i];
            let ghost before = words@;
            words.push(p[0]);
            words.push(p[1]);
            words.push(0);
            words.push(0);
            words.push(c[0]);
            words.push(c[1]);
            words.push(c[2]);
            words.push(c[3]);
            words.push(s);
            words.push(0);
            words.push(0);
            words.push(0);
            proof {
                let recs = self.instance_records();
                assert(recs.take(i + 1).drop_last() =~= recs.take(i as int));
                assert(words@ =~= before + instance_record(p, c, s));
            }
            i = i + 1;
        }
        assert(self.instance_records().take(n as int) =~= self.instance_records());
        words
    }
}

/// The layer as it joins a stack: drawn at the stack's canvas size, and
/// clearing the target only when it is the first layer.
pub open spec fn joined(layer: ScatterLayer, canvas_px: (u32, u32), first: bool) -> ScatterLayer {
    ScatterLayer {
        canvas_px,
        clear_before_draw: if first { layer.clear_before_draw } else { false },
        ..layer
    }
}

/// Scatter layers drawn in order onto one target of a fixed size. Only the
/// first layer may clear the target, so later layers composite over it.
pub struct LayerStack {
    canvas_px: (u32, u32),
    layers: Vec<ScatterLayer>,
}

impl LayerStack {
    /// Every layer is drawn at the stack's canvas size and no layer after
    /// the first clears the target.
    #[verifier::type_invariant]
    closed spec fn composited(self) -> bool {
        forall|i: int| 0 <= i < self.layers@.len() ==> {
            &&& (#[trigger] self.layers@[i]).canvas_px == self.canvas_px
            &&& (i > 0 ==> !self.layers@[i].clear_before_draw)
        }
    }

    /// The canvas size of the stack.
    pub closed spec fn canvas(self) -> (u32, u32) {
        self.canvas_px
    }

    /// The layers, in drawing order.
    pub closed spec fn layer_seq(self) -> Seq<ScatterLayer> {
        self.layers@
    }

    /// An empty stack for a target of `canvas_px` pixels.
    pub fn new(canvas_px: (u32, u32)) -> (s: Self)
        ensures
            s.canvas() == canvas_px,
            s.layer_seq().len() == 0,
    {
        LayerStack { canvas_px, layers: Vec::new() }
    }

    /// Canvas size in pixels.
    pub fn canvas_px(&self) -> (c: (u32, u32))
        ensures
            c == self.canvas(),
    {
        self.canvas_px
    }

    /// Number of layers.
    pub fn len(&self) -> (n: usize)
        ensures
            n == self.layer_seq().len(),
    {
        self.layers.len()
    }

    /// Whether the stack has no layers.
    pub fn is_empty(&self) -> (b: bool)
        ensures
            b <==> self.layer_seq().len() == 0,
    {
        self.layers.len() == 0
    }

    /// The layers in drawing order; each is drawn at the stack's canvas size
    /// and none after the first clears the target.
    pub fn layers(&self) -> (ls: &Vec<ScatterLayer>)
        ensures
            ls@ == self.layer_seq(),
            forall|i: int| 0 <= i < ls@.len() ==> (#[trigger] ls@[i]).canvas_px == self.canvas(),
            forall|i: int| 0 < i < ls@.len() ==> !(#[trigger] ls@[i]).clear_before_draw,
    {
        proof {
            use_type_invariant(self);
        }
        &self.layers
    }

    /// Appends a layer on top: it takes the stack's canvas size, and it
    /// keeps the existing contents unless it is the first layer.
    pub fn add_layer(&mut self, layer: ScatterLayer)
        ensures
            final(self).canvas() == old(self).canvas(),
            final(self).layer_seq() == old(self).layer_seq().push(
                joined(layer, old(self).canvas(), old(self).layer_seq().len() == 0),
            ),
    {
        proof {
            use_type_invariant(&*self);
        }
        let mut layer = layer;
        layer.set_canvas_px(self.canvas_px);
        if self.layers.len() != 0 {
            layer.set_clear_before_draw(false);
        }
        let mut layers: Vec<ScatterLayer> = Vec::new();
        std::mem::swap(&mut layers, &mut self.layers);
        layers.push(layer);
        self.layers = layers;
    }

    /// Removes all layers.
    pub fn clear(&mut self)
        ensures
            final(self).canvas() == old(self).canvas(),
            final(self).layer_seq().len() == 0,
    {
        self.layers = Vec::new();
    }
}

} // verus!
