//! Input rules of the Python and browser entry points.

use vstd::prelude::*;

verus! {

/// Shape errors of the arrays handed to `add_scatter`.
#[derive(Debug, Clone, Copy, PartialEq, Eq, Structural)]
pub enum ShapeError {
    /// Positions are not an `(N, 2)` array.
    Positions,
    /// Colors are not an `(N, 4)` array.
    Colors,
    /// Sizes are not an `(N,)` array.
    Sizes,
}

impl ShapeError {
    /// The message of the error.
    pub fn message(&self) -> (s: String)
        ensures
            self is Positions ==> s@ == "positions must be a 2D array with shape (N, 2)"@,
            self is Colors ==> s@ == "colors must have shape (N, 4) matching positions"@,
            self is Sizes ==> s@ == "sizes must be a 1D array of shape (N,) matching positions"@,
    {
        match self {
            ShapeError::Positions => "positions must be a 2D array with shape (N, 2)".to_owned(),
            ShapeError::Colors => "colors must have shape (N, 4) matching positions".to_owned(),
            ShapeError::Sizes => "sizes must be a 1D array of shape (N,) matching positions".to_owned(),
        }
    }
}

/// Checks the shapes of the position, color and size arrays of a scatter
/// layer and returns the number of points `N`.
pub fn check_scatter_shapes(positions: &[usize], colors: &[usize], sizes: &[usize]) -> (r: Result<usize, ShapeError>)
    ensures
        !(positions@.len() == 2 && positions@[1] == 2) ==> r == Err::<usize, ShapeError>(ShapeError::Positions),
        positions@.len() == 2 && positions@[1] == 2 ==> ({
            let n = positions@[0];
            if colors@ != seq![n, 4usize] {
                r == Err::<usize, ShapeError>(ShapeError::Colors)
            } else if sizes@ != seq![n] {
                r == Err::<usize, ShapeError>(ShapeError::Sizes)
            } else {
                r == Ok::<usize, ShapeError>(n)
            }
        }),
{
    if positions.len() != 2 || positions[1] != 2 {
        return Err(ShapeError::Positions);
    }
    let n = positions[0];
    if colors.len() != 2 || colors[0] != n || colors[1] != 4 {
        proof {
            if colors@ == seq![n, 4usize] {
                assert(colors@[0] == n && colors@[1] == 4);
            }
        }
        return Err(ShapeError::Colors);
    }
    assert(colors@ =~= seq![n, 4usize]);
    if sizes.len() != 1 || sizes[0] != n {
        proof {
            if sizes@ == seq![n] {
                assert(sizes@[0] == n);
            }
        }
        return Err(ShapeError::Sizes);
    }
    assert(sizes@ =~= seq![n]);
    Ok(n)
}

/// Graphics backends a browser scene may use.
#[derive(Debug, Clone, Copy, PartialEq, Eq, Structural)]
pub enum BackendPref {
    /// WebGPU when available, otherwise WebGL.
    All,
    /// WebGPU only.
    WebGpuOnly,
    /// WebGL only.
    GlOnly,
}

impl BackendPref {
    /// Reads a backend preference: `webgpu`, `webgl`, or `all` / `auto` /
    /// empty for the default order; anything else is refused.
    pub fn parse(pref: &str) -> (r: Result<BackendPref, String>)
        ensures
            pref@ == "webgpu"@ ==> r == Ok::<BackendPref, String>(BackendPref::WebGpuOnly),
            pref@ != "webgpu"@ && pref@ == "webgl"@ ==> r == Ok::<BackendPref, String>(BackendPref::GlOnly),
            pref@ != "webgpu"@ && pref@ != "webgl"@ && (pref@ == "all"@ || pref@ == "auto"@ || pref@ == ""@)
                ==> r == Ok::<BackendPref, String>(BackendPref::All),
            pref@ != "webgpu"@ && pref@ != "webgl"@ && pref@ != "all"@ && pref@ != "auto"@ && pref@ != ""@
                ==> (r matches Err(msg) && msg@ == "backend_preference must be 'webgpu', 'webgl', or 'all' / 'auto'"@),
    {
        let p = pref.to_owned();
        if p == "webgpu".to_owned() {
            Ok(BackendPref::WebGpuOnly)
        } else if p == "webgl".to_owned() {
            Ok(BackendPref::GlOnly)
        } else if p == "all".to_owned() || p == "auto".to_owned() || p == "".to_owned() {
            Ok(BackendPref::All)
        } else {
            Err("backend_preference must be 'webgpu', 'webgl', or 'all' / 'auto'".to_owned())
        }
    }
}

} // verus!
