use vstd::prelude::*;

use vstd::string::StringSliceAdditionalSpecFns;

use crate::text;

verus! {

/// One voxel sample, stored as 8-bit RGBA channels.
///
/// A voxel with all channels `0` is empty (transparent black); the scene
/// parser always writes opaque voxels (`a == 255`).
#[derive(Clone, Copy, PartialEq, Eq, Structural, Debug)]
pub struct Rgba {
    pub r: u8,
    pub g: u8,
    pub b: u8,
    pub a: u8,
}

impl Rgba {
    /// Transparent black, the value of every cell nobody has written.
    pub fn empty() -> (c: Rgba)
        ensures
            c == (Rgba { r: 0, g: 0, b: 0, a: 0 }),
    {
        Rgba { r: 0, g: 0, b: 0, a: 0 }
    }
}

/// A voxel coordinate inside the volume: `x` indexes the width axis,
/// `y` the height axis, and `z` the length axis.
#[derive(Clone, Copy, PartialEq, Eq, Structural, Debug)]
pub struct VoxelPos {
    pub x: usize,
    pub y: usize,
    pub z: usize,
}

/// The mathematical content of a voxel grid: its dimensions, the flat RGBA
/// byte array, and the positions written since the last mip regeneration.
#[verifier::ext_equal]
pub struct GridView {
    pub width: nat,
    pub height: nat,
    pub length: nat,
    pub data: Seq<u8>,
    pub changed: Seq<VoxelPos>,
}

/// Offset of voxel `p`'s first byte in the flat RGBA array: `x` varies
/// fastest, then `z` along the length axis, then `y` along the height axis.
pub open spec fn spec_flat_index(p: VoxelPos, width: int, length: int) -> int {
    (p.x + width * p.z + p.y * width * length) * 4
}

/// Every term of the flat index stays below the array size, so four bytes
/// starting at the index are in bounds.
pub proof fn lemma_flat_index_bounds(p: VoxelPos, width: int, height: int, length: int)
    requires
        0 <= p.x < width,
        0 <= p.y < height,
        0 <= p.z < length,
    ensures
        0 <= spec_flat_index(p, width, length),
        spec_flat_index(p, width, length) + 4 <= width * height * length * 4,
        p.y * width <= width * height * length,
        p.y * width * length <= width * height * length,
        width * p.z <= width * height * length,
        p.x + width * p.z + p.y * width * length < width * height * length,
{
    let x = p.x as int;
    let y = p.y as int;
    let z = p.z as int;
    assert(0 <= x + width * z + y * width * length && x + width * z + y * width * length < width
        * height * length && y * width <= width * height * length && y * width * length <= width
        * height * length && width * z <= width * height * length) by (nonlinear_arith)
        requires
            0 <= x < width,
            0 <= y < height,
            0 <= z < length,
    ;
}

impl GridView {
    /// Well-formed: the byte array has exactly four bytes per cell, and the
    /// cell count fits the address space.
    pub open spec fn wf(self) -> bool {
        &&& self.data.len() == self.width * self.height * self.length * 4
        &&& self.width * self.height * self.length * 4 <= usize::MAX
    }

    /// Whether `p` names a cell of this grid.
    pub open spec fn in_bounds(self, p: VoxelPos) -> bool {
        &&& (p.x as nat) < self.width
        &&& (p.y as nat) < self.height
        &&& (p.z as nat) < self.length
    }

    /// Offset of voxel `p`'s first byte.
    pub open spec fn flat_index(self, p: VoxelPos) -> int {
        spec_flat_index(p, self.width as int, self.length as int)
    }

    /// The color stored at cell `p`.
    pub open spec fn voxel_at(self, p: VoxelPos) -> Rgba {
        let i = self.flat_index(p);
        Rgba { r: self.data[i], g: self.data[i + 1], b: self.data[i + 2], a: self.data[i + 3] }
    }
}

/// Writing color `c` at cell `p`: the four bytes of the cell change and the
/// position is appended to the dirty list.
pub open spec fn apply_voxel(g: GridView, p: VoxelPos, c: Rgba) -> GridView {
    let i = g.flat_index(p);
    GridView {
        data: g.data.update(i, c.r).update(i + 1, c.g).update(i + 2, c.b).update(i + 3, c.a),
        changed: g.changed.push(p),
        ..g
    }
}

/// Why a scene text was rejected.
#[derive(Clone, Copy, PartialEq, Eq, Structural, Debug)]
pub enum SceneParseError {
    /// The first line does not hold three `x`-separated sizes.
    BadDimensions,
    /// The declared cell count does not fit the address space.
    GridTooLarge,
    /// A voxel line is not a comma-separated list of at least three numbers.
    BadVoxelLine,
    /// A voxel line names a cell outside the declared dimensions.
    VoxelOutOfBounds,
}


/// What the first scene line denotes: three `x`-separated sizes
/// (width, height, length). Parts past the third are ignored.
pub open spec fn spec_parse_dims(line: Seq<u8>) -> Option<(usize, usize, usize)> {
    let parts = text::spec_split(line, text::LOWER_X);
    if parts.len() >= 3 {
        match (text::spec_parse_usize(parts[0]), text::spec_parse_usize(parts[1]),
        text::spec_parse_usize(parts[2])) {
            (Some(w), Some(h), Some(l)) => Some((w, h, l)),
            _ => None,
        }
    } else {
        None
    }
}

/// What a voxel line denotes: spaces dropped, comma-separated numbers, at
/// least three for the position; exactly six add an 8-bit RGB color, any
/// other count leaves the default grey. Voxels are written opaque.
pub open spec fn spec_parse_voxel_line(line: Seq<u8>) -> Option<(VoxelPos, Rgba)> {
    match text::spec_parse_all(
        text::spec_split(text::spec_remove(line, text::SPACE), text::COMMA),
    ) {
        None => None,
        Some(vals) => if vals.len() < 3 {
            None
        } else {
            let pos = VoxelPos { x: vals[0], y: vals[1], z: vals[2] };
            let color = if vals.len() == 6 {
                Rgba {
                    r: (vals[3] % 256) as u8,
                    g: (vals[4] % 256) as u8,
                    b: (vals[5] % 256) as u8,
                    a: 255,
                }
            } else {
                Rgba { r: 125, g: 125, b: 125, a: 255 }
            };
            Some((pos, color))
        },
    }
}

/// Folding the voxel lines over a grid: each line writes one voxel, a bad
/// line or an out-of-range position rejects the whole text.
pub open spec fn spec_apply_lines(g: GridView, lines: Seq<Seq<u8>>) -> Result<
    GridView,
    SceneParseError,
>
    decreases lines.len(),
{
    if lines.len() == 0 {
        Ok(g)
    } else {
        match spec_parse_voxel_line(lines[0]) {
            None => Err(SceneParseError::BadVoxelLine),
            Some((pos, color)) => if !g.in_bounds(pos) {
                Err(SceneParseError::VoxelOutOfBounds)
            } else {
                spec_apply_lines(apply_voxel(g, pos, color), lines.drop_first())
            },
        }
    }
}

/// What a whole scene text denotes: carriage returns dropped, the first
/// line giving the dimensions, every further line one voxel write over an
/// all-transparent grid.
pub open spec fn spec_from_string(bytes: Seq<u8>) -> Result<GridView, SceneParseError> {
    let lines = text::spec_split(text::spec_remove(bytes, text::CARRIAGE_RETURN), text::NEWLINE);
    match spec_parse_dims(lines[0]) {
        None => Err(SceneParseError::BadDimensions),
        Some((w, h, l)) => if w * h * l * 4 > usize::MAX {
            Err(SceneParseError::GridTooLarge)
        } else {
            spec_apply_lines(
                GridView {
                    width: w as nat,
                    height: h as nat,
                    length: l as nat,
                    data: Seq::new((w * h * l * 4) as nat, |i: int| 0u8),
                    changed: Seq::empty(),
                },
                lines.drop_first(),
            )
        },
    }
}

/// A sparse 3-D density/color volume on the host: the base (level 0) data
/// the voxelizer writes, together with the dirty list the mip regeneration
/// consumes.
#[derive(Debug)]
pub struct VoxelGrid {
    width: usize,
    height: usize,
    length: usize,
    data: Vec<u8>,
    changed_voxels: Vec<VoxelPos>,
}

impl View for VoxelGrid {
    type V = GridView;

    closed spec fn view(&self) -> GridView {
        GridView {
            width: self.width as nat,
            height: self.height as nat,
            length: self.length as nat,
            data: self.data@,
            changed: self.changed_voxels@,
        }
    }
}

/// Offset of voxel `pos`'s first byte in a grid of dimensions
/// `(width, height, length)`.
fn grid_position(pos: VoxelPos, size: (usize, usize, usize)) -> (r: usize)
    requires
        pos.x < size.0,
        pos.y < size.1,
        pos.z < size.2,
        size.0 * size.1 * size.2 * 4 <= usize::MAX,
    ensures
        r == spec_flat_index(pos, size.0 as int, size.2 as int),
        r + 4 <= size.0 * size.1 * size.2 * 4,
{
    proof {
        lemma_flat_index_bounds(pos, size.0 as int, size.1 as int, size.2 as int);
    }
    (pos.x + size.0 * pos.z + pos.y * size.0 * size.2) * 4
}

impl VoxelGrid {
    /// Width of the volume (its `x` extent in cells).
    pub fn width(&self) -> (r: usize)
        ensures
            r == self@.width,
    {
        self.width
    }

    /// Height of the volume (its `y` extent in cells).
    pub fn height(&self) -> (r: usize)
        ensures
            r == self@.height,
    {
        self.height
    }

    /// Length of the volume (its `z` extent in cells).
    pub fn length(&self) -> (r: usize)
        ensures
            r == self@.length,
    {
        self.length
    }

    /// The flat RGBA byte array of the base level, four bytes per cell;
    /// this is what a device owner uploads into the volume texture.
    pub fn data(&self) -> (r: &Vec<u8>)
        ensures
            r@ == self@.data,
    {
        &self.data
    }

    /// The positions written since the last mip regeneration, in write
    /// order, duplicates included.
    pub fn changed_voxels(&self) -> (r: &Vec<VoxelPos>)
        ensures
            r@ == self@.changed,
    {
        &self.changed_voxels
    }

    /// The color stored at cell `pos`.
    pub fn get_voxel(&self, pos: VoxelPos) -> (c: Rgba)
        requires
            self@.wf(),
            self@.in_bounds(pos),
        ensures
            c == self@.voxel_at(pos),
    {
        let i = grid_position(pos, (self.width, self.height, self.length));
        Rgba { r: self.data[i], g: self.data[i + 1], b: self.data[i + 2], a: self.data[i + 3] }
    }

    /// Write color `color` at cell `pos` and record the cell as dirty.
    pub fn set_data(&mut self, pos: VoxelPos, color: Rgba)
        requires
            old(self)@.wf(),
            old(self)@.in_bounds(pos),
        ensures
            final(self)@ == apply_voxel(old(self)@, pos, color),
            final(self)@.wf(),
    {
        self.changed_voxels.push(pos);
        let i = grid_position(pos, (self.width, self.height, self.length));
        self.data[i] = color.r;
        self.data[i + 1] = color.g;
        self.data[i + 2] = color.b;
        self.data[i + 3] = color.a;
        proof {
            assert(self@ =~= apply_voxel(old(self)@, pos, color));
        }
    }

    /// Write one voxel. The device owner re-uploads the changed data to the
    /// volume texture afterwards; the host-side effect is `set_data`.
    pub fn set_voxel(&mut self, pos: VoxelPos, color: Rgba)
        requires
            old(self)@.wf(),
            old(self)@.in_bounds(pos),
        ensures
            final(self)@ == apply_voxel(old(self)@, pos, color),
            final(self)@.wf(),
    {
        self.set_data(pos, color);
    }

    /// Hand over the dirty list and clear it: the mip regeneration consumes
    /// the list once per frame.
    pub fn take_changed(&mut self) -> (r: Vec<VoxelPos>)
        ensures
            r@ == old(self)@.changed,
            final(self)@ == (GridView { changed: Seq::empty(), ..old(self)@ }),
    {
        let n = self.changed_voxels.len();
        let mut out: Vec<VoxelPos> = Vec::new();
        let mut i: usize = 0;
        while i < n
            invariant
                n == self.changed_voxels@.len(),
                i <= n,
                out@ == self.changed_voxels@.subrange(0, i as int),
            decreases n - i,
        {
            out.push(self.changed_voxels[i]);
            proof {
                assert(out@ =~= self.changed_voxels@.subrange(0, i + 1));
            }
            i += 1;
        }
        self.changed_voxels.clear();
        proof {
            assert(out@ =~= old(self)@.changed);
            assert(self@ =~= (GridView { changed: Seq::empty(), ..old(self)@ }));
        }
        out
    }


    /// Parse a scene text: a first line `WIDTHxHEIGHTxLENGTH`, then one
    /// voxel per line as `x,y,z` or `x,y,z,r,g,b`. Every written voxel is
    /// also recorded in the dirty list, so the first mip regeneration sees
    /// the whole initial scene.
    pub fn from_string(text_data: &str) -> (r: Result<VoxelGrid, SceneParseError>)
        ensures
            match r {
                Ok(g) => g@.wf() && spec_from_string(text_data.spec_bytes()) == Ok::<
                    GridView,
                    SceneParseError,
                >(g@),
                Err(e) => spec_from_string(text_data.spec_bytes()) == Err::<
                    GridView,
                    SceneParseError,
                >(e),
            },
    {
        let bytes = text_data.as_bytes();
        let ghost sbytes = bytes@;
        let cleaned = text::remove_all(bytes, text::CARRIAGE_RETURN);
        let lines = text::split_bytes(cleaned.as_slice(), text::NEWLINE);
        let ghost lv = lines.deep_view();
        proof {
            assert(lv.len() == lines@.len());
            assert(lv[0] == lines@[0]@);
        }
        let dims_parts = text::split_bytes(lines[0].as_slice(), text::LOWER_X);
        let ghost dv = dims_parts.deep_view();
        if dims_parts.len() < 3 {
            return Err(SceneParseError::BadDimensions);
        }
        proof {
            assert(dv[0] == dims_parts@[0]@);
            assert(dv[1] == dims_parts@[1]@);
            assert(dv[2] == dims_parts@[2]@);
        }
        let w = match text::parse_usize(dims_parts[0].as_slice()) {
            Some(v) => v,
            None => {
                return Err(SceneParseError::BadDimensions);
            },
        };
        let h = match text::parse_usize(dims_parts[1].as_slice()) {
            Some(v) => v,
            None => {
                return Err(SceneParseError::BadDimensions);
            },
        };
        let l = match text::parse_usize(dims_parts[2].as_slice()) {
            Some(v) => v,
            None => {
                return Err(SceneParseError::BadDimensions);
            },
        };
        proof {
            assert(spec_parse_dims(lv[0]) == Some((w, h, l)));
        }
        let total: usize = if w == 0 || h == 0 || l == 0 {
            proof {
                assert(w * h * l * 4 == 0) by (nonlinear_arith)
                    requires
                        w == 0 || h == 0 || l == 0,
                ;
            }
            0
        } else {
            let m1 = match w.checked_mul(h) {
                Some(v) => v,
                None => {
                    proof {
                        assert(w * h * l * 4 > usize::MAX) by (nonlinear_arith)
                            requires
                                w * h > usize::MAX,
                                l >= 1,
                        ;
                    }
                    return Err(SceneParseError::GridTooLarge);
                },
            };
            let m2 = match m1.checked_mul(l) {
                Some(v) => v,
                None => {
                    proof {
                        assert(w * h * l * 4 > usize::MAX) by (nonlinear_arith)
                            requires
                                w * h * l > usize::MAX,
                        ;
                    }
                    return Err(SceneParseError::GridTooLarge);
                },
            };
            match m2.checked_mul(4) {
                Some(v) => v,
                None => {
                    return Err(SceneParseError::GridTooLarge);
                },
            }
        };
        let data = vec![0u8; total];
        proof {
            assert(data@ =~= Seq::new((w * h * l * 4) as nat, |i: int| 0u8));
        }
        let mut grid = VoxelGrid {
            width: w,
            height: h,
            length: l,
            data,
            changed_voxels: Vec::new(),
        };
        proof {
            assert(grid@ =~= (GridView {
                width: w as nat,
                height: h as nat,
                length: l as nat,
                data: Seq::new((w * h * l * 4) as nat, |i: int| 0u8),
                changed: Seq::empty(),
            }));
            assert(lv.skip(1) =~= lv.drop_first());
        }
        let nl = lines.len();
        let mut i: usize = 1;
        while i < nl
            invariant
                nl == lines@.len(),
                lv == lines.deep_view(),
                1 <= i <= nl,
                sbytes == text_data.spec_bytes(),
                grid@.wf(),
                grid@.width == w as nat,
                grid@.height == h as nat,
                grid@.length == l as nat,
                spec_from_string(sbytes) == spec_apply_lines(grid@, lv.skip(i as int)),
            decreases nl - i,
        {
            let ghost tail = lv.skip(i as int);
            proof {
                assert(tail[0] == lv[i as int]);
                assert(lv[i as int] == lines@[i as int]@);
                assert(tail.drop_first() =~= lv.skip(i + 1));
            }
            let cleaned_line = text::remove_all(lines[i].as_slice(), text::SPACE);
            let parts = text::split_bytes(cleaned_line.as_slice(), text::COMMA);
            proof {
                assert(tail.len() > 0);
                assert(parts.deep_view() == text::spec_split(
                    text::spec_remove(tail[0], text::SPACE),
                    text::COMMA,
                ));
            }
            let vals = match text::parse_all(&parts) {
                Some(v) => v,
                None => {
                    proof {
                        assert(spec_parse_voxel_line(tail[0]) is None);
                    }
                    return Err(SceneParseError::BadVoxelLine);
                },
            };
            if vals.len() < 3 {
                proof {
                    assert(spec_parse_voxel_line(tail[0]) is None);
                }
                return Err(SceneParseError::BadVoxelLine);
            }
            let pos = VoxelPos { x: vals[0], y: vals[1], z: vals[2] };
            let color = if vals.len() == 6 {
                Rgba {
                    r: (vals[3] % 256) as u8,
                    g: (vals[4] % 256) as u8,
                    b: (vals[5] % 256) as u8,
                    a: 255,
                }
            } else {
                Rgba { r: 125, g: 125, b: 125, a: 255 }
            };
            proof {
                assert(spec_parse_voxel_line(tail[0]) == Some((pos, color)));
            }
            if !(pos.x < w && pos.y < h && pos.z < l) {
                return Err(SceneParseError::VoxelOutOfBounds);
            }
            grid.set_data(pos, color);
            i += 1;
        }
        proof {
            assert(lv.skip(nl as int) =~= Seq::<Seq<u8>>::empty());
        }
        Ok(grid)
    }

    /// How many mip levels the volume carries above the base level.
    pub fn get_mip_levels(&self) -> (r: u32)
        ensures
            r as nat == crate::mips::spec_mip_levels(self@.width, self@.height, self@.length),
    {
        crate::mips::mip_level_count(self.width, self.height, self.length)
    }
}

} // verus!
