use vstd::prelude::*;

verus! {

/// Whether `(x, y, z)` lies inside three half-open coordinate ranges.
pub open spec fn in_ranges(
    dim_x: (i32, i32),
    dim_y: (i32, i32),
    dim_z: (i32, i32),
    x: i32,
    y: i32,
    z: i32,
) -> bool {
    &&& dim_x.0 <= x < dim_x.1
    &&& dim_y.0 <= y < dim_y.1
    &&& dim_z.0 <= z < dim_z.1
}

/// Whether `(x, y, z)` lies inside three half-open coordinate ranges.
pub fn ranges_contain(
    dim_x: (i32, i32),
    dim_y: (i32, i32),
    dim_z: (i32, i32),
    x: i32,
    y: i32,
    z: i32,
) -> (inside: bool)
    ensures
        inside == in_ranges(dim_x, dim_y, dim_z, x, y, z),
{
    x >= dim_x.0 && y >= dim_y.0 && z >= dim_z.0 && x < dim_x.1 && y < dim_y.1 && z < dim_z.1
}

/// A value that can be stored in one cell of a voxel grid.
pub trait Voxel: PartialEq + Eq + Copy + Default {

}

/// Read and write access to a box-shaped grid of voxels.
///
/// Along each axis the grid covers a half-open range of coordinates, reported
/// as `(low, high)`.
pub trait VoxelData<T: Voxel> {
    /// The range of x coordinates, as `dim_x` reports it.
    spec fn spec_dim_x(&self) -> (i32, i32);

    /// The range of y coordinates, as `dim_y` reports it.
    spec fn spec_dim_y(&self) -> (i32, i32);

    /// The range of z coordinates, as `dim_z` reports it.
    spec fn spec_dim_z(&self) -> (i32, i32);

    /// The voxel stored at a coordinate; meaningful inside the grid only.
    spec fn voxel(&self, x: i32, y: i32, z: i32) -> T;

    fn dim_x(&self) -> (r: (i32, i32))
        ensures
            r == self.spec_dim_x(),
    ;

    fn dim_y(&self) -> (r: (i32, i32))
        ensures
            r == self.spec_dim_y(),
    ;

    fn dim_z(&self) -> (r: (i32, i32))
        ensures
            r == self.spec_dim_z(),
    ;

    /// The voxel at `(x, y, z)`, or `None` outside the grid.
    fn at<'a>(&'a self, x: i32, y: i32, z: i32) -> (r: Option<&'a T>)
        ensures
            r == (if in_ranges(self.spec_dim_x(), self.spec_dim_y(), self.spec_dim_z(), x, y, z) {
                Some(&self.voxel(x, y, z))
            } else {
                None::<&T>
            }),
    ;

    /// A handle to overwrite the voxel at `(x, y, z)`, or `None` outside the
    /// grid. Writing through the handle changes that one voxel and nothing else.
    fn at_mut<'a>(&'a mut self, x: i32, y: i32, z: i32) -> (r: Option<&'a mut T>)
        ensures
            final(self).spec_dim_x() == old(self).spec_dim_x(),
            final(self).spec_dim_y() == old(self).spec_dim_y(),
            final(self).spec_dim_z() == old(self).spec_dim_z(),
            r.is_some() == in_ranges(
                old(self).spec_dim_x(),
                old(self).spec_dim_y(),
                old(self).spec_dim_z(),
                x,
                y,
                z,
            ),
            match r {
                Some(cell) => {
                    &&& *cell == old(self).voxel(x, y, z)
                    &&& final(self).voxel(x, y, z) == *final(cell)
                },
                None => true,
            },
            forall|i: i32, j: i32, k: i32|
                in_ranges(
                    old(self).spec_dim_x(),
                    old(self).spec_dim_y(),
                    old(self).spec_dim_z(),
                    i,
                    j,
                    k,
                ) && !(r.is_some() && i == x && j == y && k == z)
                    ==> #[trigger] final(self).voxel(i, j, k) == old(self).voxel(i, j, k),
    ;
}

/// A voxel format: a grid that can be walked voxel by voxel and rebuilt from
/// such a walk.
pub trait VoxelFormat<T: Voxel>: VoxelData<T> + IntoVoxelIterator<Item = T> + FromVoxelIterator<
    T,
> {

}

/// A grid whose voxels can be handed out as one contiguous block.
pub trait RawVoxelData<T: Voxel>: VoxelData<T> {
    /// The voxels as one block: x-major, then y, with z running fastest.
    spec fn spec_raw(&self) -> Seq<T>;

    /// A copy of the voxels in the order of `spec_raw`.
    fn get_raw(&self) -> (raw: Vec<T>)
        ensures
            raw@ == self.spec_raw(),
    ;
}

/// A voxel format with contiguous storage.
pub trait RawVoxelFormat<T: Voxel>: VoxelFormat<T> + RawVoxelData<T> {

}

/// A walk over the voxels of a grid, together with the ranges of that grid.
pub trait VoxelIterator<T: Voxel> {
    /// The voxels that `next` has yet to hand out, in order.
    spec fn remaining(&self) -> Seq<T>;

    /// The number that `len` reports.
    spec fn spec_len(&self) -> usize;

    spec fn spec_dim_x(&self) -> (i32, i32);

    spec fn spec_dim_y(&self) -> (i32, i32);

    spec fn spec_dim_z(&self) -> (i32, i32);

    /// Hands out the next voxel, or `None` once the walk is over.
    fn next(&mut self) -> (item: Option<T>)
        ensures
            final(self).spec_dim_x() == old(self).spec_dim_x(),
            final(self).spec_dim_y() == old(self).spec_dim_y(),
            final(self).spec_dim_z() == old(self).spec_dim_z(),
            final(self).spec_len() == old(self).spec_len(),
            match item {
                Some(v) => {
                    &&& old(self).remaining().len() > 0
                    &&& v == old(self).remaining()[0]
                    &&& final(self).remaining() == old(self).remaining().skip(1)
                },
                None => {
                    &&& old(self).remaining().len() == 0
                    &&& final(self).remaining() == old(self).remaining()
                },
            },
    ;

    /// The number of voxels in the grid being walked.
    fn len(&self) -> (n: usize)
        ensures
            n == self.spec_len(),
    ;

    fn dim_x(&self) -> (r: (i32, i32))
        ensures
            r == self.spec_dim_x(),
    ;

    fn dim_y(&self) -> (r: (i32, i32))
        ensures
            r == self.spec_dim_y(),
    ;

    fn dim_z(&self) -> (r: (i32, i32))
        ensures
            r == self.spec_dim_z(),
    ;
}

/// A grid that can be turned into a walk over its voxels.
pub trait IntoVoxelIterator: Sized {
    type Item: Voxel;

    type IntoIter: VoxelIterator<Self::Item>;

    /// The voxels in the order in which the walk hands them out.
    spec fn voxels(&self) -> Seq<Self::Item>;

    spec fn span_x(&self) -> (i32, i32);

    spec fn span_y(&self) -> (i32, i32);

    spec fn span_z(&self) -> (i32, i32);

    fn into_iter(self) -> (iter: Self::IntoIter)
        ensures
            iter.remaining() == self.voxels(),
            iter.spec_dim_x() == self.span_x(),
            iter.spec_dim_y() == self.span_y(),
            iter.spec_dim_z() == self.span_z(),
    ;
}

/// A grid that can be built from a walk over voxels.
pub trait FromVoxelIterator<A: Voxel>: Sized {
    /// Whether a walk with these ranges and voxels fits this kind of grid.
    spec fn accepts(dim_x: (i32, i32), dim_y: (i32, i32), dim_z: (i32, i32), voxels: Seq<A>) -> bool;

    /// Whether this grid is the one built from a walk with these ranges and
    /// voxels.
    spec fn built_from(
        &self,
        dim_x: (i32, i32),
        dim_y: (i32, i32),
        dim_z: (i32, i32),
        voxels: Seq<A>,
    ) -> bool;

    fn from_iter<I>(iter: I) -> (built: Self) where I: IntoVoxelIterator<Item = A>
        requires
            Self::accepts(iter.span_x(), iter.span_y(), iter.span_z(), iter.voxels()),
        ensures
            built.built_from(iter.span_x(), iter.span_y(), iter.span_z(), iter.voxels()),
    ;
}

/// Whether `(x, y, z)` lies inside the ranges that `voxels` reports.
pub open spec fn spec_contains<V: Voxel, T: VoxelData<V> + ?Sized>(
    voxels: &T,
    x: i32,
    y: i32,
    z: i32,
) -> bool {
    in_ranges(voxels.spec_dim_x(), voxels.spec_dim_y(), voxels.spec_dim_z(), x, y, z)
}

/// Whether `(x, y, z)` lies inside the ranges that `voxels` reports.
pub fn contains<V: Voxel, T: VoxelData<V>>(voxels: &T, x: i32, y: i32, z: i32) -> (inside: bool)
    ensures
        inside == spec_contains(voxels, x, y, z),
{
    ranges_contain(voxels.dim_x(), voxels.dim_y(), voxels.dim_z(), x, y, z)
}

/// An RGBA colour, one byte per channel.
#[derive(PartialEq, Eq, Clone, Copy, Debug, Structural)]
pub struct Color {
    pub r: u8,
    pub g: u8,
    pub b: u8,
    pub a: u8,
}

impl Color {
    /// The colour as one little-endian word: red in the lowest byte, alpha in
    /// the highest.
    pub open spec fn packed(self) -> int {
        self.r + 0x100 * self.g + 0x1_0000 * self.b + 0x100_0000 * self.a
    }

    pub fn new(r: u8, g: u8, b: u8, a: u8) -> (c: Self)
        ensures
            c == (Color { r, g, b, a }),
    {
        Color { r, g, b, a }
    }

    /// The colour that a little-endian RGBA word stands for: red is its
    /// lowest byte, alpha its highest.
    pub open spec fn spec_from_uint(x: u32) -> Color {
        Color {
            r: (x % 0x100) as u8,
            g: (x / 0x100 % 0x100) as u8,
            b: (x / 0x1_0000 % 0x100) as u8,
            a: (x / 0x100_0000) as u8,
        }
    }

    /// Unpacking a word and packing the colour again gives the word.
    pub proof fn lemma_pack_unpack(x: u32)
        ensures
            Self::spec_from_uint(x).packed() == x,
    {
    }

    /// Packing a colour and unpacking the word again gives the colour.
    pub proof fn lemma_unpack_pack(c: Color)
        ensures
            0 <= c.packed() <= u32::MAX,
            Self::spec_from_uint(c.packed() as u32) == c,
    {
        let word = c.packed();
        let (r, g, b, a) = (c.r as int, c.g as int, c.b as int, c.a as int);
        vstd::arithmetic::div_mod::lemma_fundamental_div_mod_converse(
            word,
            0x100,
            g + 0x100 * b + 0x1_0000 * a,
            r,
        );
        vstd::arithmetic::div_mod::lemma_fundamental_div_mod_converse(
            g + 0x100 * b + 0x1_0000 * a,
            0x100,
            b + 0x100 * a,
            g,
        );
        vstd::arithmetic::div_mod::lemma_fundamental_div_mod_converse(
            word,
            0x1_0000,
            b + 0x100 * a,
            r + 0x100 * g,
        );
        vstd::arithmetic::div_mod::lemma_fundamental_div_mod_converse(b + 0x100 * a, 0x100, a, b);
        vstd::arithmetic::div_mod::lemma_fundamental_div_mod_converse(
            word,
            0x100_0000,
            a,
            r + 0x100 * g + 0x1_0000 * b,
        );
    }

    /// Unpacks a little-endian RGBA word.
    pub fn from_uint(x: u32) -> (c: Self)
        ensures
            c == Self::spec_from_uint(x),
            c.packed() == x,
    {
        let r: u32 = x & 0x000000FF;
        let g: u32 = (x & 0x0000FF00) >> 8;
        let b: u32 = (x & 0x00FF0000) >> 16;
        let a: u32 = (x & 0xFF000000) >> 24;
        assert(r == x % 0x100 && g == x / 0x100 % 0x100 && b == x / 0x1_0000 % 0x100 && a == x
            / 0x100_0000 && a < 0x100) by (bit_vector)
            requires
                r == x & 0x000000FF,
                g == (x & 0x0000FF00) >> 8,
                b == (x & 0x00FF0000) >> 16,
                a == (x & 0xFF000000) >> 24,
        ;
        Color { r: r as u8, g: g as u8, b: b as u8, a: a as u8 }
    }
}

impl Default for Color {
    /// Transparent black, the empty voxel.
    fn default() -> (c: Self)
        ensures
            c == (Color { r: 0, g: 0, b: 0, a: 0 }),
    {
        Color { r: 0, g: 0, b: 0, a: 0 }
    }
}

impl Voxel for u8 {

}

impl Voxel for i32 {

}

impl Voxel for Color {

}

} // verus!
