use super::common::ranges_contain;
use super::common::in_ranges;
use super::common::FromVoxelIterator;
use super::common::IntoVoxelIterator;
use super::common::RawVoxelData;
use super::common::RawVoxelFormat;
use super::common::Voxel;
use super::common::VoxelData;
use super::common::VoxelFormat;
use super::common::VoxelIterator;
use vstd::prelude::*;

verus! {

/// Whether a grid of these extents can be addressed: every extent fits the
/// signed coordinates of `VoxelData`, and the voxel count fits `usize`.
pub open spec fn valid_extent(dim_x: int, dim_y: int, dim_z: int) -> bool {
    &&& 0 <= dim_x <= i32::MAX
    &&& 0 <= dim_y <= i32::MAX
    &&& 0 <= dim_z <= i32::MAX
    &&& dim_x * dim_y * dim_z <= usize::MAX
}

/// Position of `(x, y, z)` in x-major order: z runs fastest, then y, then x.
pub open spec fn linear_index(dim_y: int, dim_z: int, x: int, y: int, z: int) -> int {
    z + dim_z * (y + dim_y * x)
}

/// The x coordinate of the voxel at position `i` in x-major order.
pub open spec fn coord_x(dim_y: int, dim_z: int, i: int) -> int {
    i / dim_z / dim_y
}

/// The y coordinate of the voxel at position `i` in x-major order.
pub open spec fn coord_y(dim_y: int, dim_z: int, i: int) -> int {
    (i / dim_z) % dim_y
}

/// The z coordinate of the voxel at position `i` in x-major order.
pub open spec fn coord_z(dim_z: int, i: int) -> int {
    i % dim_z
}

/// Every coordinate inside the grid has a position below the voxel count,
/// and the coordinates can be read back from that position.
pub proof fn lemma_index_of_coords(dim_x: int, dim_y: int, dim_z: int, x: int, y: int, z: int)
    requires
        0 <= x < dim_x,
        0 <= y < dim_y,
        0 <= z < dim_z,
    ensures
        0 <= y + dim_y * x < dim_x * dim_y,
        0 <= linear_index(dim_y, dim_z, x, y, z) < dim_x * dim_y * dim_z,
        coord_x(dim_y, dim_z, linear_index(dim_y, dim_z, x, y, z)) == x,
        coord_y(dim_y, dim_z, linear_index(dim_y, dim_z, x, y, z)) == y,
        coord_z(dim_z, linear_index(dim_y, dim_z, x, y, z)) == z,
{
    let row = y + dim_y * x;
    let i = z + dim_z * row;
    assert(0 <= row < dim_x * dim_y) by (nonlinear_arith)
        requires
            0 <= x < dim_x,
            0 <= y < dim_y,
            row == y + dim_y * x,
    ;
    assert(0 <= i < dim_x * dim_y * dim_z) by (nonlinear_arith)
        requires
            0 <= row < dim_x * dim_y,
            0 <= z < dim_z,
            i == z + dim_z * row,
    ;
    vstd::arithmetic::div_mod::lemma_fundamental_div_mod_converse(i, dim_z, row, z);
    vstd::arithmetic::div_mod::lemma_fundamental_div_mod_converse(row, dim_y, x, y);
}

/// Every position below the voxel count belongs to exactly one coordinate
/// inside the grid.
pub proof fn lemma_coords_of_index(dim_x: int, dim_y: int, dim_z: int, i: int)
    requires
        0 <= dim_x,
        0 <= dim_y,
        0 <= dim_z,
        0 <= i < dim_x * dim_y * dim_z,
    ensures
        0 < dim_y,
        0 < dim_z,
        0 <= coord_x(dim_y, dim_z, i) < dim_x,
        0 <= coord_y(dim_y, dim_z, i) < dim_y,
        0 <= coord_z(dim_z, i) < dim_z,
        linear_index(dim_y, dim_z, coord_x(dim_y, dim_z, i), coord_y(dim_y, dim_z, i), coord_z(dim_z, i))
            == i,
{
    assert(0 < dim_y && 0 < dim_z) by (nonlinear_arith)
        requires
            0 <= dim_x,
            0 <= dim_y,
            0 <= dim_z,
            0 < dim_x * dim_y * dim_z,
    ;
    let row = i / dim_z;
    vstd::arithmetic::div_mod::lemma_fundamental_div_mod(i, dim_z);
    vstd::arithmetic::div_mod::lemma_mod_bound(i, dim_z);
    vstd::arithmetic::div_mod::lemma_div_pos_is_pos(i, dim_z);
    assert(row < dim_x * dim_y) by (nonlinear_arith)
        requires
            0 < dim_z,
            i < dim_x * dim_y * dim_z,
            i == dim_z * row + (i % dim_z),
            0 <= i % dim_z,
    ;
    vstd::arithmetic::div_mod::lemma_fundamental_div_mod(row, dim_y);
    vstd::arithmetic::div_mod::lemma_mod_bound(row, dim_y);
    vstd::arithmetic::div_mod::lemma_div_pos_is_pos(row, dim_y);
    assert(row / dim_y < dim_x) by (nonlinear_arith)
        requires
            0 < dim_y,
            row < dim_x * dim_y,
            row == dim_y * (row / dim_y) + (row % dim_y),
            0 <= row % dim_y,
    ;
}

/// The number of voxels in a grid of the given extents.
fn volume(dim_x: usize, dim_y: usize, dim_z: usize) -> (n: usize)
    requires
        dim_x * dim_y * dim_z <= usize::MAX,
    ensures
        n == dim_x * dim_y * dim_z,
{
    if dim_x == 0 || dim_y == 0 || dim_z == 0 {
        assert(dim_x * dim_y * dim_z == 0) by (nonlinear_arith)
            requires
                dim_x == 0 || dim_y == 0 || dim_z == 0,
        ;
        0
    } else {
        assert(dim_x * dim_y <= dim_x * dim_y * dim_z) by (nonlinear_arith)
            requires
                0 <= dim_x,
                0 <= dim_y,
                1 <= dim_z,
        ;
        dim_x * dim_y * dim_z
    }
}

/// The cell at `(x, y, z)` of nested arrays, for writing.
fn cell_mut<'a, T, const X: usize, const Y: usize, const Z: usize>(
    data: &'a mut [[[T; Z]; Y]; X],
    x: usize,
    y: usize,
    z: usize,
) -> (cell: &'a mut T)
    requires
        x < X,
        y < Y,
        z < Z,
    ensures
        *cell == old(data)[x as int][y as int][z as int],
        final(data)[x as int][y as int][z as int] == *final(cell),
        forall|i: int, j: int, k: int|
            0 <= i < X && 0 <= j < Y && 0 <= k < Z && !(i == x && j == y && k == z)
                ==> final(data)[i][j][k] == old(data)[i][j][k],
    no_unwind
{
    &mut data[x][y][z]
}

/// A grid whose extents are fixed by its type, stored as nested arrays.
#[derive(PartialEq, Eq, Debug)]
pub struct RawStaticChunk<T: Voxel, const X: usize, const Y: usize, const Z: usize> {
    data: [[[T; Z]; Y]; X],
}

impl<T: Voxel, const X: usize, const Y: usize, const Z: usize> Clone for RawStaticChunk<T, X, Y, Z> {
    fn clone(&self) -> (copy: Self)
        ensures
            copy == *self,
    {
        *self
    }
}

impl<T: Voxel, const X: usize, const Y: usize, const Z: usize> Copy for RawStaticChunk<T, X, Y, Z> {

}

impl<T: Voxel, const X: usize, const Y: usize, const Z: usize> RawStaticChunk<T, X, Y, Z> {
    #[verifier::type_invariant]
    spec fn well_formed(&self) -> bool {
        valid_extent(X as int, Y as int, Z as int)
    }

    /// A grid with every voxel set to `v`.
    pub fn new(v: T) -> (chunk: Self)
        requires
            valid_extent(X as int, Y as int, Z as int),
        ensures
            chunk.voxels() == Seq::new((X * Y * Z) as nat, |i: int| v),
            forall|x: i32, y: i32, z: i32|
                0 <= x < X && 0 <= y < Y && 0 <= z < Z ==> #[trigger] chunk.voxel(x, y, z) == v,
    {
        let chunk = RawStaticChunk { data: [[[v; Z]; Y]; X] };
        proof {
            assert forall|i: int| 0 <= i < X * Y * Z implies chunk.voxels()[i] == v by {
                lemma_coords_of_index(X as int, Y as int, Z as int, i);
            }
            assert(chunk.voxels() =~= Seq::new((X * Y * Z) as nat, |i: int| v));
        }
        chunk
    }
}

impl<T: Voxel, const X: usize, const Y: usize, const Z: usize> VoxelData<T> for RawStaticChunk<
    T,
    X,
    Y,
    Z,
> {
    open spec fn spec_dim_x(&self) -> (i32, i32) {
        (0, X as i32)
    }

    open spec fn spec_dim_y(&self) -> (i32, i32) {
        (0, Y as i32)
    }

    open spec fn spec_dim_z(&self) -> (i32, i32) {
        (0, Z as i32)
    }

    closed spec fn voxel(&self, x: i32, y: i32, z: i32) -> T {
        self.data[x as int][y as int][z as int]
    }

    fn dim_x(&self) -> (r: (i32, i32)) {
        proof {
            use_type_invariant(self);
        }
        (0, X as i32)
    }

    fn dim_y(&self) -> (r: (i32, i32)) {
        proof {
            use_type_invariant(self);
        }
        (0, Y as i32)
    }

    fn dim_z(&self) -> (r: (i32, i32)) {
        proof {
            use_type_invariant(self);
        }
        (0, Z as i32)
    }

    fn at<'a>(&'a self, x: i32, y: i32, z: i32) -> (r: Option<&'a T>) {
        proof {
            use_type_invariant(self);
        }
        if ranges_contain(self.dim_x(), self.dim_y(), self.dim_z(), x, y, z) {
            let x = x as usize;
            let y = y as usize;
            let z = z as usize;
            Some(&self.data[x][y][z])
        } else {
            None
        }
    }

    fn at_mut<'a>(&'a mut self, x: i32, y: i32, z: i32) -> (r: Option<&'a mut T>) {
        proof {
            use_type_invariant(&*self);
        }
        if ranges_contain(self.dim_x(), self.dim_y(), self.dim_z(), x, y, z) {
            let x = x as usize;
            let y = y as usize;
            let z = z as usize;
            Some(cell_mut(&mut self.data, x, y, z))
        } else {
            None
        }
    }
}

impl<T: Voxel, const X: usize, const Y: usize, const Z: usize> RawStaticChunk<T, X, Y, Z> {
    /// A walk visits the voxels in x-major order: the voxel at `(x, y, z)`
    /// comes at position `linear_index(Y, Z, x, y, z)`, and there are
    /// `X * Y * Z` of them.
    pub proof fn lemma_voxels_layout(&self)
        ensures
            self.voxels().len() == X * Y * Z,
            forall|x: i32, y: i32, z: i32|
                0 <= x < X && 0 <= y < Y && 0 <= z < Z ==> self.voxels()[linear_index(
                    Y as int,
                    Z as int,
                    x as int,
                    y as int,
                    z as int,
                )] == #[trigger] self.voxel(x, y, z),
    {
        assert(0 <= X * Y * Z) by (nonlinear_arith);
        assert forall|x: i32, y: i32, z: i32| 0 <= x < X && 0 <= y < Y && 0 <= z < Z implies self.voxels()[linear_index(
            Y as int,
            Z as int,
            x as int,
            y as int,
            z as int,
        )] == #[trigger] self.voxel(x, y, z) by {
            lemma_index_of_coords(X as int, Y as int, Z as int, x as int, y as int, z as int);
        }
    }
}

/// A walk over a `RawStaticChunk` in x-major order.
pub struct RawStaticChunkIter<T: Voxel, const X: usize, const Y: usize, const Z: usize> {
    chunk: RawStaticChunk<T, X, Y, Z>,
    index: usize,
}

impl<T: Voxel, const X: usize, const Y: usize, const Z: usize> RawStaticChunkIter<T, X, Y, Z> {
    #[verifier::type_invariant]
    spec fn well_formed(&self) -> bool {
        &&& valid_extent(X as int, Y as int, Z as int)
        &&& self.index <= X * Y * Z
    }
}

impl<T: Voxel, const X: usize, const Y: usize, const Z: usize> IntoVoxelIterator for RawStaticChunk<
    T,
    X,
    Y,
    Z,
> {
    type Item = T;

    type IntoIter = RawStaticChunkIter<T, X, Y, Z>;

    closed spec fn voxels(&self) -> Seq<T> {
        Seq::new(
            (X * Y * Z) as nat,
            |i: int|
                self.data[coord_x(Y as int, Z as int, i)][coord_y(Y as int, Z as int, i)][coord_z(
                    Z as int,
                    i,
                )],
        )
    }

    open spec fn span_x(&self) -> (i32, i32) {
        (0, X as i32)
    }

    open spec fn span_y(&self) -> (i32, i32) {
        (0, Y as i32)
    }

    open spec fn span_z(&self) -> (i32, i32) {
        (0, Z as i32)
    }

    fn into_iter(self) -> (iter: Self::IntoIter) {
        proof {
            use_type_invariant(&self);
            assert(0 <= X * Y * Z) by (nonlinear_arith);
        }
        let it = RawStaticChunkIter { chunk: self, index: 0 };
        assert(it.remaining() =~= self.voxels());
        it
    }
}

impl<T: Voxel, const X: usize, const Y: usize, const Z: usize> VoxelIterator<
    T,
> for RawStaticChunkIter<T, X, Y, Z> {
    closed spec fn remaining(&self) -> Seq<T> {
        self.chunk.voxels().skip(self.index as int)
    }

    open spec fn spec_len(&self) -> usize {
        (X * Y * Z) as usize
    }

    open spec fn spec_dim_x(&self) -> (i32, i32) {
        (0, X as i32)
    }

    open spec fn spec_dim_y(&self) -> (i32, i32) {
        (0, Y as i32)
    }

    open spec fn spec_dim_z(&self) -> (i32, i32) {
        (0, Z as i32)
    }

    fn next(&mut self) -> (item: Option<T>) {
        proof {
            use_type_invariant(&*self);
        }
        if self.index < volume(X, Y, Z) {
            proof {
                lemma_coords_of_index(X as int, Y as int, Z as int, self.index as int);
            }
            let result = self.chunk.data[self.index / Z / Y][self.index / Z % Y][self.index % Z];
            self.index += 1;
            Some(result)
        } else {
            None
        }
    }

    fn len(&self) -> (n: usize) {
        proof {
            use_type_invariant(self);
        }
        volume(X, Y, Z)
    }

    fn dim_x(&self) -> (r: (i32, i32)) {
        self.chunk.dim_x()
    }

    fn dim_y(&self) -> (r: (i32, i32)) {
        self.chunk.dim_y()
    }

    fn dim_z(&self) -> (r: (i32, i32)) {
        self.chunk.dim_z()
    }
}

impl<T: Voxel, const X: usize, const Y: usize, const Z: usize> FromVoxelIterator<
    T,
> for RawStaticChunk<T, X, Y, Z> {
    /// The walk must hand out exactly as many voxels as the grid has cells;
    /// its ranges are not looked at.
    open spec fn accepts(
        dim_x: (i32, i32),
        dim_y: (i32, i32),
        dim_z: (i32, i32),
        voxels: Seq<T>,
    ) -> bool {
        &&& valid_extent(X as int, Y as int, Z as int)
        &&& voxels.len() == X * Y * Z
    }

    /// The grid holds the voxels of the walk, in the same order.
    open spec fn built_from(
        &self,
        dim_x: (i32, i32),
        dim_y: (i32, i32),
        dim_z: (i32, i32),
        voxels: Seq<T>,
    ) -> bool {
        self.voxels() == voxels
    }

    fn from_iter<I>(iter: I) -> (built: Self) where I: IntoVoxelIterator<Item = T> {
        let ghost all = iter.voxels();
        let mut chunk = RawStaticChunk::<T, X, Y, Z>::new(T::default());
        let mut walk = iter.into_iter();
        let mut index: usize = 0;
        let total = volume(X, Y, Z);
        loop
            invariant_except_break
                walk.remaining() == all.skip(index as int),
            invariant
                valid_extent(X as int, Y as int, Z as int),
                total == X * Y * Z,
                all.len() == total,
                index <= total,
                forall|i: int| 0 <= i < index ==> #[trigger] chunk.voxels()[i] == all[i],
            ensures
                index == total,
            decreases total - index,
        {
            match walk.next() {
                Some(v) => {
                    proof {
                        lemma_coords_of_index(X as int, Y as int, Z as int, index as int);
                    }
                    let ghost before = chunk;
                    chunk.data[index / Z / Y][index / Z % Y][index % Z] = v;
                    proof {
                        assert forall|i: int| 0 <= i < index + 1 implies #[trigger] chunk.voxels()[i]
                            == all[i] by {
                            lemma_coords_of_index(X as int, Y as int, Z as int, i);
                            if i < index {
                                assert(before.voxels()[i] == all[i]);
                                lemma_coords_of_index(X as int, Y as int, Z as int, index as int);
                            }
                        }
                    }
                    index += 1;
                },
                None => {
                    break ;
                },
            }
        }
        assert(chunk.voxels() =~= all);
        chunk
    }
}

impl<T: Voxel, const X: usize, const Y: usize, const Z: usize> VoxelFormat<T> for RawStaticChunk<
    T,
    X,
    Y,
    Z,
> {

}

impl<T: Voxel, const X: usize, const Y: usize, const Z: usize> RawVoxelData<T> for RawStaticChunk<
    T,
    X,
    Y,
    Z,
> {
    open spec fn spec_raw(&self) -> Seq<T> {
        self.voxels()
    }

    fn get_raw(&self) -> (raw: Vec<T>) {
        proof {
            use_type_invariant(self);
        }
        let total = volume(X, Y, Z);
        let mut raw: Vec<T> = Vec::new();
        let mut index: usize = 0;
        while index < total
            invariant
                total == X * Y * Z,
                index <= total,
                raw@.len() == index,
                forall|i: int| 0 <= i < index ==> #[trigger] raw@[i] == self.voxels()[i],
            decreases total - index,
        {
            proof {
                lemma_coords_of_index(X as int, Y as int, Z as int, index as int);
            }
            raw.push(self.data[index / Z / Y][index / Z % Y][index % Z]);
            index += 1;
        }
        assert(raw@ =~= self.voxels());
        raw
    }
}

impl<T: Voxel, const X: usize, const Y: usize, const Z: usize> RawVoxelFormat<
    T,
> for RawStaticChunk<T, X, Y, Z> {

}

/// The element at position `index` of a vector, for writing.
fn element_mut<'a, T>(data: &'a mut Vec<T>, index: usize) -> (element: &'a mut T)
    requires
        index < old(data)@.len(),
    ensures
        *element == old(data)@[index as int],
        final(data)@ == old(data)@.update(index as int, *final(element)),
    no_unwind
{
    &mut data[index]
}

/// A grid whose extents are chosen when it is made, stored as one block in
/// x-major order.
#[derive(PartialEq, Eq, Debug)]
pub struct RawDynamicChunk<T: Voxel> {
    data: Vec<T>,
    dim_x: usize,
    dim_y: usize,
    dim_z: usize,
}

impl<T: Voxel> RawDynamicChunk<T> {
    #[verifier::type_invariant]
    spec fn well_formed(&self) -> bool {
        &&& valid_extent(self.dim_x as int, self.dim_y as int, self.dim_z as int)
        &&& self.data@.len() == self.dim_x * self.dim_y * self.dim_z
    }

    /// A grid of the given extents with every voxel set to `v`.
    pub fn new(dim_x: usize, dim_y: usize, dim_z: usize, v: T) -> (chunk: Self)
        requires
            valid_extent(dim_x as int, dim_y as int, dim_z as int),
        ensures
            chunk.spec_dim_x() == (0i32, dim_x as i32),
            chunk.spec_dim_y() == (0i32, dim_y as i32),
            chunk.spec_dim_z() == (0i32, dim_z as i32),
            chunk.voxels() == Seq::new((dim_x * dim_y * dim_z) as nat, |i: int| v),
            forall|x: i32, y: i32, z: i32|
                0 <= x < dim_x && 0 <= y < dim_y && 0 <= z < dim_z ==> #[trigger] chunk.voxel(
                    x,
                    y,
                    z,
                ) == v,
    {
        let total = volume(dim_x, dim_y, dim_z);
        let mut data: Vec<T> = Vec::new();
        while data.len() < total
            invariant
                data@.len() <= total,
                forall|i: int| 0 <= i < data@.len() ==> data@[i] == v,
            decreases total - data@.len(),
        {
            data.push(v);
        }
        let chunk = RawDynamicChunk { data, dim_x, dim_y, dim_z };
        proof {
            assert(chunk.voxels() =~= Seq::new((dim_x * dim_y * dim_z) as nat, |i: int| v));
            assert forall|x: i32, y: i32, z: i32|
                0 <= x < dim_x && 0 <= y < dim_y && 0 <= z < dim_z implies #[trigger] chunk.voxel(
                x,
                y,
                z,
            ) == v by {
                lemma_index_of_coords(
                    dim_x as int,
                    dim_y as int,
                    dim_z as int,
                    x as int,
                    y as int,
                    z as int,
                );
            }
        }
        chunk
    }

    /// The position of a coordinate inside the grid in the block of voxels.
    fn position(&self, x: i32, y: i32, z: i32) -> (index: usize)
        requires
            in_ranges(self.spec_dim_x(), self.spec_dim_y(), self.spec_dim_z(), x, y, z),
        ensures
            index == linear_index(self.dim_y as int, self.dim_z as int, x as int, y as int, z as int),
            index < self.data@.len(),
    {
        proof {
            use_type_invariant(self);
            lemma_index_of_coords(
                self.dim_x as int,
                self.dim_y as int,
                self.dim_z as int,
                x as int,
                y as int,
                z as int,
            );
            assert(self.dim_x * self.dim_y <= self.dim_x * self.dim_y * self.dim_z)
                by (nonlinear_arith)
                requires
                    0 <= self.dim_x,
                    0 <= self.dim_y,
                    1 <= self.dim_z,
            ;
        }
        let x = x as usize;
        let y = y as usize;
        let z = z as usize;
        z + self.dim_z * (y + self.dim_y * x)
    }
}

impl<T: Voxel> VoxelData<T> for RawDynamicChunk<T> {
    closed spec fn spec_dim_x(&self) -> (i32, i32) {
        (0, self.dim_x as i32)
    }

    closed spec fn spec_dim_y(&self) -> (i32, i32) {
        (0, self.dim_y as i32)
    }

    closed spec fn spec_dim_z(&self) -> (i32, i32) {
        (0, self.dim_z as i32)
    }

    closed spec fn voxel(&self, x: i32, y: i32, z: i32) -> T {
        self.data@[linear_index(self.dim_y as int, self.dim_z as int, x as int, y as int, z as int)]
    }

    fn dim_x(&self) -> (r: (i32, i32))
        ensures
            r.0 == 0,
            r.1 >= 0,
    {
        proof {
            use_type_invariant(self);
        }
        (0, self.dim_x as i32)
    }

    fn dim_y(&self) -> (r: (i32, i32))
        ensures
            r.0 == 0,
            r.1 >= 0,
    {
        proof {
            use_type_invariant(self);
        }
        (0, self.dim_y as i32)
    }

    fn dim_z(&self) -> (r: (i32, i32))
        ensures
            r.0 == 0,
            r.1 >= 0,
    {
        proof {
            use_type_invariant(self);
        }
        (0, self.dim_z as i32)
    }

    fn at<'a>(&'a self, x: i32, y: i32, z: i32) -> (r: Option<&'a T>) {
        proof {
            use_type_invariant(self);
        }
        if ranges_contain(self.dim_x(), self.dim_y(), self.dim_z(), x, y, z) {
            let index = self.position(x, y, z);
            Some(&self.data[index])
        } else {
            None
        }
    }

    fn at_mut<'a>(&'a mut self, x: i32, y: i32, z: i32) -> (r: Option<&'a mut T>) {
        proof {
            use_type_invariant(&*self);
        }
        if ranges_contain(self.dim_x(), self.dim_y(), self.dim_z(), x, y, z) {
            let index = self.position(x, y, z);
            proof {
                assert forall|i: i32, j: i32, k: i32|
                    in_ranges(self.spec_dim_x(), self.spec_dim_y(), self.spec_dim_z(), i, j, k) && !(i
                        == x && j == y && k == z) implies {
                    let other = #[trigger] linear_index(
                        self.dim_y as int,
                        self.dim_z as int,
                        i as int,
                        j as int,
                        k as int,
                    );
                    0 <= other < self.data@.len() && other != index
                } by {
                    lemma_index_of_coords(
                        self.dim_x as int,
                        self.dim_y as int,
                        self.dim_z as int,
                        i as int,
                        j as int,
                        k as int,
                    );
                    lemma_index_of_coords(
                        self.dim_x as int,
                        self.dim_y as int,
                        self.dim_z as int,
                        x as int,
                        y as int,
                        z as int,
                    );
                }
            }
            Some(element_mut(&mut self.data, index))
        } else {
            None
        }
    }
}

/// A walk over a `RawDynamicChunk` in x-major order.
pub struct RawDynamicChunkIter<T: Voxel> {
    chunk: RawDynamicChunk<T>,
    index: usize,
}

impl<T: Voxel> RawDynamicChunkIter<T> {
    #[verifier::type_invariant]
    spec fn well_formed(&self) -> bool {
        &&& self.chunk.well_formed()
        &&& self.index <= self.chunk.data@.len()
    }
}

impl<T: Voxel> IntoVoxelIterator for RawDynamicChunk<T> {
    type Item = T;

    type IntoIter = RawDynamicChunkIter<T>;

    closed spec fn voxels(&self) -> Seq<T> {
        self.data@
    }

    closed spec fn span_x(&self) -> (i32, i32) {
        (0, self.dim_x as i32)
    }

    closed spec fn span_y(&self) -> (i32, i32) {
        (0, self.dim_y as i32)
    }

    closed spec fn span_z(&self) -> (i32, i32) {
        (0, self.dim_z as i32)
    }

    fn into_iter(self) -> (iter: Self::IntoIter)
        ensures
            self.span_x() == self.spec_dim_x(),
            self.span_y() == self.spec_dim_y(),
            self.span_z() == self.spec_dim_z(),
            self.voxels().len() == self.spec_dim_x().1 * self.spec_dim_y().1 * self.spec_dim_z().1,
            forall|x: i32, y: i32, z: i32|
                in_ranges(self.spec_dim_x(), self.spec_dim_y(), self.spec_dim_z(), x, y, z)
                    ==> self.voxels()[linear_index(
                    self.spec_dim_y().1 as int,
                    self.spec_dim_z().1 as int,
                    x as int,
                    y as int,
                    z as int,
                )] == #[trigger] self.voxel(x, y, z),
    {
        proof {
            use_type_invariant(&self);
        }
        let iter = RawDynamicChunkIter { chunk: self, index: 0 };
        assert(iter.remaining() =~= self.voxels());
        iter
    }
}

impl<T: Voxel> VoxelIterator<T> for RawDynamicChunkIter<T> {
    closed spec fn remaining(&self) -> Seq<T> {
        self.chunk.data@.skip(self.index as int)
    }

    closed spec fn spec_len(&self) -> usize {
        (self.chunk.dim_x * self.chunk.dim_y * self.chunk.dim_z) as usize
    }

    closed spec fn spec_dim_x(&self) -> (i32, i32) {
        (0, self.chunk.dim_x as i32)
    }

    closed spec fn spec_dim_y(&self) -> (i32, i32) {
        (0, self.chunk.dim_y as i32)
    }

    closed spec fn spec_dim_z(&self) -> (i32, i32) {
        (0, self.chunk.dim_z as i32)
    }

    fn next(&mut self) -> (item: Option<T>) {
        proof {
            use_type_invariant(&*self);
        }
        if self.index < volume(self.chunk.dim_x, self.chunk.dim_y, self.chunk.dim_z) {
            let result = self.chunk.data[self.index];
            self.index += 1;
            Some(result)
        } else {
            None
        }
    }

    fn len(&self) -> (n: usize)
        ensures
            n == self.spec_dim_x().1 * self.spec_dim_y().1 * self.spec_dim_z().1,
    {
        proof {
            use_type_invariant(self);
        }
        volume(self.chunk.dim_x, self.chunk.dim_y, self.chunk.dim_z)
    }

    fn dim_x(&self) -> (r: (i32, i32)) {
        proof {
            use_type_invariant(self);
        }
        self.chunk.dim_x()
    }

    fn dim_y(&self) -> (r: (i32, i32)) {
        proof {
            use_type_invariant(self);
        }
        self.chunk.dim_y()
    }

    fn dim_z(&self) -> (r: (i32, i32)) {
        proof {
            use_type_invariant(self);
        }
        self.chunk.dim_z()
    }
}

impl<T: Voxel> FromVoxelIterator<T> for RawDynamicChunk<T> {
    /// The upper ends of the walk's ranges are taken as the extents, so they
    /// must describe an addressable grid, and the walk must hand out exactly
    /// one voxel for each of its cells.
    open spec fn accepts(
        dim_x: (i32, i32),
        dim_y: (i32, i32),
        dim_z: (i32, i32),
        voxels: Seq<T>,
    ) -> bool {
        &&& valid_extent(dim_x.1 as int, dim_y.1 as int, dim_z.1 as int)
        &&& voxels.len() == dim_x.1 * dim_y.1 * dim_z.1
    }

    /// The grid starts at the origin, reaches to the upper ends of the walk's
    /// ranges, and holds the voxels of the walk in the same order.
    open spec fn built_from(
        &self,
        dim_x: (i32, i32),
        dim_y: (i32, i32),
        dim_z: (i32, i32),
        voxels: Seq<T>,
    ) -> bool {
        &&& self.spec_dim_x() == (0i32, dim_x.1)
        &&& self.spec_dim_y() == (0i32, dim_y.1)
        &&& self.spec_dim_z() == (0i32, dim_z.1)
        &&& self.voxels() == voxels
    }

    fn from_iter<I>(iter: I) -> (built: Self) where I: IntoVoxelIterator<Item = T> {
        let ghost all = iter.voxels();
        let mut walk = iter.into_iter();
        let dim_x = walk.dim_x().1 as usize;
        let dim_y = walk.dim_y().1 as usize;
        let dim_z = walk.dim_z().1 as usize;
        let total = volume(dim_x, dim_y, dim_z);
        let mut data: Vec<T> = Vec::new();
        loop
            invariant_except_break
                walk.remaining() == all.skip(data@.len() as int),
            invariant
                all.len() == total,
                data@.len() <= total,
                forall|i: int| 0 <= i < data@.len() ==> data@[i] == all[i],
            ensures
                data@.len() == total,
            decreases total - data@.len(),
        {
            match walk.next() {
                Some(v) => {
                    data.push(v);
                },
                None => {
                    break ;
                },
            }
        }
        let chunk = RawDynamicChunk { data, dim_x, dim_y, dim_z };
        assert(chunk.voxels() =~= all);
        chunk
    }
}

impl<T: Voxel> VoxelFormat<T> for RawDynamicChunk<T> {

}

impl<T: Voxel> RawVoxelData<T> for RawDynamicChunk<T> {
    open spec fn spec_raw(&self) -> Seq<T> {
        self.voxels()
    }

    fn get_raw(&self) -> (raw: Vec<T>)
        ensures
            raw@.len() == self.spec_dim_x().1 * self.spec_dim_y().1 * self.spec_dim_z().1,
            forall|x: i32, y: i32, z: i32|
                in_ranges(self.spec_dim_x(), self.spec_dim_y(), self.spec_dim_z(), x, y, z)
                    ==> raw@[linear_index(
                    self.spec_dim_y().1 as int,
                    self.spec_dim_z().1 as int,
                    x as int,
                    y as int,
                    z as int,
                )] == #[trigger] self.voxel(x, y, z),
    {
        proof {
            use_type_invariant(self);
        }
        let mut raw: Vec<T> = Vec::new();
        let mut index: usize = 0;
        while index < self.data.len()
            invariant
                index <= self.data@.len(),
                raw@ == self.data@.take(index as int),
            decreases self.data@.len() - index,
        {
            raw.push(self.data[index]);
            index += 1;
        }
        assert(raw@ =~= self.data@);
        raw
    }
}

impl<T: Voxel> RawVoxelFormat<T> for RawDynamicChunk<T> {

}

} // verus!
