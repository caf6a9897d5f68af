use crate::gen::pager::Chunk;
use crate::gen::pager::CHUNK_VOXEL_SIZE;
use crate::voxel::common::Color;
use crate::voxel::common::VoxelData;
use crate::voxel::rawchunk::coord_x;
use crate::voxel::rawchunk::coord_y;
use crate::voxel::rawchunk::coord_z;
use crate::voxel::rawchunk::lemma_coords_of_index;
use crate::voxel::rawchunk::lemma_index_of_coords;
use crate::voxel::rawchunk::linear_index;
use crate::voxel::rawchunk::RawStaticChunk;
use vstd::prelude::*;

verus! {

/// The radius of the world, in voxels. Nothing is generated further away
/// from the origin.
pub const WORLD_RADIUS: i64 = 100;

/// How far below the surface of the world the top layer reaches, in voxels.
pub const SURFACE_DEPTH: i64 = 4;

/// The colour from which the top layer is shaded.
pub const DIRT: (u8, u8, u8) = (255, 200, 100);

/// The colour from which everything below the top layer is shaded.
pub const STONE: (u8, u8, u8) = (150, 150, 150);

/// The empty voxel: transparent black.
pub open spec fn empty_voxel() -> Color {
    Color { r: 0, g: 0, b: 0, a: 0 }
}

/// Whether a voxel lies inside the world, a ball around the origin.
pub open spec fn in_world(x: int, y: int, z: int) -> bool {
    x * x + y * y + z * z <= WORLD_RADIUS * WORLD_RADIUS
}

/// Whether a voxel belongs to the top layer: the point `SURFACE_DEPTH`
/// voxels down the y axis from it lies outside the world.
pub open spec fn on_surface(x: int, y: int, z: int) -> bool {
    !in_world(x, y - SURFACE_DEPTH, z)
}

/// The colour from which a voxel inside the world is shaded.
pub open spec fn base_color(x: int, y: int, z: int) -> (u8, u8, u8) {
    if on_surface(x, y, z) {
        DIRT
    } else {
        STONE
    }
}

/// Whether a voxel lies inside the world.
fn inside_world(x: i64, y: i64, z: i64) -> (inside: bool)
    requires
        i32::MIN - SURFACE_DEPTH <= x <= i32::MAX,
        i32::MIN - SURFACE_DEPTH <= y <= i32::MAX,
        i32::MIN - SURFACE_DEPTH <= z <= i32::MAX,
    ensures
        inside == in_world(x as int, y as int, z as int),
{
    if x < -WORLD_RADIUS || x > WORLD_RADIUS || y < -WORLD_RADIUS || y > WORLD_RADIUS || z
        < -WORLD_RADIUS || z > WORLD_RADIUS {
        assert(x * x + y * y + z * z > 100 * 100) by (nonlinear_arith)
            requires
                x < -100 || x > 100 || y < -100 || y > 100 || z < -100 || z > 100,
        ;
        false
    } else {
        assert(x * x <= 10000 && y * y <= 10000 && z * z <= 10000 && x * x >= 0 && y * y >= 0 && z
            * z >= 0) by (nonlinear_arith)
            requires
                -100 <= x <= 100,
                -100 <= y <= 100,
                -100 <= z <= 100,
        ;
        x * x + y * y + z * z <= WORLD_RADIUS * WORLD_RADIUS
    }
}

/// Fills chunks with terrain. Where there is terrain is fixed: the world is
/// a ball, and its top layer is dirt over stone. What a voxel inside the
/// world looks like is left to `shade`, which is given the voxel's
/// coordinates and the colour to shade from, and may leave the voxel empty.
pub struct TerrainGenerator<S: Fn(i32, i32, i32, (u8, u8, u8)) -> Color> {
    seed: u32,
    shade: S,
}

impl<S: Fn(i32, i32, i32, (u8, u8, u8)) -> Color> TerrainGenerator<S> {
    /// The seed that the generator was made with.
    pub closed spec fn spec_seed(&self) -> u32 {
        self.seed
    }

    /// The function that shades the voxels.
    pub closed spec fn shader(&self) -> S {
        self.shade
    }

    /// Whether `shade` can be called on every voxel with either base colour.
    pub open spec fn ready(&self) -> bool {
        forall|x: i32, y: i32, z: i32, base: (u8, u8, u8)|
            base == DIRT || base == STONE ==> #[trigger] call_requires(
                self.shader(),
                (x, y, z, base),
            )
    }

    /// Whether `color` is a voxel that the generator can give at
    /// `(x, y, z)`: the empty voxel outside the world, and inside it
    /// whatever `shade` may answer for the voxel's coordinates and base
    /// colour.
    pub open spec fn generates(&self, x: int, y: int, z: int, color: Color) -> bool {
        if in_world(x, y, z) {
            call_ensures(self.shader(), (x as i32, y as i32, z as i32, base_color(x, y, z)), color)
        } else {
            color == empty_voxel()
        }
    }

    /// Whether `color` is a voxel that the generator can give at offset
    /// `(x, y, z)` in the chunk `(chunk_x, chunk_y, chunk_z)`.
    pub open spec fn generates_in_chunk(
        &self,
        chunk_x: i32,
        chunk_y: i32,
        chunk_z: i32,
        x: int,
        y: int,
        z: int,
        color: Color,
    ) -> bool {
        self.generates(
            x + chunk_x * CHUNK_VOXEL_SIZE,
            y + chunk_y * CHUNK_VOXEL_SIZE,
            z + chunk_z * CHUNK_VOXEL_SIZE,
            color,
        )
    }

    /// Whether `chunk` holds, for every offset, a voxel that the generator
    /// can give there, stored with its coordinates in reverse.
    pub open spec fn fills(&self, chunk_x: i32, chunk_y: i32, chunk_z: i32, chunk: Chunk) -> bool {
        forall|x: i32, y: i32, z: i32|
            0 <= x < CHUNK_VOXEL_SIZE && 0 <= y < CHUNK_VOXEL_SIZE && 0 <= z < CHUNK_VOXEL_SIZE
                ==> self.generates_in_chunk(
                chunk_x,
                chunk_y,
                chunk_z,
                x as int,
                y as int,
                z as int,
                #[trigger] chunk.voxel(z, y, x),
            )
    }

    /// Whether the generator came up with the empty voxel at every offset
    /// of the chunk.
    pub open spec fn leaves_empty(&self, chunk_x: i32, chunk_y: i32, chunk_z: i32) -> bool {
        forall|x: int, y: int, z: int|
            0 <= x < CHUNK_VOXEL_SIZE && 0 <= y < CHUNK_VOXEL_SIZE && 0 <= z < CHUNK_VOXEL_SIZE
                ==> #[trigger] self.generates_in_chunk(
                chunk_x,
                chunk_y,
                chunk_z,
                x,
                y,
                z,
                empty_voxel(),
            )
    }

    /// A chunk beyond the world has no voxels, whatever `shade` does: no
    /// chunk that the generator fills there has any.
    pub proof fn lemma_beyond_world_is_empty(
        &self,
        chunk_x: i32,
        chunk_y: i32,
        chunk_z: i32,
        chunk: Chunk,
    )
        requires
            beyond_world(chunk_x, chunk_y, chunk_z),
            self.fills(chunk_x, chunk_y, chunk_z, chunk),
        ensures
            !has_voxels(chunk),
    {
        assert forall|x: i32, y: i32, z: i32|
            0 <= x < CHUNK_VOXEL_SIZE && 0 <= y < CHUNK_VOXEL_SIZE && 0 <= z
                < CHUNK_VOXEL_SIZE implies #[trigger] chunk.voxel(x, y, z) == empty_voxel() by {
            lemma_outside_world(
                z + chunk_x * CHUNK_VOXEL_SIZE,
                y + chunk_y * CHUNK_VOXEL_SIZE,
                x + chunk_z * CHUNK_VOXEL_SIZE,
            );
            assert(self.generates_in_chunk(
                chunk_x,
                chunk_y,
                chunk_z,
                z as int,
                y as int,
                x as int,
                chunk.voxel(x, y, z),
            ));
        }
    }

    pub fn new(seed: u32, shade: S) -> (generator: Self)
        ensures
            generator.spec_seed() == seed,
            generator.shader() == shade,
    {
        TerrainGenerator { seed, shade }
    }

    /// The seed that the generator was made with.
    pub fn seed(&self) -> (seed: u32)
        ensures
            seed == self.spec_seed(),
    {
        self.seed
    }

    /// The voxel at `(voxel_x, voxel_y, voxel_z)`.
    pub fn gen_voxel(&self, voxel_x: i32, voxel_y: i32, voxel_z: i32) -> (color: Color)
        requires
            self.ready(),
        ensures
            self.generates(voxel_x as int, voxel_y as int, voxel_z as int, color),
    {
        let (wx, wy, wz) = (voxel_x as i64, voxel_y as i64, voxel_z as i64);
        if !inside_world(wx, wy, wz) {
            return Color::new(0, 0, 0, 0);
        }
        let surface = !inside_world(wx, wy - SURFACE_DEPTH, wz);
        let color = if surface {
            DIRT
        } else {
            STONE
        };
        assert(call_requires(self.shader(), (voxel_x, voxel_y, voxel_z, color)));
        (self.shade)(voxel_x, voxel_y, voxel_z, color)
    }

    /// The chunk `(chunk_x, chunk_y, chunk_z)`, or `None` if every voxel of
    /// it came out empty.
    ///
    /// The voxel at offset `(x, y, z)` in the chunk, which is the voxel
    /// `(x + 16 * chunk_x, y + 16 * chunk_y, z + 16 * chunk_z)` of the
    /// world, is stored with its coordinates in reverse, at `(z, y, x)`.
    pub fn gen_chunk(&self, chunk_x: i32, chunk_y: i32, chunk_z: i32) -> (chunk: Option<Box<Chunk>>)
        requires
            self.ready(),
        ensures
            match chunk {
                Some(filled) => self.fills(chunk_x, chunk_y, chunk_z, *filled) && has_voxels(*filled),
                None => self.leaves_empty(chunk_x, chunk_y, chunk_z),
            },
            beyond_world(chunk_x, chunk_y, chunk_z) ==> chunk is None,
    {
        let size = CHUNK_VOXEL_SIZE;
        let mut chunk: Chunk = RawStaticChunk::new(Color::default());
        let mut any_filled = false;
        let ghost mut filled_at: int = 0;
        let mut n: usize = 0;
        while n < size * size * size
            invariant
                size == CHUNK_VOXEL_SIZE,
                self.ready(),
                n <= size * size * size,
                forall|m: int|
                    0 <= m < n ==> self.generates_in_chunk(
                        chunk_x,
                        chunk_y,
                        chunk_z,
                        coord_x(16, 16, m),
                        coord_y(16, 16, m),
                        coord_z(16, m),
                        #[trigger] nth_voxel(chunk, m),
                    ),
                any_filled ==> 0 <= filled_at < n && nth_voxel(chunk, filled_at) != empty_voxel(),
                !any_filled ==> forall|m: int| 0 <= m < n ==> #[trigger] nth_voxel(chunk, m) == empty_voxel(),
            decreases size * size * size - n,
        {
            proof {
                lemma_coords_of_index(16, 16, 16, n as int);
            }
            let x = n / size / size;
            let y = n / size % size;
            let z = n % size;
            let (vx, vy, vz) = (
                x as i64 + chunk_x as i64 * size as i64,
                y as i64 + chunk_y as i64 * size as i64,
                z as i64 + chunk_z as i64 * size as i64,
            );
            let color = if vx < -WORLD_RADIUS || vx > WORLD_RADIUS || vy < -WORLD_RADIUS || vy
                > WORLD_RADIUS || vz < -WORLD_RADIUS || vz > WORLD_RADIUS {
                assert(vx * vx + vy * vy + vz * vz > 100 * 100) by (nonlinear_arith)
                    requires
                        vx < -100 || vx > 100 || vy < -100 || vy > 100 || vz < -100 || vz > 100,
                ;
                Color::new(0, 0, 0, 0)
            } else {
                self.gen_voxel(vx as i32, vy as i32, vz as i32)
            };
            assert(self.generates_in_chunk(
                chunk_x,
                chunk_y,
                chunk_z,
                x as int,
                y as int,
                z as int,
                color,
            ));
            if color != Color::new(0, 0, 0, 0) {
                any_filled = true;
                proof {
                    filled_at = n as int;
                }
            }
            let ghost before = chunk;
            match chunk.at_mut(z as i32, y as i32, x as i32) {
                Some(cell) => {
                    *cell = color;
                },
                None => {},
            }
            proof {
                assert(nth_voxel(chunk, n as int) == color);
                assert forall|m: int| 0 <= m < n implies #[trigger] nth_voxel(chunk, m) == nth_voxel(
                    before,
                    m,
                ) by {
                    lemma_coords_of_index(16, 16, 16, m);
                }
            }
            n += 1;
        }
        proof {
            assert forall|x: i32, y: i32, z: i32|
                0 <= x < CHUNK_VOXEL_SIZE && 0 <= y < CHUNK_VOXEL_SIZE && 0 <= z
                    < CHUNK_VOXEL_SIZE implies self.generates_in_chunk(
                chunk_x,
                chunk_y,
                chunk_z,
                x as int,
                y as int,
                z as int,
                #[trigger] chunk.voxel(z, y, x),
            ) by {
                lemma_index_of_coords(16, 16, 16, x as int, y as int, z as int);
                let m = linear_index(16, 16, x as int, y as int, z as int);
                assert(nth_voxel(chunk, m) == chunk.voxel(z, y, x));
            }
        }
        assert(self.fills(chunk_x, chunk_y, chunk_z, chunk));
        if any_filled {
            proof {
                if beyond_world(chunk_x, chunk_y, chunk_z) {
                    self.lemma_beyond_world_is_empty(chunk_x, chunk_y, chunk_z, chunk);
                }
                lemma_coords_of_index(16, 16, 16, filled_at);
                let x = coord_x(16, 16, filled_at) as i32;
                let y = coord_y(16, 16, filled_at) as i32;
                let z = coord_z(16, filled_at) as i32;
                assert(chunk.voxel(z, y, x) != empty_voxel());
                assert(has_voxels(chunk));
            }
            Some(Box::new(chunk))
        } else {
            proof {
                assert forall|x: int, y: int, z: int|
                    0 <= x < CHUNK_VOXEL_SIZE && 0 <= y < CHUNK_VOXEL_SIZE && 0 <= z
                        < CHUNK_VOXEL_SIZE implies #[trigger] self.generates_in_chunk(
                    chunk_x,
                    chunk_y,
                    chunk_z,
                    x,
                    y,
                    z,
                    empty_voxel(),
                ) by {
                    lemma_index_of_coords(16, 16, 16, x, y, z);
                    let m = linear_index(16, 16, x, y, z);
                    assert(nth_voxel(chunk, m) == empty_voxel());
                }
                assert(self.leaves_empty(chunk_x, chunk_y, chunk_z));
            }
            None
        }
    }
}

/// Whether the chunk `(chunk_x, chunk_y, chunk_z)` lies beyond the world
/// along one of the axes: all of it is further than `WORLD_RADIUS` from the
/// origin in that direction.
pub open spec fn beyond_world(chunk_x: i32, chunk_y: i32, chunk_z: i32) -> bool {
    ||| chunk_x * CHUNK_VOXEL_SIZE > WORLD_RADIUS
    ||| chunk_x * CHUNK_VOXEL_SIZE + CHUNK_VOXEL_SIZE <= -WORLD_RADIUS
    ||| chunk_y * CHUNK_VOXEL_SIZE > WORLD_RADIUS
    ||| chunk_y * CHUNK_VOXEL_SIZE + CHUNK_VOXEL_SIZE <= -WORLD_RADIUS
    ||| chunk_z * CHUNK_VOXEL_SIZE > WORLD_RADIUS
    ||| chunk_z * CHUNK_VOXEL_SIZE + CHUNK_VOXEL_SIZE <= -WORLD_RADIUS
}

/// A voxel further than `WORLD_RADIUS` from the origin along one of the
/// axes lies outside the world.
pub proof fn lemma_outside_world(x: int, y: int, z: int)
    requires
        x > WORLD_RADIUS || x < -WORLD_RADIUS || y > WORLD_RADIUS || y < -WORLD_RADIUS || z
            > WORLD_RADIUS || z < -WORLD_RADIUS,
    ensures
        !in_world(x, y, z),
{
    assert(x * x + y * y + z * z > 100 * 100) by (nonlinear_arith)
        requires
            x > 100 || x < -100 || y > 100 || y < -100 || z > 100 || z < -100,
    ;
}

/// Whether some voxel of the chunk is not empty.
pub open spec fn has_voxels(chunk: Chunk) -> bool {
    exists|x: i32, y: i32, z: i32|
        0 <= x < CHUNK_VOXEL_SIZE && 0 <= y < CHUNK_VOXEL_SIZE && 0 <= z < CHUNK_VOXEL_SIZE
            && #[trigger] chunk.voxel(x, y, z) != empty_voxel()
}

/// The voxel that `gen_chunk` writes in its step `m`: the one stored at the
/// coordinates of position `m`, taken in reverse.
pub open spec fn nth_voxel(chunk: Chunk, m: int) -> Color {
    chunk.voxel(coord_z(16, m) as i32, coord_y(16, 16, m) as i32, coord_x(16, 16, m) as i32)
}

} // verus!
