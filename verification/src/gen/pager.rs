use crate::gen::terrain::has_voxels;
use crate::gen::terrain::TerrainGenerator;
use crate::render::Texture;
use crate::render::TextureHandle;
use crate::render::TextureUploadQueue;
use crate::voxel::common::Color;
use crate::voxel::common::RawVoxelData;
use crate::voxel::common::VoxelData;
use crate::voxel::rawchunk::RawStaticChunk;
use std::collections::HashMap;
use vstd::prelude::*;

verus! {

/// The number of voxels along each edge of a chunk.
pub const CHUNK_VOXEL_SIZE: usize = 16;

/// A cube of terrain, the unit in which terrain is generated and kept.
pub type Chunk = RawStaticChunk<Color, CHUNK_VOXEL_SIZE, CHUNK_VOXEL_SIZE, CHUNK_VOXEL_SIZE>;

/// The key under which the pager keeps the chunk `(x, y, z)`: the three
/// coordinates, each moved into the non-negative range, as the digits of a
/// number to the base 2^32.
pub open spec fn chunk_key(x: i32, y: i32, z: i32) -> u128 {
    (((x - i32::MIN) * 0x1_0000_0000 + (y - i32::MIN)) * 0x1_0000_0000 + (z - i32::MIN)) as u128
}

/// Different chunks have different keys.
pub proof fn lemma_chunk_key_injective(x1: i32, y1: i32, z1: i32, x2: i32, y2: i32, z2: i32)
    requires
        chunk_key(x1, y1, z1) == chunk_key(x2, y2, z2),
    ensures
        x1 == x2,
        y1 == y2,
        z1 == z2,
{
}

/// The key under which the pager keeps the chunk `(x, y, z)`.
fn key_of(x: i32, y: i32, z: i32) -> (key: u128)
    ensures
        key == chunk_key(x, y, z),
{
    let ux = (x as i64 - i32::MIN as i64) as u128;
    let uy = (y as i64 - i32::MIN as i64) as u128;
    let uz = (z as i64 - i32::MIN as i64) as u128;
    (ux * 0x1_0000_0000 + uy) * 0x1_0000_0000 + uz
}

/// Keeps every chunk that was asked for. A chunk is generated the first
/// time it is asked for and never again; if it has voxels, it is queued
/// for upload and keeps the handle that it got.
pub struct WorldPager<S: Fn(i32, i32, i32, (u8, u8, u8)) -> Color> {
    chunks: HashMap<u128, Option<(Box<Chunk>, TextureHandle)>>,
    terrain_generator: TerrainGenerator<S>,
}

impl<S: Fn(i32, i32, i32, (u8, u8, u8)) -> Color> WorldPager<S> {
    /// The generator that fills the chunks.
    pub closed spec fn generator(&self) -> TerrainGenerator<S> {
        self.terrain_generator
    }

    /// Whether the chunk `(x, y, z)` was asked for before.
    pub closed spec fn paged(&self, x: i32, y: i32, z: i32) -> bool {
        self.chunks@.contains_key(chunk_key(x, y, z))
    }

    /// What is kept for the chunk `(x, y, z)`: its voxels and its handle,
    /// or `None` for a chunk without voxels. Meaningful for chunks that
    /// were asked for.
    pub closed spec fn entry(&self, x: i32, y: i32, z: i32) -> Option<(Chunk, TextureHandle)> {
        match self.chunks@[chunk_key(x, y, z)] {
            Some((chunk, handle)) => Some((*chunk, handle)),
            None => None,
        }
    }

    /// The handle kept for the chunk `(x, y, z)`.
    pub open spec fn handle_at(&self, x: i32, y: i32, z: i32) -> Option<TextureHandle> {
        match self.entry(x, y, z) {
            Some((chunk, handle)) => Some(handle),
            None => None,
        }
    }

    /// Whether what is kept for the chunk `(x, y, z)` is what the
    /// generator gives there: a chunk that it fills and that has voxels,
    /// under a handle from `issued_from` up to but not including
    /// `issued_to`, or nothing where it leaves the chunk empty.
    pub open spec fn generated(&self, x: i32, y: i32, z: i32, issued_from: int, issued_to: int) -> bool {
        match self.entry(x, y, z) {
            Some((chunk, handle)) => {
                &&& self.generator().fills(x, y, z, chunk)
                &&& has_voxels(chunk)
                &&& issued_from <= handle.id < issued_to
            },
            None => self.generator().leaves_empty(x, y, z),
        }
    }

    /// Whether `texture` is the texture of a chunk that is kept under
    /// `handle`.
    pub open spec fn keeps(&self, texture: Texture, handle: TextureHandle) -> bool {
        exists|x: i32, y: i32, z: i32|
            {
                &&& self.paged(x, y, z)
                &&& (#[trigger] self.entry(x, y, z)) matches Some((chunk, kept))
                &&& kept == handle
                &&& texture_of(texture, chunk)
            }
    }

    /// A pager without chunks, with a generator of seed zero around `shade`.
    pub fn new(shade: S) -> (pager: Self)
        ensures
            pager.generator().spec_seed() == 0,
            pager.generator().shader() == shade,
            forall|x: i32, y: i32, z: i32| !pager.paged(x, y, z),
    {
        WorldPager { chunks: HashMap::new(), terrain_generator: TerrainGenerator::new(0, shade) }
    }

    /// Makes sure that the chunk `(chunk_x, chunk_y, chunk_z)` is there,
    /// and gives its handle, or `None` for a chunk without voxels.
    ///
    /// A chunk that was asked for before is left as it is, and so is the
    /// queue. Otherwise the chunk is generated now. If it has voxels, it is
    /// queued as the newest texture and kept with the handle that the queue
    /// issued; if it has none, only that is kept.
    pub fn page(
        &mut self,
        chunk_x: i32,
        chunk_y: i32,
        chunk_z: i32,
        texture_upload_queue: &mut TextureUploadQueue,
    ) -> (handle: Option<TextureHandle>)
        requires
            old(self).generator().ready(),
            old(texture_upload_queue).created() < u32::MAX,
        ensures
            final(self).generator() == old(self).generator(),
            final(self).paged(chunk_x, chunk_y, chunk_z),
            handle == final(self).handle_at(chunk_x, chunk_y, chunk_z),
            forall|x: i32, y: i32, z: i32|
                !(x == chunk_x && y == chunk_y && z == chunk_z) ==> #[trigger] final(self).paged(
                    x,
                    y,
                    z,
                ) == old(self).paged(x, y, z),
            forall|x: i32, y: i32, z: i32|
                !(x == chunk_x && y == chunk_y && z == chunk_z) ==> #[trigger] final(self).entry(
                    x,
                    y,
                    z,
                ) == old(self).entry(x, y, z),
            old(self).paged(chunk_x, chunk_y, chunk_z) ==> {
                &&& final(self).entry(chunk_x, chunk_y, chunk_z) == old(self).entry(
                    chunk_x,
                    chunk_y,
                    chunk_z,
                )
                &&& final(texture_upload_queue).created() == old(texture_upload_queue).created()
                &&& final(texture_upload_queue).waiting() == old(texture_upload_queue).waiting()
            },
            !old(self).paged(chunk_x, chunk_y, chunk_z) ==> match final(self).entry(
                chunk_x,
                chunk_y,
                chunk_z,
            ) {
                Some((chunk, issued)) => {
                    &&& old(self).generator().fills(chunk_x, chunk_y, chunk_z, chunk)
                    &&& has_voxels(chunk)
                    &&& issued.id == old(texture_upload_queue).created()
                    &&& final(texture_upload_queue).created() == old(texture_upload_queue).created()
                        + 1
                    &&& queued_last(
                        old(texture_upload_queue).waiting(),
                        final(texture_upload_queue).waiting(),
                        chunk,
                        issued,
                    )
                },
                None => {
                    &&& old(self).generator().leaves_empty(chunk_x, chunk_y, chunk_z)
                    &&& final(texture_upload_queue).created() == old(texture_upload_queue).created()
                    &&& final(texture_upload_queue).waiting() == old(texture_upload_queue).waiting()
                },
            },
    {
        broadcast use vstd::std_specs::hash::group_hash_axioms;

        let key = key_of(chunk_x, chunk_y, chunk_z);
        proof {
            assert forall|x: i32, y: i32, z: i32|
                !(x == chunk_x && y == chunk_y && z == chunk_z) implies #[trigger] chunk_key(x, y, z)
                != key by {
                if chunk_key(x, y, z) == key {
                    lemma_chunk_key_injective(x, y, z, chunk_x, chunk_y, chunk_z);
                }
            }
        }
        match self.chunks.get(&key) {
            Some(kept) => match kept {
                Some((_, kept_handle)) => Some(*kept_handle),
                None => None,
            },
            None => {
                let chunk = self.terrain_generator.gen_chunk(chunk_x, chunk_y, chunk_z);
                match chunk {
                    Some(concrete_chunk) => {
                        let texture = Texture::from_voxels(&*concrete_chunk);
                        let handle = texture_upload_queue.add_texture(texture);
                        self.chunks.insert(key, Some((concrete_chunk, handle)));
                        proof {
                            assert(texture_upload_queue.waiting().drop_last() =~= old(
                                texture_upload_queue,
                            ).waiting());
                        }
                        Some(handle)
                    },
                    None => {
                        self.chunks.insert(key, None);
                        None
                    },
                }
            },
        }
    }
}

/// Whether `texture` is the texture of `chunk`: it has the ranges of the
/// chunk and holds its voxels as one block.
pub open spec fn texture_of(texture: Texture, chunk: Chunk) -> bool {
    &&& texture.dim_x == chunk.spec_dim_x()
    &&& texture.dim_y == chunk.spec_dim_y()
    &&& texture.dim_z == chunk.spec_dim_z()
    &&& texture.voxels@ == chunk.spec_raw()
}

/// Whether `after` is `before` with the texture of `chunk` queued behind it
/// under `handle`.
pub open spec fn queued_last(
    before: Seq<(Texture, TextureHandle)>,
    after: Seq<(Texture, TextureHandle)>,
    chunk: Chunk,
    handle: TextureHandle,
) -> bool {
    &&& after.len() == before.len() + 1
    &&& after.drop_last() == before
    &&& after.last().1 == handle
    &&& texture_of(after.last().0, chunk)
}

} // verus!
