use super::common::Color;
use super::common::VoxelData;
use super::rawchunk::valid_extent;
use super::rawchunk::RawDynamicChunk;
use super::vox_frame::frame_ok;
use super::vox_frame::frame_sound;
use vstd::prelude::*;

verus! {

/// One voxel of a model: its place in the model's own axes, where z points
/// up, and the index of its colour in the palette.
#[derive(Clone, Copy, PartialEq, Eq, Debug)]
pub struct ModelVoxel {
    pub x: u8,
    pub y: u8,
    pub z: u8,
    pub i: u8,
}

/// The extents of a model along its own axes.
#[derive(Clone, Copy, PartialEq, Eq, Debug)]
pub struct ModelSize {
    pub x: u32,
    pub y: u32,
    pub z: u32,
}

/// A model: its extents and the voxels that are set in it.
pub struct Model {
    pub size: ModelSize,
    pub voxels: Vec<ModelVoxel>,
}

/// The models of one file and the palette that they share, each colour as
/// a little-endian RGBA word.
pub struct ModelFile {
    pub models: Vec<Model>,
    pub palette: Vec<u32>,
}

/// Where a voxel of a model goes in its chunk. The chunk has y pointing
/// up, so the model's y becomes the chunk's z, and the model's z, counted
/// from the other end of the model's y extent, the chunk's y.
pub open spec fn placed(size: ModelSize, voxel: ModelVoxel) -> (int, int, int) {
    (voxel.x as int, size.y - voxel.z - 1, voxel.y as int)
}

/// Whether a voxel of a model has a place in the chunk and a colour in the
/// palette.
pub open spec fn voxel_fits(size: ModelSize, palette_len: int, voxel: ModelVoxel) -> bool {
    &&& voxel.x < size.x
    &&& voxel.z < size.y
    &&& voxel.y < size.z
    &&& voxel.i < palette_len
}

/// Whether a model can be turned into a chunk: its extents describe an
/// addressable grid, and every voxel fits.
pub open spec fn model_fits(size: ModelSize, voxels: Seq<ModelVoxel>, palette: Seq<u32>) -> bool {
    &&& valid_extent(size.x as int, size.y as int, size.z as int)
    &&& forall|n: int|
        0 <= n < voxels.len() ==> voxel_fits(size, palette.len() as int, #[trigger] voxels[n])
}

/// The colour at `(x, y, z)` of the chunk once the first `n` voxels of a
/// model are placed: that of the last of them that was placed there, and
/// transparent black if there is none.
pub open spec fn painted(
    size: ModelSize,
    voxels: Seq<ModelVoxel>,
    palette: Seq<u32>,
    n: nat,
    x: int,
    y: int,
    z: int,
) -> Color
    decreases n,
{
    if n == 0 {
        Color::spec_from_uint(0)
    } else if placed(size, voxels[n - 1]) == (x, y, z) {
        Color::spec_from_uint(palette[voxels[n - 1].i as int])
    } else {
        painted(size, voxels, palette, (n - 1) as nat, x, y, z)
    }
}

/// Whether `chunk` is the chunk of a model: it has the model's extents, in
/// the model's order, and every voxel of it has the colour that was
/// painted there.
pub open spec fn chunk_of(
    chunk: RawDynamicChunk<Color>,
    size: ModelSize,
    voxels: Seq<ModelVoxel>,
    palette: Seq<u32>,
) -> bool {
    &&& chunk.spec_dim_x() == (0i32, size.x as i32)
    &&& chunk.spec_dim_y() == (0i32, size.y as i32)
    &&& chunk.spec_dim_z() == (0i32, size.z as i32)
    &&& forall|x: i32, y: i32, z: i32|
        0 <= x < size.x && 0 <= y < size.y && 0 <= z < size.z ==> #[trigger] chunk.voxel(x, y, z)
            == painted(size, voxels, palette, voxels.len(), x as int, y as int, z as int)
}

/// What a file holds, as plain values: the extents and the voxels of each
/// model, and the palette.
pub type FileView = (Seq<(ModelSize, Seq<ModelVoxel>)>, Seq<u32>);

/// What a file in memory holds.
pub open spec fn file_view(file: ModelFile) -> FileView {
    (
        Seq::new(file.models@.len(), |m: int| (file.models@[m].size, file.models@[m].voxels@)),
        file.palette@,
    )
}

/// Whether every model of a file can be turned into a chunk.
pub open spec fn all_fit(file: FileView) -> bool {
    forall|m: int| 0 <= m < file.0.len() ==> model_fits((#[trigger] file.0[m]).0, file.0[m].1, file.1)
}

/// Whether `chunks` are the chunks of the models of a file, in order.
pub open spec fn chunks_of(chunks: Seq<RawDynamicChunk<Color>>, file: FileView) -> bool {
    &&& chunks.len() == file.0.len()
    &&& forall|m: int|
        0 <= m < chunks.len() ==> chunk_of(#[trigger] chunks[m], file.0[m].0, file.0[m].1, file.1)
}

/// Whether a model can be turned into a chunk.
pub fn model_loadable(model: &Model, palette: &Vec<u32>) -> (loadable: bool)
    ensures
        loadable == model_fits(model.size, model.voxels@, palette@),
{
    let size = model.size;
    if size.x > i32::MAX as u32 || size.y > i32::MAX as u32 || size.z > i32::MAX as u32 {
        return false;
    }
    assert(size.x * size.y * size.z <= 0x8000_0000 * 0x8000_0000 * 0x8000_0000
        && 0 <= size.x * size.y * size.z) by (nonlinear_arith)
        requires
            0 <= size.x <= 0x7fff_ffff,
            0 <= size.y <= 0x7fff_ffff,
            0 <= size.z <= 0x7fff_ffff,
    ;
    assert(size.x * size.y <= 0x8000_0000 * 0x8000_0000 && 0 <= size.x * size.y)
        by (nonlinear_arith)
        requires
            0 <= size.x <= 0x7fff_ffff,
            0 <= size.y <= 0x7fff_ffff,
    ;
    let cells: u128 = size.x as u128 * size.y as u128 * size.z as u128;
    if cells > usize::MAX as u128 {
        return false;
    }
    let mut n: usize = 0;
    while n < model.voxels.len()
        invariant
            n <= model.voxels@.len(),
            size == model.size,
            forall|m: int|
                0 <= m < n ==> voxel_fits(size, palette@.len() as int, #[trigger] model.voxels@[m]),
        decreases model.voxels@.len() - n,
    {
        let voxel = model.voxels[n];
        if !((voxel.x as u32) < size.x && (voxel.z as u32) < size.y && (voxel.y as u32) < size.z
            && (voxel.i as usize) < palette.len()) {
            return false;
        }
        n += 1;
    }
    true
}

/// The chunk of a model.
pub fn chunk_from_model(model: &Model, palette: &Vec<u32>) -> (chunk: RawDynamicChunk<Color>)
    requires
        model_fits(model.size, model.voxels@, palette@),
    ensures
        chunk_of(chunk, model.size, model.voxels@, palette@),
{
    let size = model.size;
    let mut chunk = RawDynamicChunk::new(
        size.x as usize,
        size.y as usize,
        size.z as usize,
        Color::from_uint(0),
    );
    let mut n: usize = 0;
    while n < model.voxels.len()
        invariant
            n <= model.voxels@.len(),
            size == model.size,
            model_fits(model.size, model.voxels@, palette@),
            chunk.spec_dim_x() == (0i32, size.x as i32),
            chunk.spec_dim_y() == (0i32, size.y as i32),
            chunk.spec_dim_z() == (0i32, size.z as i32),
            forall|x: i32, y: i32, z: i32|
                0 <= x < size.x && 0 <= y < size.y && 0 <= z < size.z ==> #[trigger] chunk.voxel(
                    x,
                    y,
                    z,
                ) == painted(size, model.voxels@, palette@, n as nat, x as int, y as int, z as int),
        decreases model.voxels@.len() - n,
    {
        let voxel = model.voxels[n];
        assert(voxel_fits(size, palette@.len() as int, voxel));
        let color = Color::from_uint(palette[voxel.i as usize]);
        let ghost before = chunk;
        match chunk.at_mut(voxel.x as i32, size.y as i32 - voxel.z as i32 - 1, voxel.y as i32) {
            Some(cell) => {
                *cell = color;
            },
            None => {},
        }
        proof {
            assert forall|x: i32, y: i32, z: i32|
                0 <= x < size.x && 0 <= y < size.y && 0 <= z < size.z implies #[trigger] chunk.voxel(
                x,
                y,
                z,
            ) == painted(
                size,
                model.voxels@,
                palette@,
                (n + 1) as nat,
                x as int,
                y as int,
                z as int,
            ) by {
                if placed(size, voxel) == (x as int, y as int, z as int) {
                } else {
                    assert(chunk.voxel(x, y, z) == before.voxel(x, y, z));
                }
            }
        }
        n += 1;
    }
    chunk
}

/// The chunks of the models of a file, in the order of the file, or `None`
/// if one of the models cannot be turned into a chunk.
pub fn load_magica_voxel(file: &ModelFile) -> (chunks: Option<Vec<RawDynamicChunk<Color>>>)
    ensures
        chunks is Some <==> all_fit(file_view(*file)),
        chunks matches Some(loaded) ==> chunks_of(loaded@, file_view(*file)),
{
    let ghost view = file_view(*file);
    let mut chunks: Vec<RawDynamicChunk<Color>> = Vec::new();
    let mut index: usize = 0;
    while index < file.models.len()
        invariant
            view == file_view(*file),
            index <= file.models@.len(),
            chunks@.len() == index,
            forall|m: int| 0 <= m < index ==> model_fits((#[trigger] view.0[m]).0, view.0[m].1, view.1),
            forall|m: int|
                0 <= m < index ==> chunk_of(#[trigger] chunks@[m], view.0[m].0, view.0[m].1, view.1),
        decreases file.models@.len() - index,
    {
        let model = &file.models[index];
        assert(view.0[index as int] == (model.size, model.voxels@));
        if !model_loadable(model, &file.palette) {
            return None;
        }
        let chunk = chunk_from_model(model, &file.palette);
        chunks.push(chunk);
        index += 1;
    }
    Some(chunks)
}

/// What `dot_vox::load_bytes` makes of a file: the models and the palette,
/// or `None` for bytes that it does not take for a file of voxel models.
pub uninterp spec fn parsed_models(bytes: Seq<u8>) -> Option<FileView>;

/// Reads a file with `dot_vox::load_bytes` and hands on its models and its
/// palette, field by field.
///
/// Not proved: that `load_bytes` returns on every soundly framed file. It
/// indexes the bytes without a check where it reads a word or a byte, so
/// it panics on a file that ends inside a chunk's head, inside the three
/// words of `SIZE`, the voxels that `XYZI` counts, a word of `RGBA` or the
/// length of a string of `MATL`; it reserves room for as many voxels or
/// entries as a count announces; it reads a `PACK` as a chunk of chunks,
/// and children below children as deep as they go. `frame_sound` leaves
/// those files out. Its result is taken as it comes, under the name
/// `parsed_models`.
#[verifier::external_body]
fn parse_models(bytes: &[u8]) -> (file: Option<ModelFile>)
    requires
        frame_sound(bytes@),
    ensures
        parsed_models(bytes@) == (match file {
            Some(read) => Some(file_view(read)),
            None => None,
        }),
{
    match dot_vox::load_bytes(bytes) {
        Ok(data) => Some(ModelFile {
            models: data.models.into_iter().map(|model| Model {
                size: ModelSize { x: model.size.x, y: model.size.y, z: model.size.z },
                voxels: model.voxels.into_iter().map(|v| ModelVoxel { x: v.x, y: v.y, z: v.z, i: v.i }).collect(),
            }).collect(),
            palette: data.palette,
        }),
        Err(_) => None,
    }
}

/// The models and the palette of a file, or `None` for bytes that are not
/// soundly framed or not a file of voxel models.
pub fn parse_magica_voxel(bytes: &[u8]) -> (file: Option<ModelFile>)
    ensures
        (match file {
            Some(read) => Some(file_view(read)),
            None => None,
        }) == (if frame_sound(bytes@) {
            parsed_models(bytes@)
        } else {
            None
        }),
{
    if frame_ok(bytes) {
        parse_models(bytes)
    } else {
        None
    }
}

/// The chunks of the models of a file, given as its bytes. `None` for
/// bytes that are not soundly framed or not a file of voxel models, and
/// for a file with a model that cannot be turned into a chunk.
pub fn load_magica_voxel_bytes(bytes: &[u8]) -> (chunks: Option<Vec<RawDynamicChunk<Color>>>)
    ensures
        chunks is Some <==> frame_sound(bytes@) && parsed_models(bytes@) is Some && all_fit(
            parsed_models(bytes@).unwrap(),
        ),
        chunks matches Some(loaded) ==> chunks_of(loaded@, parsed_models(bytes@).unwrap()),
{
    match parse_magica_voxel(bytes) {
        Some(file) => load_magica_voxel(&file),
        None => None,
    }
}

} // verus!
