use vtrace::voxel::common::{Color, VoxelData};
use vtrace::voxel::magica_voxel::{
    chunk_from_model, load_magica_voxel, load_magica_voxel_bytes, model_loadable,
    parse_magica_voxel, Model, ModelFile, ModelSize, ModelVoxel,
};
use vtrace::voxel::vox_frame::frame_ok;

fn palette() -> Vec<u32> {
    (0..256u32).map(|i| 0xFF00_0000 | (i << 8) | (255 - i)).collect()
}

fn model(size: (u32, u32, u32), voxels: Vec<(u8, u8, u8, u8)>) -> Model {
    Model {
        size: ModelSize { x: size.0, y: size.1, z: size.2 },
        voxels: voxels.into_iter().map(|(x, y, z, i)| ModelVoxel { x, y, z, i }).collect(),
    }
}

#[test]
fn model_z_becomes_chunk_y_from_the_other_end() {
    let m = model((2, 3, 4), vec![(1, 3, 0, 7), (0, 0, 2, 9)]);
    let chunk = chunk_from_model(&m, &palette());
    assert_eq!(chunk.dim_x(), (0, 2));
    assert_eq!(chunk.dim_y(), (0, 3));
    assert_eq!(chunk.dim_z(), (0, 4));
    // voxel (x 1, y 3, z 0) goes to (1, 3 - 0 - 1, 3)
    assert!(*chunk.at(1, 2, 3).unwrap() == Color::new(248, 7, 0, 255));
    // voxel (x 0, y 0, z 2) goes to (0, 3 - 2 - 1, 0)
    assert!(*chunk.at(0, 0, 0).unwrap() == Color::new(246, 9, 0, 255));
    let mut set = 0;
    for x in 0..2 {
        for y in 0..3 {
            for z in 0..4 {
                if *chunk.at(x, y, z).unwrap() != Color::new(0, 0, 0, 0) {
                    set += 1;
                }
            }
        }
    }
    assert_eq!(set, 2);
}

#[test]
fn later_voxels_paint_over_earlier_ones() {
    let m = model((1, 1, 1), vec![(0, 0, 0, 1), (0, 0, 0, 2)]);
    let chunk = chunk_from_model(&m, &palette());
    assert!(*chunk.at(0, 0, 0).unwrap() == Color::new(253, 2, 0, 255));
}

#[test]
fn model_without_voxels_is_transparent() {
    let m = model((2, 2, 2), vec![]);
    let chunk = chunk_from_model(&m, &palette());
    for x in 0..2 {
        for y in 0..2 {
            for z in 0..2 {
                assert!(*chunk.at(x, y, z).unwrap() == Color::new(0, 0, 0, 0));
            }
        }
    }
}

#[test]
fn voxels_must_lie_inside_the_model() {
    let p = palette();
    assert!(model_loadable(&model((2, 3, 4), vec![(1, 3, 2, 255)]), &p));
    assert!(!model_loadable(&model((2, 3, 4), vec![(2, 0, 0, 0)]), &p));
    // the model's z runs along the chunk's y, which is 3 long
    assert!(!model_loadable(&model((2, 3, 4), vec![(0, 0, 3, 0)]), &p));
    // the model's y runs along the chunk's z, which is 4 long
    assert!(!model_loadable(&model((2, 3, 4), vec![(0, 4, 0, 0)]), &p));
    assert!(!model_loadable(&model((2, 3, 4), vec![(0, 0, 0, 0), (0, 0, 3, 0)]), &p));
    assert!(!model_loadable(&model((0, 3, 4), vec![(0, 0, 0, 0)]), &p));
    assert!(model_loadable(&model((0, 3, 4), vec![]), &p));
}

#[test]
fn colours_must_be_in_the_palette() {
    let short: Vec<u32> = vec![1, 2, 3];
    assert!(model_loadable(&model((1, 1, 1), vec![(0, 0, 0, 2)]), &short));
    assert!(!model_loadable(&model((1, 1, 1), vec![(0, 0, 0, 3)]), &short));
    assert!(!model_loadable(&model((1, 1, 1), vec![(0, 0, 0, 0)]), &Vec::new()));
}

#[test]
fn extents_must_be_addressable() {
    let p = palette();
    assert!(!model_loadable(&model((0x8000_0000, 1, 1), vec![]), &p));
    assert!(!model_loadable(&model((1, u32::MAX, 1), vec![]), &p));
    assert!(!model_loadable(&model((1, 1, 0x8000_0000), vec![]), &p));
    assert!(!model_loadable(&model((0x7fff_ffff, 0x7fff_ffff, 0x7fff_ffff), vec![]), &p));
    assert!(model_loadable(&model((0x7fff_ffff, 0x7fff_ffff, 0), vec![]), &p));
}

#[test]
fn file_gives_one_chunk_for_each_model() {
    let file = ModelFile {
        models: vec![
            model((1, 1, 1), vec![(0, 0, 0, 4)]),
            model((2, 2, 2), vec![]),
            model((1, 2, 1), vec![(0, 0, 1, 5)]),
        ],
        palette: palette(),
    };
    let chunks = load_magica_voxel(&file).unwrap();
    assert_eq!(chunks.len(), 3);
    assert!(*chunks[0].at(0, 0, 0).unwrap() == Color::new(251, 4, 0, 255));
    assert_eq!(chunks[1].dim_x(), (0, 2));
    assert_eq!(chunks[2].dim_y(), (0, 2));
    assert!(*chunks[2].at(0, 0, 0).unwrap() == Color::new(250, 5, 0, 255));
    assert!(*chunks[2].at(0, 1, 0).unwrap() == Color::new(0, 0, 0, 0));
}

#[test]
fn file_with_a_bad_model_gives_nothing() {
    let file = ModelFile {
        models: vec![model((1, 1, 1), vec![(0, 0, 0, 4)]), model((1, 1, 1), vec![(1, 0, 0, 4)])],
        palette: palette(),
    };
    assert!(load_magica_voxel(&file).is_none());
    let empty = ModelFile { models: Vec::new(), palette: Vec::new() };
    assert_eq!(load_magica_voxel(&empty).unwrap().len(), 0);
}

fn word(n: u32) -> Vec<u8> {
    n.to_le_bytes().to_vec()
}

fn chunk(name: &str, content: Vec<u8>, children: Vec<u8>) -> Vec<u8> {
    let mut bytes = name.as_bytes().to_vec();
    bytes.extend(word(content.len() as u32));
    bytes.extend(word(children.len() as u32));
    bytes.extend(content);
    bytes.extend(children);
    bytes
}

fn size_chunk(x: u32, y: u32, z: u32) -> Vec<u8> {
    chunk("SIZE", [word(x), word(y), word(z)].concat(), Vec::new())
}

/// Voxels are written with the number of their colour, which is one more than its index.
fn voxels_chunk(voxels: &[(u8, u8, u8, u8)]) -> Vec<u8> {
    let mut content = word(voxels.len() as u32);
    for (x, y, z, colour) in voxels {
        content.extend([*x, *y, *z, *colour]);
    }
    chunk("XYZI", content, Vec::new())
}

fn palette_chunk(palette: &[u32]) -> Vec<u8> {
    chunk("RGBA", palette.iter().flat_map(|c| word(*c)).collect(), Vec::new())
}

fn string(text: &str) -> Vec<u8> {
    let mut bytes = word(text.len() as u32);
    bytes.extend(text.as_bytes());
    bytes
}

fn material_chunk(id: u32, entries: &[(&str, &str)]) -> Vec<u8> {
    let mut content = word(id);
    content.extend(word(entries.len() as u32));
    for (key, value) in entries {
        content.extend(string(key));
        content.extend(string(value));
    }
    chunk("MATL", content, Vec::new())
}

fn file(children: Vec<Vec<u8>>) -> Vec<u8> {
    let mut bytes = b"VOX ".to_vec();
    bytes.extend(word(150));
    bytes.extend(chunk("MAIN", Vec::new(), children.concat()));
    bytes
}

#[test]
fn file_of_bytes_is_read_by_the_outside_parser() {
    let bytes = file(vec![
        size_chunk(2, 3, 4),
        voxels_chunk(&[(1, 3, 0, 8), (0, 0, 2, 10)]),
        palette_chunk(&palette()),
        material_chunk(0, &[("_type", "_diffuse"), ("_weight", "1")]),
        chunk("nTRN", vec![1, 2, 3], Vec::new()),
    ]);
    assert!(frame_ok(&bytes));
    let parsed = parse_magica_voxel(&bytes).unwrap();
    assert_eq!(parsed.models.len(), 1);
    assert_eq!(parsed.models[0].size, ModelSize { x: 2, y: 3, z: 4 });
    assert_eq!(
        parsed.models[0].voxels,
        vec![ModelVoxel { x: 1, y: 3, z: 0, i: 7 }, ModelVoxel { x: 0, y: 0, z: 2, i: 9 }]
    );
    assert_eq!(parsed.palette, palette());

    let chunks = load_magica_voxel_bytes(&bytes).unwrap();
    assert_eq!(chunks.len(), 1);
    assert_eq!(chunks[0].dim_x(), (0, 2));
    assert_eq!(chunks[0].dim_y(), (0, 3));
    assert_eq!(chunks[0].dim_z(), (0, 4));
    assert!(*chunks[0].at(1, 2, 3).unwrap() == Color::new(248, 7, 0, 255));
    assert!(*chunks[0].at(0, 0, 0).unwrap() == Color::new(246, 9, 0, 255));
    assert!(*chunks[0].at(1, 1, 1).unwrap() == Color::new(0, 0, 0, 0));
}

#[test]
fn file_without_a_palette_gets_the_default_one() {
    let bytes = file(vec![size_chunk(1, 1, 1), voxels_chunk(&[(0, 0, 0, 226)])]);
    let parsed = parse_magica_voxel(&bytes).unwrap();
    assert_eq!(parsed.palette, dot_vox::DEFAULT_PALETTE.to_vec());
    assert_eq!(parsed.palette.len(), 256);
    let chunks = load_magica_voxel_bytes(&bytes).unwrap();
    assert!(*chunks[0].at(0, 0, 0).unwrap() == Color::from_uint(dot_vox::DEFAULT_PALETTE[225]));
}

#[test]
fn file_with_two_models_gives_two_chunks() {
    let bytes = file(vec![
        size_chunk(1, 1, 1),
        voxels_chunk(&[(0, 0, 0, 1)]),
        size_chunk(2, 1, 1),
        voxels_chunk(&[(1, 0, 0, 2)]),
        palette_chunk(&[0x11223344, 0x55667788]),
    ]);
    let chunks = load_magica_voxel_bytes(&bytes).unwrap();
    assert_eq!(chunks.len(), 2);
    assert!(*chunks[0].at(0, 0, 0).unwrap() == Color::new(0x44, 0x33, 0x22, 0x11));
    assert!(*chunks[1].at(1, 0, 0).unwrap() == Color::new(0x88, 0x77, 0x66, 0x55));
    assert!(*chunks[1].at(0, 0, 0).unwrap() == Color::new(0, 0, 0, 0));
}

#[test]
fn file_with_a_voxel_outside_its_model_gives_nothing() {
    let bytes = file(vec![size_chunk(1, 1, 1), voxels_chunk(&[(1, 0, 0, 1)])]);
    assert!(parse_magica_voxel(&bytes).is_some());
    assert!(load_magica_voxel_bytes(&bytes).is_none());
    // colour 3 has index 2, and the palette has two colours
    let bytes = file(vec![
        size_chunk(1, 1, 1),
        voxels_chunk(&[(0, 0, 0, 3)]),
        palette_chunk(&[1, 2]),
    ]);
    assert!(parse_magica_voxel(&bytes).is_some());
    assert!(load_magica_voxel_bytes(&bytes).is_none());
}

#[test]
fn bytes_that_are_no_file_give_nothing() {
    assert!(load_magica_voxel_bytes(&[]).is_none());
    assert!(load_magica_voxel_bytes(b"VOX ").is_none());
    assert!(load_magica_voxel_bytes(b"VOX \x96\0\0\0MAIN").is_none());
    assert!(parse_magica_voxel(b"XOV \x96\0\0\0MAIN\0\0\0\0\0\0\0\0").is_none());
    assert!(!frame_ok(b"XOV \x96\0\0\0MAIN\0\0\0\0\0\0\0\0"));
    // a whole head, but the name of the first chunk is not text
    let mut bytes = file(vec![]);
    bytes[8] = 0xFF;
    assert!(frame_ok(&bytes));
    assert!(parse_magica_voxel(&bytes).is_none());
}

#[test]
fn smallest_file_has_no_models() {
    let bytes = file(vec![]);
    assert_eq!(bytes.len(), 20);
    assert!(frame_ok(&bytes));
    let parsed = parse_magica_voxel(&bytes).unwrap();
    assert!(parsed.models.is_empty());
    assert_eq!(load_magica_voxel_bytes(&bytes).unwrap().len(), 0);
}

#[test]
fn files_cut_short_inside_a_chunk_are_not_sound() {
    // SIZE with two words only
    let cut = file(vec![chunk("SIZE", [word(1), word(1)].concat(), Vec::new())]);
    assert!(!frame_ok(&cut));
    assert!(load_magica_voxel_bytes(&cut).is_none());
    // XYZI that counts two voxels and holds one
    let cut = file(vec![
        size_chunk(1, 1, 1),
        chunk("XYZI", [word(2), vec![0, 0, 0, 1]].concat(), Vec::new()),
    ]);
    assert!(!frame_ok(&cut));
    // XYZI without a count
    assert!(!frame_ok(&file(vec![chunk("XYZI", vec![1, 0], Vec::new())])));
    // RGBA with half a word at its end
    assert!(!frame_ok(&file(vec![chunk("RGBA", vec![1, 2, 3, 4, 5, 6], Vec::new())])));
    // MATL that counts more entries than it has room for
    let cut = file(vec![chunk("MATL", [word(0), word(1)].concat(), Vec::new())]);
    assert!(!frame_ok(&cut));
    // MATL whose second string has no length
    let cut = file(vec![chunk(
        "MATL",
        [word(0), word(1), string("ab"), vec![0, 0]].concat(),
        Vec::new(),
    )]);
    assert!(!frame_ok(&cut));
    // a child with half a head
    let mut cut = file(vec![size_chunk(1, 1, 1)]);
    cut.extend(b"SIZE\0\0");
    let total = (cut.len() - 20) as u32;
    cut[16..20].copy_from_slice(&total.to_le_bytes());
    assert!(!frame_ok(&cut));
    // a packed model and children below children are not read
    assert!(!frame_ok(&file(vec![chunk("PACK", word(1), Vec::new())])));
    assert!(!frame_ok(&file(vec![chunk("nGRP", Vec::new(), size_chunk(1, 1, 1))])));
}

#[test]
fn files_that_end_before_a_chunk_ends_are_sound() {
    // the first chunk announces more children than there are bytes: nothing is read
    let mut bytes = file(vec![size_chunk(1, 1, 1)]);
    bytes.truncate(30);
    assert!(frame_ok(&bytes));
    assert!(parse_magica_voxel(&bytes).is_none());
    // a child announces more content than is left: the children before it are kept
    let mut bytes = file(vec![size_chunk(1, 1, 1), voxels_chunk(&[(0, 0, 0, 1)])]);
    let at = 20 + 24 + 4;
    bytes[at..at + 4].copy_from_slice(&1000u32.to_le_bytes());
    assert!(frame_ok(&bytes));
    assert!(parse_magica_voxel(&bytes).unwrap().models.is_empty());
    // a string of a material reaches past its chunk: the material is dropped
    let bytes = file(vec![
        chunk("MATL", [word(0), word(1), word(100), vec![0, 0, 0, 0]].concat(), Vec::new()),
        size_chunk(1, 2, 3),
        voxels_chunk(&[]),
    ]);
    assert!(frame_ok(&bytes));
    assert_eq!(parse_magica_voxel(&bytes).unwrap().models.len(), 1);
    // up to three bytes may be left over behind the last child
    let mut bytes = file(vec![size_chunk(1, 1, 1), voxels_chunk(&[])]);
    bytes.extend([1, 2, 3]);
    let total = (bytes.len() - 20) as u32;
    bytes[16..20].copy_from_slice(&total.to_le_bytes());
    assert!(frame_ok(&bytes));
    assert_eq!(parse_magica_voxel(&bytes).unwrap().models.len(), 1);
}
