use crate::gen::pager::WorldPager;
use crate::render::TextureHandle;
use crate::render::TextureUploadQueue;
use crate::voxel::common::Color;
use crate::voxel::rawchunk::coord_x;
use crate::voxel::rawchunk::coord_y;
use crate::voxel::rawchunk::coord_z;
use crate::voxel::rawchunk::lemma_coords_of_index;
use crate::voxel::rawchunk::lemma_index_of_coords;
use crate::voxel::rawchunk::linear_index;
use vstd::prelude::*;

verus! {

/// The texture of the entity that stands on the field `(x, z)` of the
/// board: the fields alternate between the two textures like those of a
/// chessboard, and the field `(0, 0)` has the first.
pub fn entity_texture(x: i32, z: i32, first: TextureHandle, second: TextureHandle) -> (texture:
    TextureHandle)
    ensures
        texture == (if (x + z) % 2 == 0 {
            first
        } else {
            second
        }),
{
    let sum = x as i64 + z as i64;
    if sum % 2 == 0 {
        first
    } else {
        second
    }
}

/// The number of chunks along each edge of the cube of chunks that lie
/// within `dist` chunks of a chunk.
pub open spec fn cube_width(dist: int) -> int {
    2 * dist + 1
}

/// The number of chunks that lie within `dist` chunks of a chunk.
pub open spec fn cube_volume(dist: int) -> int {
    cube_width(dist) * cube_width(dist) * cube_width(dist)
}

/// The chunk at position `n` of the cube around `center`, counted with z
/// running fastest, then y, then x, each from `-dist` to `dist`.
pub open spec fn cube_chunk(center: (i32, i32, i32), dist: int, n: int) -> (int, int, int) {
    let width = cube_width(dist);
    (
        center.0 - dist + coord_x(width, width, n),
        center.1 - dist + coord_y(width, width, n),
        center.2 - dist + coord_z(width, n),
    )
}

/// Whether the cube of chunks within `dist` of `center` has coordinates
/// that can be written down.
pub open spec fn cube_fits(center: (i32, i32, i32), dist: int) -> bool {
    &&& 0 <= dist
    &&& i32::MIN <= center.0 - dist && center.0 + dist <= i32::MAX
    &&& i32::MIN <= center.1 - dist && center.1 + dist <= i32::MAX
    &&& i32::MIN <= center.2 - dist && center.2 + dist <= i32::MAX
}

/// Whether the chunk `(x, y, z)` lies within `dist` chunks of `center`.
pub open spec fn in_cube(center: (i32, i32, i32), dist: int, x: int, y: int, z: int) -> bool {
    &&& center.0 - dist <= x <= center.0 + dist
    &&& center.1 - dist <= y <= center.1 + dist
    &&& center.2 - dist <= z <= center.2 + dist
}

/// The chunks with voxels among the first `n` of the cube around `center`,
/// in the order of the cube, each with its handle.
pub open spec fn visible_chunks<S: Fn(i32, i32, i32, (u8, u8, u8)) -> Color>(
    pager: WorldPager<S>,
    center: (i32, i32, i32),
    dist: int,
    n: nat,
) -> Seq<((i32, i32, i32), TextureHandle)>
    decreases n,
{
    if n == 0 {
        Seq::empty()
    } else {
        let earlier = visible_chunks(pager, center, dist, (n - 1) as nat);
        let chunk = cube_chunk(center, dist, n - 1);
        let place = (chunk.0 as i32, chunk.1 as i32, chunk.2 as i32);
        match pager.handle_at(place.0, place.1, place.2) {
            Some(handle) => earlier.push((place, handle)),
            None => earlier,
        }
    }
}

/// Every position of the cube names a chunk inside it, and every chunk
/// inside it has its position.
pub proof fn lemma_cube_chunks(center: (i32, i32, i32), dist: int)
    requires
        cube_fits(center, dist),
    ensures
        0 < cube_volume(dist),
        forall|n: int|
            0 <= n < cube_volume(dist) ==> {
                let chunk = #[trigger] cube_chunk(center, dist, n);
                in_cube(center, dist, chunk.0, chunk.1, chunk.2)
            },
        forall|x: int, y: int, z: int|
            in_cube(center, dist, x, y, z) ==> {
                let n = #[trigger] linear_index(
                    cube_width(dist),
                    cube_width(dist),
                    x - center.0 + dist,
                    y - center.1 + dist,
                    z - center.2 + dist,
                );
                0 <= n < cube_volume(dist) && cube_chunk(center, dist, n) == (x, y, z)
            },
{
    let width = cube_width(dist);
    assert(0 < width * width * width) by (nonlinear_arith)
        requires
            0 < width,
    ;
    assert forall|n: int| 0 <= n < cube_volume(dist) implies {
        let chunk = #[trigger] cube_chunk(center, dist, n);
        in_cube(center, dist, chunk.0, chunk.1, chunk.2)
    } by {
        lemma_coords_of_index(width, width, width, n);
    }
    assert forall|x: int, y: int, z: int| in_cube(center, dist, x, y, z) implies {
        let n = #[trigger] linear_index(
            cube_width(dist),
            cube_width(dist),
            x - center.0 + dist,
            y - center.1 + dist,
            z - center.2 + dist,
        );
        0 <= n < cube_volume(dist) && cube_chunk(center, dist, n) == (x, y, z)
    } by {
        lemma_index_of_coords(
            width,
            width,
            width,
            x - center.0 + dist,
            y - center.1 + dist,
            z - center.2 + dist,
        );
    }
}

/// The visible chunks among the first `n` depend on the handles of those
/// chunks only.
proof fn lemma_visible_chunks_same<S: Fn(i32, i32, i32, (u8, u8, u8)) -> Color>(
    a: WorldPager<S>,
    b: WorldPager<S>,
    center: (i32, i32, i32),
    dist: int,
    n: nat,
)
    requires
        forall|m: int|
            0 <= m < n ==> {
                let chunk = #[trigger] cube_chunk(center, dist, m);
                a.handle_at(chunk.0 as i32, chunk.1 as i32, chunk.2 as i32) == b.handle_at(
                    chunk.0 as i32,
                    chunk.1 as i32,
                    chunk.2 as i32,
                )
            },
    ensures
        visible_chunks(a, center, dist, n) == visible_chunks(b, center, dist, n),
    decreases n,
{
    if n > 0 {
        lemma_visible_chunks_same(a, b, center, dist, (n - 1) as nat);
        let chunk = cube_chunk(center, dist, n - 1);
    }
}

/// Makes sure that every chunk within `dist` chunks of `center` is there,
/// and lists those with voxels, each with its handle, in the order of the
/// cube: z runs fastest, then y, then x.
///
/// Chunks that were there before are left as they are. The others are
/// generated and, if they have voxels, queued for upload, in the same
/// order.
pub fn page_around<S: Fn(i32, i32, i32, (u8, u8, u8)) -> Color>(
    pager: &mut WorldPager<S>,
    center: (i32, i32, i32),
    dist: i32,
    texture_upload_queue: &mut TextureUploadQueue,
) -> (visible: Vec<((i32, i32, i32), TextureHandle)>)
    requires
        old(pager).generator().ready(),
        cube_fits(center, dist as int),
        old(texture_upload_queue).created() + cube_volume(dist as int) <= u32::MAX,
    ensures
        final(pager).generator() == old(pager).generator(),
        visible@ == visible_chunks(
            *final(pager),
            center,
            dist as int,
            cube_volume(dist as int) as nat,
        ),
        forall|x: i32, y: i32, z: i32|
            #[trigger] final(pager).paged(x, y, z) == (old(pager).paged(x, y, z) || in_cube(
                center,
                dist as int,
                x as int,
                y as int,
                z as int,
            )),
        forall|x: i32, y: i32, z: i32|
            old(pager).paged(x, y, z) ==> #[trigger] final(pager).entry(x, y, z) == old(pager).entry(
                x,
                y,
                z,
            ),
        old(texture_upload_queue).created() <= final(texture_upload_queue).created()
            <= old(texture_upload_queue).created() + cube_volume(dist as int),
        final(texture_upload_queue).waiting().len() == old(texture_upload_queue).waiting().len()
            + (final(texture_upload_queue).created() - old(texture_upload_queue).created()),
        final(texture_upload_queue).waiting().take(
            old(texture_upload_queue).waiting().len() as int,
        ) == old(texture_upload_queue).waiting(),
        forall|x: i32, y: i32, z: i32|
            in_cube(center, dist as int, x as int, y as int, z as int) && !old(pager).paged(x, y, z)
                ==> #[trigger] final(pager).generated(
                x,
                y,
                z,
                old(texture_upload_queue).created() as int,
                final(texture_upload_queue).created() as int,
            ),
        forall|k: int|
            0 <= k < final(texture_upload_queue).created() - old(texture_upload_queue).created()
                ==> (#[trigger] final(texture_upload_queue).waiting()[old(texture_upload_queue).waiting().len() + k]).1.id == old(texture_upload_queue).created() + k,
        forall|i: int|
            old(texture_upload_queue).waiting().len() <= i < final(texture_upload_queue).waiting().len() ==> final(pager).keeps(
                (#[trigger] final(texture_upload_queue).waiting()[i]).0,
                final(texture_upload_queue).waiting()[i].1,
            ),
{
    let width: i64 = 2 * (dist as i64) + 1;
    let ghost d = dist as int;
    proof {
        lemma_cube_chunks(center, d);
        assert(width * width <= width * width * width) by (nonlinear_arith)
            requires
                1 <= width,
        ;
    }
    let total: i64 = width * width * width;
    let mut visible: Vec<((i32, i32, i32), TextureHandle)> = Vec::new();
    let mut n: i64 = 0;
    while n < total
        invariant
            width == cube_width(d),
            total == cube_volume(d),
            d == dist,
            cube_fits(center, d),
            0 <= n <= total,
            pager.generator() == old(pager).generator(),
            pager.generator().ready(),
            visible@ == visible_chunks(*pager, center, d, n as nat),
            forall|x: i32, y: i32, z: i32|
                #[trigger] pager.paged(x, y, z) == (old(pager).paged(x, y, z) || exists|m: int|
                    0 <= m < n && cube_chunk(center, d, m) == (x as int, y as int, z as int)),
            forall|x: i32, y: i32, z: i32|
                old(pager).paged(x, y, z) ==> #[trigger] pager.entry(x, y, z) == old(pager).entry(
                    x,
                    y,
                    z,
                ),
            old(texture_upload_queue).created() <= texture_upload_queue.created() <= old(texture_upload_queue).created() + n,
            old(texture_upload_queue).created() + total <= u32::MAX,
            texture_upload_queue.waiting().len() == old(texture_upload_queue).waiting().len() + (
            texture_upload_queue.created() - old(texture_upload_queue).created()),
            texture_upload_queue.waiting().take(old(texture_upload_queue).waiting().len() as int)
                == old(texture_upload_queue).waiting(),
            forall|m: int|
                0 <= m < n ==> {
                    let chunk = #[trigger] cube_chunk(center, d, m);
                    !old(pager).paged(chunk.0 as i32, chunk.1 as i32, chunk.2 as i32)
                        ==> pager.generated(
                        chunk.0 as i32,
                        chunk.1 as i32,
                        chunk.2 as i32,
                        old(texture_upload_queue).created() as int,
                        texture_upload_queue.created() as int,
                    )
                },
            forall|k: int|
                0 <= k < texture_upload_queue.created() - old(texture_upload_queue).created()
                    ==> (#[trigger] texture_upload_queue.waiting()[old(texture_upload_queue).waiting().len() + k]).1.id == old(texture_upload_queue).created() + k,
            forall|i: int|
                old(texture_upload_queue).waiting().len() <= i < texture_upload_queue.waiting().len()
                    ==> pager.keeps(
                    (#[trigger] texture_upload_queue.waiting()[i]).0,
                    texture_upload_queue.waiting()[i].1,
                ),
        decreases total - n,
    {
        proof {
            lemma_coords_of_index(width as int, width as int, width as int, n as int);
            lemma_cube_chunks(center, d);
        }
        let x = (center.0 as i64 - dist as i64 + n / width / width) as i32;
        let y = (center.1 as i64 - dist as i64 + n / width % width) as i32;
        let z = (center.2 as i64 - dist as i64 + n % width) as i32;
        assert(cube_chunk(center, d, n as int) == (x as int, y as int, z as int));
        let ghost before = *pager;
        let ghost waiting_before = texture_upload_queue.waiting();
        let ghost created_before = texture_upload_queue.created();
        let ghost first_len = old(texture_upload_queue).waiting().len() as int;
        let ghost first_created = old(texture_upload_queue).created() as int;
        let chunk_handle = pager.page(x, y, z, texture_upload_queue);
        proof {
            let fresh = !before.paged(x, y, z) && pager.entry(x, y, z) is Some;
            assert(fresh ==> texture_upload_queue.waiting().drop_last() == waiting_before);
            assert(!fresh ==> texture_upload_queue.waiting() == waiting_before);
            assert forall|m: int| 0 <= m < n + 1 implies {
                let chunk = #[trigger] cube_chunk(center, d, m);
                !old(pager).paged(chunk.0 as i32, chunk.1 as i32, chunk.2 as i32)
                    ==> pager.generated(
                    chunk.0 as i32,
                    chunk.1 as i32,
                    chunk.2 as i32,
                    first_created,
                    texture_upload_queue.created() as int,
                )
            } by {
                let chunk = cube_chunk(center, d, m);
                lemma_coords_of_index(width as int, width as int, width as int, m);
                let (i, j, k) = (chunk.0 as i32, chunk.1 as i32, chunk.2 as i32);
                if !old(pager).paged(i, j, k) {
                    if m < n {
                        assert(before.generated(i, j, k, first_created, created_before as int));
                        assert(!(i == x && j == y && k == z));
                        assert(pager.entry(i, j, k) == before.entry(i, j, k));
                    } else {
                        assert(i == x && j == y && k == z);
                        if before.paged(x, y, z) {
                            let earlier = choose|e: int|
                                0 <= e < n && cube_chunk(center, d, e) == (
                                    x as int,
                                    y as int,
                                    z as int,
                                );
                            lemma_coords_of_index(width as int, width as int, width as int, earlier);
                        }
                    }
                }
            }
            assert forall|k: int|
                0 <= k < texture_upload_queue.created() - first_created implies (
            #[trigger] texture_upload_queue.waiting()[first_len + k]).1.id == first_created + k by {
                if k < created_before - first_created {
                    assert(waiting_before[first_len + k].1.id == first_created + k);
                    if fresh {
                        assert(texture_upload_queue.waiting().drop_last()[first_len + k]
                            == texture_upload_queue.waiting()[first_len + k]);
                    }
                }
            }
            assert forall|i: int| first_len <= i < texture_upload_queue.waiting().len() implies pager.keeps(
                (#[trigger] texture_upload_queue.waiting()[i]).0,
                texture_upload_queue.waiting()[i].1,
            ) by {
                let entry = texture_upload_queue.waiting()[i];
                if i < waiting_before.len() {
                    if fresh {
                        assert(texture_upload_queue.waiting().drop_last()[i] == entry);
                    }
                    assert(waiting_before[i] == entry);
                    assert(before.keeps(entry.0, entry.1));
                    let (kx, ky, kz) = choose|kx: i32, ky: i32, kz: i32|
                        {
                            &&& before.paged(kx, ky, kz)
                            &&& (#[trigger] before.entry(kx, ky, kz)) matches Some((chunk, kept))
                            &&& kept == entry.1
                            &&& crate::gen::pager::texture_of(entry.0, chunk)
                        };
                    assert(pager.paged(kx, ky, kz));
                    assert(pager.entry(kx, ky, kz) == before.entry(kx, ky, kz));
                } else {
                    assert(fresh);
                    assert(pager.paged(x, y, z));
                    assert(pager.entry(x, y, z) is Some);
                }
            }
        }
        proof {
            assert forall|m: int| 0 <= m < n implies {
                let chunk = #[trigger] cube_chunk(center, d, m);
                pager.handle_at(chunk.0 as i32, chunk.1 as i32, chunk.2 as i32) == before.handle_at(
                    chunk.0 as i32,
                    chunk.1 as i32,
                    chunk.2 as i32,
                )
            } by {
                let chunk = cube_chunk(center, d, m);
                lemma_coords_of_index(width as int, width as int, width as int, m);
                if chunk == (x as int, y as int, z as int) {
                    assert(before.paged(x, y, z));
                }
            }
            lemma_visible_chunks_same(*pager, before, center, d, n as nat);
            assert(texture_upload_queue.waiting().take(
                old(texture_upload_queue).waiting().len() as int,
            ) =~= old(texture_upload_queue).waiting()) by {
                if !before.paged(x, y, z) && pager.entry(x, y, z) is Some {
                    assert(texture_upload_queue.waiting().drop_last() == waiting_before);
                    assert(waiting_before.take(old(texture_upload_queue).waiting().len() as int)
                        =~= texture_upload_queue.waiting().take(
                        old(texture_upload_queue).waiting().len() as int,
                    ));
                }
            }
            assert forall|i: i32, j: i32, k: i32| #[trigger]
                pager.paged(i, j, k) == (old(pager).paged(i, j, k) || exists|m: int|
                    0 <= m < n + 1 && cube_chunk(center, d, m) == (i as int, j as int, k as int)) by {
                if i == x && j == y && k == z {
                    assert(cube_chunk(center, d, n as int) == (i as int, j as int, k as int));
                } else {
                    assert(pager.paged(i, j, k) == before.paged(i, j, k));
                }
            }
            assert forall|i: i32, j: i32, k: i32| old(pager).paged(i, j, k) implies #[trigger]
                pager.entry(i, j, k) == old(pager).entry(i, j, k) by {
                assert(before.paged(i, j, k));
                if i == x && j == y && k == z {
                } else {
                    assert(pager.entry(i, j, k) == before.entry(i, j, k));
                }
            }
        }
        match chunk_handle {
            Some(concrete_chunk_handle) => {
                visible.push(((x, y, z), concrete_chunk_handle));
            },
            None => {},
        }
        n += 1;
    }
    proof {
        lemma_cube_chunks(center, d);
        assert forall|x: i32, y: i32, z: i32|
            in_cube(center, d, x as int, y as int, z as int) && !old(pager).paged(
                x,
                y,
                z,
            ) implies #[trigger] pager.generated(
            x,
            y,
            z,
            old(texture_upload_queue).created() as int,
            texture_upload_queue.created() as int,
        ) by {
            let m = linear_index(
                cube_width(d),
                cube_width(d),
                x - center.0 + d,
                y - center.1 + d,
                z - center.2 + d,
            );
            assert(cube_chunk(center, d, m) == (x as int, y as int, z as int));
        }
        assert forall|x: i32, y: i32, z: i32| #[trigger]
            pager.paged(x, y, z) == (old(pager).paged(x, y, z) || in_cube(
                center,
                d,
                x as int,
                y as int,
                z as int,
            )) by {
            if in_cube(center, d, x as int, y as int, z as int) {
                let m = linear_index(
                    cube_width(d),
                    cube_width(d),
                    x - center.0 + d,
                    y - center.1 + d,
                    z - center.2 + d,
                );
                assert(cube_chunk(center, d, m) == (x as int, y as int, z as int));
            }
        }
    }
    visible
}

} // verus!
