use crate::matrix::Matrix4;
use crate::scene::Placement;
use crate::scene::SceneGraph;
use crate::voxel::common::Color;
use crate::voxel::common::RawVoxelData;
use std::collections::HashMap;
use std::collections::VecDeque;
use vstd::prelude::*;

verus! {

/// Names a texture that was handed to the upload queue.
#[derive(PartialEq, Eq, Hash, Clone, Copy, Debug, Structural)]
pub struct TextureHandle {
    pub id: u32,
}

/// One instance as the renderer takes it: a model whose last element holds
/// the number of the texture to draw.
#[derive(Clone, Copy, Debug)]
pub struct GPUInstance {
    pub model: Matrix4,
}

impl GPUInstance {
    /// `model` with the texture number written over its last element
    /// (column 3, row 3). Every other element is kept.
    pub fn from_model(model: Matrix4, texture_id: u32) -> (instance: Self)
        ensures
            instance.model.element(3, 3) == texture_id,
            forall|column: int, row: int|
                0 <= column < 4 && 0 <= row < 4 && !(column == 3 && row == 3)
                    ==> #[trigger] instance.model.element(column, row) == model.element(
                    column,
                    row,
                ),
    {
        let mut merged = model;
        merged.columns[3][3] = texture_id;
        GPUInstance { model: merged }
    }
}

impl Default for GPUInstance {
    /// The identity, which names texture `ONE_BITS` by its last element.
    fn default() -> (instance: Self)
        ensures
            instance.model == Matrix4::spec_identity(),
    {
        GPUInstance { model: Matrix4::identity() }
    }
}

/// A texture in the form in which it is uploaded: the ranges of the grid it
/// was taken from, and its voxels as one block in x-major order.
pub struct Texture {
    pub dim_x: (i32, i32),
    pub dim_y: (i32, i32),
    pub dim_z: (i32, i32),
    pub voxels: Vec<Color>,
}

/// The length of a half-open range, if it is not empty.
pub open spec fn range_length(range: (i32, i32)) -> Option<u32> {
    if range.1 > range.0 {
        Some((range.1 - range.0) as u32)
    } else {
        None
    }
}

/// The length of a half-open range, or `None` if the range is empty.
pub fn range_len(range: (i32, i32)) -> (length: Option<u32>)
    ensures
        length == range_length(range),
{
    if range.1 > range.0 {
        let wide: i64 = range.1 as i64 - range.0 as i64;
        Some(wide as u32)
    } else {
        None
    }
}

impl Texture {
    /// Takes the ranges and the voxels of a grid.
    pub fn from_voxels<D: RawVoxelData<Color>>(data: &D) -> (texture: Self)
        ensures
            texture.dim_x == data.spec_dim_x(),
            texture.dim_y == data.spec_dim_y(),
            texture.dim_z == data.spec_dim_z(),
            texture.voxels@ == data.spec_raw(),
    {
        Texture {
            dim_x: data.dim_x(),
            dim_y: data.dim_y(),
            dim_z: data.dim_z(),
            voxels: data.get_raw(),
        }
    }

    /// Width, height and depth of the texture. A texture with an empty
    /// range cannot be uploaded and has none.
    pub open spec fn spec_extent(&self) -> Option<(u32, u32, u32)> {
        match (range_length(self.dim_x), range_length(self.dim_y), range_length(self.dim_z)) {
            (Some(width), Some(height), Some(depth)) => Some((width, height, depth)),
            _ => None,
        }
    }

    /// Width, height and depth of the texture, or `None` where one of its
    /// ranges is empty.
    pub fn extent(&self) -> (extent: Option<(u32, u32, u32)>)
        ensures
            extent == self.spec_extent(),
    {
        match (range_len(self.dim_x), range_len(self.dim_y), range_len(self.dim_z)) {
            (Some(width), Some(height), Some(depth)) => Some((width, height, depth)),
            _ => None,
        }
    }
}

/// Textures waiting to be uploaded, first in, first out. Each texture gets
/// a handle when it is queued; handles are numbered from zero in the order
/// in which they were issued.
pub struct TextureUploadQueue {
    num_textures_created: u32,
    texture_upload_queue: VecDeque<(Texture, TextureHandle)>,
}

impl TextureUploadQueue {
    /// The number of handles issued so far.
    pub closed spec fn created(&self) -> u32 {
        self.num_textures_created
    }

    /// The textures waiting, the oldest first.
    pub closed spec fn waiting(&self) -> Seq<(Texture, TextureHandle)> {
        self.texture_upload_queue@
    }

    /// Whether the handles of the waiting textures are among those issued
    /// and grow from the oldest to the newest, so that no two textures
    /// wait under the same handle.
    pub open spec fn in_order(&self) -> bool {
        &&& forall|i: int|
            0 <= i < self.waiting().len() ==> (#[trigger] self.waiting()[i]).1.id < self.created()
        &&& forall|i: int, j: int|
            0 <= i < j < self.waiting().len() ==> (#[trigger] self.waiting()[i]).1.id < (
            #[trigger] self.waiting()[j]).1.id
    }

    pub fn new() -> (queue: Self)
        ensures
            queue.created() == 0,
            queue.waiting() == Seq::<(Texture, TextureHandle)>::empty(),
            queue.in_order(),
    {
        TextureUploadQueue { num_textures_created: 0, texture_upload_queue: VecDeque::new() }
    }

    /// The number of handles issued so far.
    pub fn num_created(&self) -> (n: u32)
        ensures
            n == self.created(),
    {
        self.num_textures_created
    }

    /// Queues a texture and issues the next handle for it.
    pub fn add_texture(&mut self, texture: Texture) -> (handle: TextureHandle)
        requires
            old(self).created() < u32::MAX,
        ensures
            handle.id == old(self).created(),
            final(self).created() == old(self).created() + 1,
            final(self).waiting() == old(self).waiting().push((texture, handle)),
            old(self).in_order() ==> final(self).in_order(),
    {
        let handle = TextureHandle { id: self.num_textures_created };
        self.num_textures_created += 1;
        self.texture_upload_queue.push_back((texture, handle));
        handle
    }

    /// Takes the oldest waiting texture off the queue.
    pub fn pop(&mut self) -> (front: Option<(Texture, TextureHandle)>)
        ensures
            final(self).created() == old(self).created(),
            match front {
                Some(entry) => {
                    &&& old(self).waiting().len() > 0
                    &&& entry == old(self).waiting()[0]
                    &&& final(self).waiting() == old(self).waiting().skip(1)
                },
                None => {
                    &&& old(self).waiting().len() == 0
                    &&& final(self).waiting() == old(self).waiting()
                },
            },
            old(self).in_order() ==> final(self).in_order(),
    {
        let front = self.texture_upload_queue.pop_front();
        assert(front is Some ==> self.texture_upload_queue@ =~= old(self).texture_upload_queue@.skip(
            1,
        ));
        front
    }
}

/// An instance before its models are multiplied: the models from the root
/// down to the leaf, and the number of its texture on the device.
pub type Instance = (Seq<Matrix4>, u32);

/// The instances to draw for `placements`: one for every placement whose
/// texture has been uploaded, in the same order, with the number that the
/// device gave to its texture. Placements whose texture is still waiting
/// are left out.
pub open spec fn resolved(placements: Seq<Placement>, lookup: Map<u32, u32>) -> Seq<Instance>
    decreases placements.len(),
{
    if placements.len() == 0 {
        Seq::empty()
    } else {
        let earlier = resolved(placements.drop_last(), lookup);
        let last = placements.last();
        if lookup.contains_key(last.1.id) {
            earlier.push((last.0, lookup[last.1.id]))
        } else {
            earlier
        }
    }
}

/// No more instances are drawn than there are placements.
pub proof fn lemma_resolved_len(placements: Seq<Placement>, lookup: Map<u32, u32>)
    ensures
        resolved(placements, lookup).len() <= placements.len(),
    decreases placements.len(),
{
    if placements.len() > 0 {
        lemma_resolved_len(placements.drop_last(), lookup);
    }
}

/// Where every texture has been uploaded, every placement is drawn.
pub proof fn lemma_resolved_all(placements: Seq<Placement>, lookup: Map<u32, u32>)
    requires
        forall|i: int| 0 <= i < placements.len() ==> lookup.contains_key(#[trigger] placements[i].1.id),
    ensures
        resolved(placements, lookup).len() == placements.len(),
        forall|i: int|
            0 <= i < placements.len() ==> #[trigger] resolved(placements, lookup)[i] == (
                placements[i].0,
                lookup[placements[i].1.id],
            ),
    decreases placements.len(),
{
    if placements.len() > 0 {
        let earlier = placements.drop_last();
        assert forall|i: int| 0 <= i < earlier.len() implies lookup.contains_key(
            #[trigger] earlier[i].1.id,
        ) by {
            assert(earlier[i] == placements[i]);
        }
        lemma_resolved_all(earlier, lookup);
        assert(lookup.contains_key(placements[placements.len() - 1].1.id));
    }
}

/// The instances that a vector holds.
pub open spec fn instances_view(instances: Seq<(Vec<Matrix4>, u32)>) -> Seq<Instance> {
    Seq::new(instances.len(), |i: int| (instances[i].0@, instances[i].1))
}

/// What the renderer remembers between frames: the size of the window, the
/// frame counters, and the number that the device gave to each uploaded
/// texture.
pub struct Renderer {
    window_width: i32,
    window_height: i32,
    frame_num: usize,
    prev_frame_num: usize,
    texture_handle_lookup: HashMap<u32, u32>,
}

impl Renderer {
    #[verifier::type_invariant]
    spec fn well_formed(&self) -> bool {
        self.prev_frame_num <= self.frame_num
    }

    /// The number on the device of each uploaded texture, by handle id.
    pub closed spec fn textures(&self) -> Map<u32, u32> {
        self.texture_handle_lookup@
    }

    /// The size of the window after the last frame.
    pub closed spec fn window(&self) -> (i32, i32) {
        (self.window_width, self.window_height)
    }

    /// The number of frames drawn.
    pub closed spec fn frames(&self) -> usize {
        self.frame_num
    }

    /// The number of frames that had been drawn at the last report.
    pub closed spec fn reported_frames(&self) -> usize {
        self.prev_frame_num
    }

    /// A renderer with a window of one by one, no frame drawn and no
    /// texture uploaded.
    pub fn new() -> (renderer: Self)
        ensures
            renderer.textures() == Map::<u32, u32>::empty(),
            renderer.window() == (1i32, 1i32),
            renderer.frames() == 0,
            renderer.reported_frames() == 0,
    {
        Renderer {
            window_width: 1,
            window_height: 1,
            frame_num: 0,
            prev_frame_num: 0,
            texture_handle_lookup: HashMap::new(),
        }
    }

    /// The number of frames drawn.
    pub fn frame_num(&self) -> (n: usize)
        ensures
            n == self.frames(),
    {
        self.frame_num
    }

    /// The number that the device gave to the texture of `handle`, if it
    /// was uploaded.
    pub fn texture_id(&self, handle: TextureHandle) -> (id: Option<u32>)
        ensures
            id == (if self.textures().contains_key(handle.id) {
                Some(self.textures()[handle.id])
            } else {
                None
            }),
    {
        broadcast use vstd::std_specs::hash::group_hash_axioms;

        match self.texture_handle_lookup.get(&handle.id) {
            Some(id) => Some(*id),
            None => None,
        }
    }

    /// Records what the device answered to the upload of the texture of
    /// `handle`. A negative answer is a failure: nothing is recorded and
    /// the result is `false`. Any other answer is the number of the texture
    /// on the device and replaces an earlier one for the same handle.
    pub fn texture_uploaded(&mut self, handle: TextureHandle, answer: i32) -> (accepted: bool)
        ensures
            accepted == (answer >= 0),
            final(self).textures() == (if answer >= 0 {
                old(self).textures().insert(handle.id, answer as u32)
            } else {
                old(self).textures()
            }),
            final(self).window() == old(self).window(),
            final(self).frames() == old(self).frames(),
            final(self).reported_frames() == old(self).reported_frames(),
    {
        broadcast use vstd::std_specs::hash::group_hash_axioms;

        proof {
            use_type_invariant(&*self);
        }
        if answer < 0 {
            false
        } else {
            let mut lookup: HashMap<u32, u32> = HashMap::new();
            std::mem::swap(&mut lookup, &mut self.texture_handle_lookup);
            lookup.insert(handle.id, answer as u32);
            self.texture_handle_lookup = lookup;
            true
        }
    }

    /// The instances to draw for a scene: its leaves in depth-first order,
    /// without those whose texture has not been uploaded yet.
    pub fn update_instances(&self, scene: SceneGraph) -> (instances: Vec<(Vec<Matrix4>, u32)>)
        ensures
            instances_view(instances@) == resolved(scene.leaves(), self.textures()),
            instances@.len() <= scene.leaf_count(),
    {
        let ghost all = scene.leaves();
        let ghost lookup = self.textures();
        let mut walk = scene.into_iter();
        let mut instances: Vec<(Vec<Matrix4>, u32)> = Vec::new();
        let ghost mut done: int = 0;
        proof {
            assert(all.take(0) =~= Seq::<Placement>::empty());
            assert(instances_view(instances@) =~= resolved(all.take(0), lookup));
            assert(all.skip(0) =~= all);
        }
        loop
            invariant_except_break
                walk.remaining() == all.skip(done),
            invariant
                lookup == self.textures(),
                0 <= done <= all.len(),
                instances_view(instances@) == resolved(all.take(done), lookup),
            ensures
                done == all.len(),
            decreases all.len() - done,
        {
            match walk.next() {
                Some((chain, texture_handle)) => {
                    let ghost before = instances@;
                    proof {
                        assert(all.take(done + 1).drop_last() =~= all.take(done));
                        assert(all.take(done + 1).last() == all[done]);
                        assert(all.skip(done).skip(1) =~= all.skip(done + 1));
                    }
                    match self.texture_id(texture_handle) {
                        Some(texture_id) => {
                            instances.push((chain, texture_id));
                            proof {
                                assert(instances_view(instances@) =~= instances_view(before).push(
                                    (chain@, texture_id),
                                ));
                            }
                        },
                        None => {},
                    }
                    proof {
                        done = done + 1;
                    }
                },
                None => {
                    break ;
                },
            }
        }
        proof {
            assert(all.take(done) =~= all);
            lemma_resolved_len(all, lookup);
        }
        instances
    }

    /// Takes note of a drawn frame and of the size that the window has
    /// now. The result says whether the size differs from that at the
    /// frame before, in which case the projection has to be made anew.
    pub fn frame_drawn(&mut self, window_width: i32, window_height: i32) -> (resized: bool)
        requires
            old(self).frames() < usize::MAX,
        ensures
            resized == (old(self).window() != (window_width, window_height)),
            final(self).window() == (window_width, window_height),
            final(self).frames() == old(self).frames() + 1,
            final(self).reported_frames() == old(self).reported_frames(),
            final(self).textures() == old(self).textures(),
    {
        proof {
            use_type_invariant(&*self);
        }
        let resized = window_width != self.window_width || window_height != self.window_height;
        if resized {
            self.window_width = window_width;
            self.window_height = window_height;
        }
        self.frame_num += 1;
        resized
    }

    /// Decides whether a report on the frame rate is due: it is once more
    /// than a second has gone by since the last one. Where it is due, the
    /// result is the number of frames drawn since the last report, and the
    /// count starts again.
    pub fn report_due(&mut self, elapsed_micros: u128) -> (frames: Option<usize>)
        ensures
            frames == (if elapsed_micros > 1000000 {
                Some((old(self).frames() - old(self).reported_frames()) as usize)
            } else {
                None
            }),
            final(self).reported_frames() == (if elapsed_micros > 1000000 {
                old(self).frames()
            } else {
                old(self).reported_frames()
            }),
            final(self).frames() == old(self).frames(),
            final(self).window() == old(self).window(),
            final(self).textures() == old(self).textures(),
    {
        proof {
            use_type_invariant(&*self);
        }
        if elapsed_micros > 1000000 {
            let num_frames = self.frame_num - self.prev_frame_num;
            self.prev_frame_num = self.frame_num;
            Some(num_frames)
        } else {
            None
        }
    }
}

} // verus!
