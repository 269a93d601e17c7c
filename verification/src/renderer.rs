//! The frame loop's synchronization core.
//!
//! The renderer runs a fixed ring of frame slots, each owning one
//! image-available semaphore, one render-finished semaphore and one fence.
//! The driver around it performs the device calls (wait, acquire, submit,
//! present); the renderer decides, from its state and each call's outcome,
//! what happens next — and those decisions carry the safety contracts: the
//! fence of the current slot is waited on before the slot is reused, an
//! image claimed by an earlier slot is not re-recorded before that slot's
//! fence has been waited on, and a stale swapchain always routes to
//! recreation instead of submission.

use crate::error::Error;
use crate::manager::ResourceManager;
use crate::resources::{cache_extends, lemma_extends_trans, lemma_load_extends, same_entries_modulo_refs};
use crate::swapchain::Swapchain;
use vstd::prelude::*;

verus! {

/// How many frames the processor may be ahead of the device.
pub const MAX_FRAMES_IN_FLIGHT: usize = 2;

/// What acquiring the next swapchain image reported.
#[derive(Copy, Clone, Debug)]
pub enum AcquireOutcome {
    /// An image is available; `suboptimal` flags a still-usable but
    /// non-ideal swapchain.
    Acquired { image_index: usize, suboptimal: bool },
    /// The swapchain no longer matches the surface.
    OutOfDate,
    /// Any other device failure.
    DeviceError,
}

/// What presenting a finished image reported.
#[derive(Copy, Clone, Debug)]
pub enum PresentOutcome {
    Presented { suboptimal: bool },
    OutOfDate,
    DeviceError,
}

/// What the renderer decides to do with the frame after acquisition.
#[derive(Copy, Clone, Debug, PartialEq, Eq, Structural)]
pub enum FramePlan {
    /// Record and submit against this image; if `wait_slot` names a frame
    /// slot, that slot's fence must be waited on first, because it was the
    /// last to claim this image.
    Render { image_index: usize, wait_slot: Option<usize> },
    /// The swapchain is stale: recreate everything and skip this frame.
    RecreateSwapchain,
    /// A device failure: drop this frame, keep the loop alive.
    Abandon,
}

/// The per-slot fence state: `Some(frame)` when a submission made on frame
/// number `frame` has been handed to the device and not yet waited on.
pub struct Renderer {
    fences: Vec<Option<usize>>,
    images_in_flight: Vec<Option<usize>>,
    current_frame: usize,
    frame_count: usize,
    material: u64,
    renderpass: u64,
    model: u64,
    commandbuffer_count: usize,
}

impl Renderer {
    pub closed spec fn fences_spec(&self) -> Seq<Option<usize>> {
        self.fences@
    }

    pub closed spec fn images_in_flight_spec(&self) -> Seq<Option<usize>> {
        self.images_in_flight@
    }

    pub closed spec fn current_frame_spec(&self) -> int {
        self.current_frame as int
    }

    pub closed spec fn frame_count_spec(&self) -> int {
        self.frame_count as int
    }

    /// The handle of the material the renderer draws with.
    pub closed spec fn material_spec(&self) -> u64 {
        self.material
    }

    /// The handle of the render pass the renderer records against.
    pub closed spec fn renderpass_spec(&self) -> u64 {
        self.renderpass
    }

    /// The handle of the model the renderer draws.
    pub closed spec fn model_spec(&self) -> u64 {
        self.model
    }

    /// How many command buffers the renderer records: one per swapchain
    /// image, because recording is keyed by the acquired image index.
    pub closed spec fn commandbuffer_count_spec(&self) -> int {
        self.commandbuffer_count as int
    }

    /// The synchronization invariant of the frame ring.
    ///
    /// There are exactly `MAX_FRAMES_IN_FLIGHT` slots; the current slot is
    /// the frame counter modulo the slot count; a pending fence on slot `s`
    /// guards a submission from a frame numbered congruent to `s` within the
    /// last ring of frames; and the image-claim table only names real slots.
    pub open spec fn wf(&self) -> bool {
        let n = MAX_FRAMES_IN_FLIGHT as int;
        &&& self.fences_spec().len() == n
        &&& 0 <= self.current_frame_spec() < n
        &&& self.current_frame_spec() == self.frame_count_spec() % n
        &&& forall|s: int|
            0 <= s < n ==> ((#[trigger] self.fences_spec()[s]) matches Some(f) ==> {
                &&& (f as int) % (MAX_FRAMES_IN_FLIGHT as int) == s
                &&& self.frame_count_spec() - n <= f <= self.frame_count_spec()
            })
        &&& forall|i: int|
            0 <= i < self.images_in_flight_spec().len() ==> ((
            #[trigger] self.images_in_flight_spec()[i]) matches Some(s) ==> 0 <= s < n)
    }

    /// Creates the frame ring: all fences start signaled (so the first
    /// frames do not block) and no swapchain image is claimed yet. The
    /// renderer's drawing data — swapchain, material, render pass, model —
    /// is loaded from the manager through `create_data`.
    pub fn new(
        manager: &mut ResourceManager,
        swapchain: Swapchain,
        material_path: &str,
        renderpass_path: &str,
        model_path: &str,
    ) -> (r: Result<Renderer, Error>)
        requires
            old(manager).wf(),
            old(manager).materials.id_bound() < u64::MAX,
            old(manager).pipelines.id_bound() < u64::MAX,
            old(manager).renderpasses.id_bound() + 1 < u64::MAX,
            old(manager).models.id_bound() < u64::MAX,
            old(manager).material_sources.has(material_path@) ==> old(manager).textures.id_bound()
                + old(manager).material_sources.source_at(material_path@)@.textures.len()
                <= u64::MAX,
        ensures
            final(manager).wf(),
            final(manager).swapchain == Some(swapchain),
            r is Ok <==> old(manager).can_load_material(material_path@) && old(
                manager,
            ).can_load_renderpass(renderpass_path@) && old(manager).can_load_model(model_path@),
            cache_extends(old(manager).textures, final(manager).textures),
            cache_extends(old(manager).models, final(manager).models),
            cache_extends(old(manager).renderpasses, final(manager).renderpasses),
            cache_extends(old(manager).pipelines, final(manager).pipelines),
            cache_extends(old(manager).materials, final(manager).materials),
            r matches Ok(rend) ==> ({
                &&& rend.wf()
                &&& rend.frame_count_spec() == 0
                &&& rend.current_frame_spec() == 0
                &&& forall|s: int|
                    0 <= s < MAX_FRAMES_IN_FLIGHT as int ==> (#[trigger] rend.fences_spec()[s])
                        is None
                &&& rend.images_in_flight_spec().len()
                    == final(manager).swapchain.unwrap().image_count_spec()
                &&& rend.commandbuffer_count_spec() == rend.images_in_flight_spec().len()
                &&& forall|i: int|
                    0 <= i < rend.images_in_flight_spec().len() ==> (
                    #[trigger] rend.images_in_flight_spec()[i]) is None
                &&& final(manager).materials.contains_id(rend.material_spec())
                &&& final(manager).renderpasses.contains_id(rend.renderpass_spec())
                &&& final(manager).models.contains_id(rend.model_spec())
                &&& final(manager).swapchain is Some
            }),
    {
        Self::create_data(manager, swapchain, material_path, renderpass_path, model_path)
    }

    /// Builds the renderer's per-swapchain data: sets the new swapchain on
    /// the manager, loads the material, render pass and model, and sizes the
    /// command buffer list and the image-claim table to the swapchain's
    /// image count. Used both at construction and after a recreation.
    fn create_data(
        manager: &mut ResourceManager,
        swapchain: Swapchain,
        material_path: &str,
        renderpass_path: &str,
        model_path: &str,
    ) -> (r: Result<Renderer, Error>)
        requires
            old(manager).wf(),
            old(manager).materials.id_bound() < u64::MAX,
            old(manager).pipelines.id_bound() < u64::MAX,
            old(manager).renderpasses.id_bound() + 1 < u64::MAX,
            old(manager).models.id_bound() < u64::MAX,
            old(manager).material_sources.has(material_path@) ==> old(manager).textures.id_bound()
                + old(manager).material_sources.source_at(material_path@)@.textures.len()
                <= u64::MAX,
        ensures
            final(manager).wf(),
            final(manager).swapchain == Some(swapchain),
            r is Ok <==> old(manager).can_load_material(material_path@) && old(
                manager,
            ).can_load_renderpass(renderpass_path@) && old(manager).can_load_model(model_path@),
            cache_extends(old(manager).textures, final(manager).textures),
            cache_extends(old(manager).models, final(manager).models),
            cache_extends(old(manager).renderpasses, final(manager).renderpasses),
            cache_extends(old(manager).pipelines, final(manager).pipelines),
            cache_extends(old(manager).materials, final(manager).materials),
            r matches Ok(rend) ==> ({
                &&& rend.wf()
                &&& rend.frame_count_spec() == 0
                &&& rend.current_frame_spec() == 0
                &&& forall|s: int|
                    0 <= s < MAX_FRAMES_IN_FLIGHT as int ==> (#[trigger] rend.fences_spec()[s])
                        is None
                &&& rend.images_in_flight_spec().len()
                    == final(manager).swapchain.unwrap().image_count_spec()
                &&& rend.commandbuffer_count_spec() == rend.images_in_flight_spec().len()
                &&& forall|i: int|
                    0 <= i < rend.images_in_flight_spec().len() ==> (
                    #[trigger] rend.images_in_flight_spec()[i]) is None
                &&& final(manager).materials.contains_id(rend.material_spec())
                &&& final(manager).renderpasses.contains_id(rend.renderpass_spec())
                &&& final(manager).models.contains_id(rend.model_spec())
                &&& final(manager).swapchain is Some
            }),
    {
        let image_count = swapchain.image_count();
        manager.set_swapchain(swapchain);

        let ghost mat_pre = manager.materials;
        let material = match manager.load_material(material_path) {
            Ok(h) => h,
            Err(e) => {
                return Err(e);
            },
        };
        let ghost rp_pre = manager.renderpasses;
        let renderpass = match manager.load_renderpass(renderpass_path) {
            Ok(h) => h,
            Err(e) => {
                proof {
                    if old(manager).can_load_renderpass(renderpass_path@) {
                        if old(manager).renderpasses.contains_path(renderpass_path@) {
                            let i = old(manager).renderpasses.index_of(renderpass_path@);
                            assert(rp_pre.live()[i].path
                                == old(manager).renderpasses.live()[i].path);
                            assert(rp_pre.contains_path(renderpass_path@));
                        }
                        assert(false);
                    }
                }
                return Err(e);
            },
        };
        proof {
            // The render pass was loadable already before the material: any
            // path the material load cached along the way came from a
            // registered description.
            if !old(manager).renderpass_sources.has(renderpass_path@) {
                assert(rp_pre.contains_path(renderpass_path@));
                let w = rp_pre.index_of(renderpass_path@);
                let pre0 = *old(manager);
                if pre0.materials.contains_path(material_path@) {
                    assert(rp_pre == pre0.renderpasses);
                    assert(pre0.renderpasses.contains_path(renderpass_path@));
                } else {
                    let ms = pre0.material_sources.source_at(material_path@)@;
                    if pre0.pipelines.contains_path(ms.pipeline) {
                        assert(rp_pre.same_state(&pre0.renderpasses));
                        assert(pre0.renderpasses.live()[w].path@ == renderpass_path@);
                        assert(pre0.renderpasses.contains_path(renderpass_path@));
                    } else {
                        let psrc_rp = pre0.pipeline_sources.source_at(ms.pipeline)@.renderpass;
                        if pre0.renderpasses.contains_path(psrc_rp) {
                            assert(rp_pre.live() == pre0.renderpasses.live().update(
                                pre0.renderpasses.index_of(psrc_rp),
                                rp_pre.live()[pre0.renderpasses.index_of(psrc_rp)],
                            ));
                            assert(pre0.renderpasses.live()[w].path@ == renderpass_path@);
                            assert(pre0.renderpasses.contains_path(renderpass_path@));
                        } else {
                            assert(rp_pre.live() == pre0.renderpasses.live().push(
                                rp_pre.live().last(),
                            ));
                            if w < pre0.renderpasses.live().len() {
                                assert(pre0.renderpasses.live()[w].path@ == renderpass_path@);
                                assert(pre0.renderpasses.contains_path(renderpass_path@));
                            } else {
                                assert(rp_pre.live()[w] == rp_pre.live().last());
                                assert(renderpass_path@ == psrc_rp);
                                assert(pre0.renderpass_sources.has(psrc_rp));
                                assert(false);
                            }
                        }
                    }
                }
            }
            assert(old(manager).can_load_renderpass(renderpass_path@));
        }
        let ghost mo_pre = manager.models;
        let model = match manager.load_model(model_path) {
            Ok(h) => h,
            Err(e) => {
                return Err(e);
            },
        };
        proof {
            lemma_load_extends(mat_pre, manager.materials, material_path@, material);
            lemma_load_extends(rp_pre, manager.renderpasses, renderpass_path@, renderpass);
            lemma_load_extends(mo_pre, manager.models, model_path@, model);
            lemma_extends_trans(old(manager).materials, mat_pre, manager.materials);
            lemma_extends_trans(old(manager).renderpasses, rp_pre, manager.renderpasses);
        }

        let mut fences: Vec<Option<usize>> = Vec::new();
        let mut s: usize = 0;
        while s < MAX_FRAMES_IN_FLIGHT
            invariant
                0 <= s <= MAX_FRAMES_IN_FLIGHT,
                fences@.len() == s,
                forall|j: int| 0 <= j < s ==> (#[trigger] fences@[j]) is None,
            decreases MAX_FRAMES_IN_FLIGHT - s,
        {
            fences.push(None);
            s += 1;
        }

        let mut images_in_flight: Vec<Option<usize>> = Vec::new();
        let mut i: usize = 0;
        while i < image_count
            invariant
                0 <= i <= image_count,
                images_in_flight@.len() == i,
                forall|j: int| 0 <= j < i ==> (#[trigger] images_in_flight@[j]) is None,
            decreases image_count - i,
        {
            images_in_flight.push(None);
            i += 1;
        }

        let rend = Renderer {
            fences,
            images_in_flight,
            current_frame: 0,
            frame_count: 0,
            material,
            renderpass,
            model,
            commandbuffer_count: image_count,
        };
        Ok(rend)
    }

    /// The slot whose fence the driver must wait on before this frame may
    /// begin: always the current frame slot, which is what bounds the
    /// processor to at most `MAX_FRAMES_IN_FLIGHT` unacknowledged frames.
    /// After the wait the slot's fence counts as signaled.
    pub fn begin_frame(&mut self) -> (slot: usize)
        requires
            old(self).wf(),
        ensures
            final(self).wf(),
            slot == old(self).current_frame_spec(),
            final(self).fences_spec() == old(self).fences_spec().update(
                slot as int,
                None::<usize>,
            ),
            final(self).images_in_flight_spec() == old(self).images_in_flight_spec(),
            final(self).current_frame_spec() == old(self).current_frame_spec(),
            final(self).frame_count_spec() == old(self).frame_count_spec(),
            final(self).material_spec() == old(self).material_spec(),
            final(self).renderpass_spec() == old(self).renderpass_spec(),
            final(self).model_spec() == old(self).model_spec(),
    {
        let slot = self.current_frame;
        self.fences[slot] = None;
        slot
    }

    /// Decides the frame's fate from the acquisition outcome: a stale or
    /// suboptimal swapchain routes to recreation with nothing submitted; a
    /// device error abandons the frame; otherwise the acquired image is to
    /// be recorded, after waiting on the fence of whichever slot last
    /// claimed it.
    pub fn plan_frame(&self, outcome: &AcquireOutcome) -> (plan: FramePlan)
        requires
            self.wf(),
            outcome matches AcquireOutcome::Acquired { image_index, .. } ==> *image_index
                < self.images_in_flight_spec().len(),
        ensures
            outcome is OutOfDate ==> plan == FramePlan::RecreateSwapchain,
            outcome is DeviceError ==> plan == FramePlan::Abandon,
            outcome matches AcquireOutcome::Acquired { suboptimal: true, .. } ==> plan
                == FramePlan::RecreateSwapchain,
            outcome matches AcquireOutcome::Acquired { image_index, suboptimal: false } ==> plan
                == (FramePlan::Render {
                image_index: *image_index,
                wait_slot: self.images_in_flight_spec()[*image_index as int],
            }),
    {
        match outcome {
            AcquireOutcome::OutOfDate => FramePlan::RecreateSwapchain,
            AcquireOutcome::DeviceError => FramePlan::Abandon,
            AcquireOutcome::Acquired { image_index, suboptimal } => {
                if *suboptimal {
                    FramePlan::RecreateSwapchain
                } else {
                    FramePlan::Render {
                        image_index: *image_index,
                        wait_slot: self.images_in_flight[*image_index],
                    }
                }
            },
        }
    }

    /// Books the submission the driver is about to make: the acquired image
    /// is now claimed by the current slot, and the current slot's fence
    /// guards this frame's work.
    pub fn mark_submitted(&mut self, image_index: usize)
        requires
            old(self).wf(),
            image_index < old(self).images_in_flight_spec().len(),
        ensures
            final(self).wf(),
            final(self).images_in_flight_spec() == old(self).images_in_flight_spec().update(
                image_index as int,
                Some(old(self).current_frame_spec() as usize),
            ),
            final(self).fences_spec() == old(self).fences_spec().update(
                old(self).current_frame_spec(),
                Some(old(self).frame_count_spec() as usize),
            ),
            final(self).current_frame_spec() == old(self).current_frame_spec(),
            final(self).frame_count_spec() == old(self).frame_count_spec(),
            final(self).material_spec() == old(self).material_spec(),
            final(self).renderpass_spec() == old(self).renderpass_spec(),
            final(self).model_spec() == old(self).model_spec(),
    {
        self.images_in_flight[image_index] = Some(self.current_frame);
        let slot = self.current_frame;
        self.fences[slot] = Some(self.frame_count);
        proof {
            assert(self.frame_count_spec() % (MAX_FRAMES_IN_FLIGHT as int)
                == self.current_frame_spec());
        }
    }

    /// Closes the frame after presentation: a stale or suboptimal result
    /// asks for recreation; a device error drops the frame; a clean present
    /// advances to the next frame slot.
    pub fn complete_frame(&mut self, outcome: &PresentOutcome) -> (recreate: bool)
        requires
            old(self).wf(),
            old(self).frame_count_spec() + 1 <= usize::MAX,
            (old(self).fences_spec()[old(self).current_frame_spec()] matches Some(f) ==> f
                == old(self).frame_count_spec()),
        ensures
            final(self).wf(),
            recreate == (outcome is OutOfDate || outcome matches PresentOutcome::Presented {
                suboptimal: true,
            }),
            outcome matches PresentOutcome::Presented { suboptimal: false } ==> ({
                &&& final(self).frame_count_spec() == old(self).frame_count_spec() + 1
                &&& final(self).current_frame_spec() == (old(self).current_frame_spec() + 1) % (
                MAX_FRAMES_IN_FLIGHT as int)
            }),
            !(outcome matches PresentOutcome::Presented { suboptimal: false }) ==> ({
                &&& final(self).frame_count_spec() == old(self).frame_count_spec()
                &&& final(self).current_frame_spec() == old(self).current_frame_spec()
            }),
            final(self).fences_spec() == old(self).fences_spec(),
            final(self).images_in_flight_spec() == old(self).images_in_flight_spec(),
            final(self).material_spec() == old(self).material_spec(),
            final(self).renderpass_spec() == old(self).renderpass_spec(),
            final(self).model_spec() == old(self).model_spec(),
    {
        match outcome {
            PresentOutcome::Presented { suboptimal } => {
                if *suboptimal {
                    true
                } else {
                    self.current_frame = (self.current_frame + 1) % MAX_FRAMES_IN_FLIGHT;
                    self.frame_count = self.frame_count + 1;
                    proof {
                        let n = MAX_FRAMES_IN_FLIGHT as int;
                        let fc = old(self).frame_count_spec();
                        let cur = old(self).current_frame_spec();
                        assert(self.current_frame_spec() == self.frame_count_spec() % n) by {
                            vstd::arithmetic::div_mod::lemma_add_mod_noop(fc, 1, n);
                            vstd::arithmetic::div_mod::lemma_small_mod(1nat, n as nat);
                            vstd::arithmetic::div_mod::lemma_mod_twice(fc, n);
                        }
                        assert forall|s: int|
                            0 <= s < n implies ((#[trigger] self.fences_spec()[s]) matches Some(f)
                            ==> (f as int) % n == s && self.frame_count_spec() - n <= f
                            <= self.frame_count_spec()) by {
                            match self.fences_spec()[s] {
                                Some(f) => {
                                    if s == cur {
                                        assert(f == fc);
                                    } else {
                                        if f == fc - n {
                                            assert((f as int) % n == s);
                                            assert(((fc - n) % n) == fc % n) by {
                                                vstd::arithmetic::div_mod::lemma_sub_mod_noop(
                                                    fc,
                                                    n,
                                                    n,
                                                );
                                                vstd::arithmetic::div_mod::lemma_mod_self_0(n);
                                                vstd::arithmetic::div_mod::lemma_mod_twice(fc, n);
                                            }
                                            assert(s == cur);
                                        }
                                        if f == fc {
                                            assert((f as int) % n == cur);
                                        }
                                    }
                                },
                                None => {},
                            }
                        }
                    }
                    false
                }
            },
            PresentOutcome::OutOfDate => true,
            PresentOutcome::DeviceError => false,
        }
    }

    /// The number of command buffers the renderer records into.
    pub fn commandbuffer_count(&self) -> (r: usize)
        ensures
            r == self.commandbuffer_count_spec(),
    {
        self.commandbuffer_count
    }

    /// The frame slot the next frame will use.
    pub fn current_frame(&self) -> (r: usize)
        ensures
            r == self.current_frame_spec(),
    {
        self.current_frame
    }

    /// How many frames have been completed.
    pub fn frame_count(&self) -> (r: usize)
        ensures
            r == self.frame_count_spec(),
    {
        self.frame_count
    }

    /// The submission a slot's fence still guards, if any.
    pub fn fence_pending(&self, slot: usize) -> (r: Option<usize>)
        requires
            slot < self.fences_spec().len(),
        ensures
            r == self.fences_spec()[slot as int],
    {
        self.fences[slot]
    }

    /// The frame slot that last claimed a swapchain image, if any.
    pub fn image_claim(&self, image_index: usize) -> (r: Option<usize>)
        requires
            image_index < self.images_in_flight_spec().len(),
        ensures
            r == self.images_in_flight_spec()[image_index as int],
    {
        self.images_in_flight[image_index]
    }

    /// The handle of the material the renderer draws with.
    pub fn material(&self) -> (r: u64)
        ensures
            r == self.material_spec(),
    {
        self.material
    }

    /// The handle of the render pass the renderer records against.
    pub fn renderpass(&self) -> (r: u64)
        ensures
            r == self.renderpass_spec(),
    {
        self.renderpass
    }

    /// The handle of the model the renderer draws.
    pub fn model(&self) -> (r: u64)
        ensures
            r == self.model_spec(),
    {
        self.model
    }

    /// Law: frame-fence throttling. Whenever the fence of the current slot
    /// is still pending at the start of a frame, the submission it guards is
    /// exactly `MAX_FRAMES_IN_FLIGHT` frames old — so waiting on it bounds
    /// the processor to that many unacknowledged frames, never more.
    pub proof fn lemma_throttle(&self, f: usize)
        requires
            self.wf(),
            self.fences_spec()[self.current_frame_spec()] == Some(f),
            f < self.frame_count_spec(),
        ensures
            f == self.frame_count_spec() - MAX_FRAMES_IN_FLIGHT,
    {
        let n = MAX_FRAMES_IN_FLIGHT as int;
        let s = self.current_frame_spec();
        let fc = self.frame_count_spec();
        assert((f as int) % n == s);
        assert(fc % n == s);
        assert(fc - n <= f < fc);
        assert((fc - f) % n == 0) by {
            vstd::arithmetic::div_mod::lemma_sub_mod_noop(fc, f as int, n);
            vstd::arithmetic::div_mod::lemma_small_mod(0nat, n as nat);
        }
        if f != fc - n {
            assert(0 < fc - f < n);
            vstd::arithmetic::div_mod::lemma_small_mod((fc - f) as nat, n as nat);
        }
    }

    /// Rebuilds everything that depends on the swapchain after it went
    /// stale: the manager recreates its render passes, pipelines and
    /// materials in dependency order, the renderer gives back the handles it
    /// held on the old objects and rebuilds its per-image data against the
    /// new swapchain. The image-claim table is resized to the new image
    /// count and cleared, and the frame ring keeps running.
    ///
    /// When every live dependent still finds its dependency (the manager's
    /// rebuild cannot fail), success is owed exactly when the id space has
    /// room and the three paths are loadable; the rebuilt caches then hold,
    /// entry for entry, the freshly built resources, each dependent wired to
    /// its rebuilt dependency. A rebuild from an already inconsistent
    /// manager promises only well-formedness.
    pub fn recreate(
        self,
        manager: &mut ResourceManager,
        swapchain: Swapchain,
        material_path: &str,
        renderpass_path: &str,
        model_path: &str,
    ) -> (r: Result<Renderer, Error>)
        requires
            self.wf(),
            old(manager).wf(),
            old(manager).swapchain is Some,
            old(manager).renderpasses.id_bound() + old(manager).renderpasses.live().len()
                <= u64::MAX,
            old(manager).pipelines.id_bound() + old(manager).pipelines.live().len() <= u64::MAX,
            old(manager).materials.id_bound() + old(manager).materials.live().len() <= u64::MAX,
        ensures
            final(manager).wf(),
            r is Ok ==> final(manager).swapchain == Some(swapchain),
            old(manager).recreate_deps_ok() ==> (r is Ok <==> ({
                let pre = *old(manager);
                &&& pre.materials.id_bound() + pre.materials.live().len() < u64::MAX
                &&& pre.pipelines.id_bound() + pre.pipelines.live().len() < u64::MAX
                &&& pre.renderpasses.id_bound() + pre.renderpasses.live().len() + 1 < u64::MAX
                &&& pre.models.id_bound() < u64::MAX
                &&& (pre.material_sources.has(material_path@) ==> pre.textures.id_bound()
                    + pre.material_sources.source_at(material_path@)@.textures.len() <= u64::MAX)
                &&& pre.can_load_material(material_path@)
                &&& pre.can_load_renderpass(renderpass_path@)
                &&& pre.can_load_model(model_path@)
            })),
            r is Ok && old(manager).recreate_deps_ok() ==> ({
                let pre = *old(manager);
                let post = *final(manager);
                &&& post.renderpasses.live().len() >= pre.renderpasses.live().len()
                &&& forall|i: int|
                    0 <= i < pre.renderpasses.live().len() ==> ({
                        let nn = #[trigger] post.renderpasses.live()[i];
                        let oo = pre.renderpasses.live()[i];
                        &&& nn.path == oo.path
                        &&& nn.resource.spec == oo.resource.spec
                        &&& nn.resource.color_format == pre.swapchain.unwrap().format_spec()
                        &&& nn.resource.depth_format == pre.swapchain.unwrap().depth_image_spec().format
                        &&& nn.id >= pre.renderpasses.id_bound()
                    })
                &&& post.pipelines.live().len() >= pre.pipelines.live().len()
                &&& forall|i: int|
                    0 <= i < pre.pipelines.live().len() ==> ({
                        let nn = #[trigger] post.pipelines.live()[i];
                        let oo = pre.pipelines.live()[i];
                        &&& nn.path == oo.path
                        &&& nn.resource.spec == oo.resource.spec
                        &&& nn.resource.extent == pre.swapchain.unwrap().extent_spec()
                        &&& nn.id >= pre.pipelines.id_bound()
                        &&& post.renderpasses.contains_path(nn.resource.spec.renderpass@)
                        &&& nn.resource.renderpass_handle == post.renderpasses.entry_at(
                            nn.resource.spec.renderpass@,
                        ).id
                    })
                &&& post.materials.live().len() >= pre.materials.live().len()
                &&& forall|i: int|
                    0 <= i < pre.materials.live().len() ==> ({
                        let nn = #[trigger] post.materials.live()[i];
                        let oo = pre.materials.live()[i];
                        &&& nn.path == oo.path
                        &&& nn.resource.spec == oo.resource.spec
                        &&& nn.resource.texture_handles == oo.resource.texture_handles
                        &&& nn.id >= pre.materials.id_bound()
                        &&& post.pipelines.contains_path(nn.resource.spec.pipeline@)
                        &&& nn.resource.pipeline_handle == post.pipelines.entry_at(
                            nn.resource.spec.pipeline@,
                        ).id
                    })
            }),
            r matches Ok(rend) ==> ({
                &&& rend.wf()
                &&& rend.images_in_flight_spec().len()
                    == final(manager).swapchain.unwrap().image_count_spec()
                &&& rend.commandbuffer_count_spec() == rend.images_in_flight_spec().len()
                &&& forall|i: int|
                    0 <= i < rend.images_in_flight_spec().len() ==> (
                    #[trigger] rend.images_in_flight_spec()[i]) is None
                &&& rend.current_frame_spec() == self.current_frame_spec()
                &&& rend.frame_count_spec() == self.frame_count_spec()
                &&& rend.fences_spec() == self.fences_spec()
                &&& final(manager).materials.contains_id(rend.material_spec())
                &&& final(manager).renderpasses.contains_id(rend.renderpass_spec())
                &&& final(manager).models.contains_id(rend.model_spec())
            }),
    {
        let ghost pre = *old(manager);

        // The device has gone idle; the manager rebuilds the dependency
        // chain first. A failure here is reported by the caller and the
        // frame is skipped, exactly like a dropped frame.
        let _recreated = manager.recreate();
        let ghost s1 = *manager;
        proof {
            if pre.recreate_deps_ok() {
                assert(_recreated is Ok);
            }
        }

        // The old per-image data is gone with the old swapchain; give the
        // old handles back (they are stale after the rebuild, in which case
        // giving them back changes nothing).
        let mut rebuilt = self;
        manager.release_material(rebuilt.material);
        manager.release_renderpass(rebuilt.renderpass);
        manager.release_model(rebuilt.model);
        let ghost s2 = *manager;
        proof {
            // The releases only lower holder counts: paths, ids and
            // resources stay put, list for list.
            assert(same_entries_modulo_refs(s2.materials.live(), s1.materials.live()));
            assert(same_entries_modulo_refs(s2.renderpasses.live(), s1.renderpasses.live()));
            assert(same_entries_modulo_refs(s2.models.live(), s1.models.live()));
            assert(s2.pipelines == s1.pipelines);
            assert(s2.textures == s1.textures);
            if pre.recreate_deps_ok() {
                crate::manager::lemma_loadability_preserved(
                    pre,
                    s2,
                    material_path@,
                    renderpass_path@,
                    model_path@,
                );
            }
        }

        if manager.materials.id_counter() == u64::MAX || manager.pipelines.id_counter()
            == u64::MAX || manager.renderpasses.id_counter() >= u64::MAX - 1
            || manager.models.id_counter() == u64::MAX {
            return Err(Error::UnimplementedFeature("resource id space exhausted"));
        }
        match manager.material_sources.find(material_path) {
            Some(src) => {
                let tex_len = src.textures.len();
                if manager.textures.id_counter() > u64::MAX - tex_len as u64 {
                    return Err(Error::UnimplementedFeature("resource id space exhausted"));
                }
            },
            None => {},
        }

        match Self::create_data(manager, swapchain, material_path, renderpass_path, model_path) {
            Ok(fresh) => {
                proof {
                    if pre.recreate_deps_ok() {
                        let post = *manager;
                        assert forall|i: int|
                            0 <= i < pre.renderpasses.live().len() implies ({
                                let nn = #[trigger] post.renderpasses.live()[i];
                                let oo = pre.renderpasses.live()[i];
                                &&& nn.path == oo.path
                                &&& nn.resource.spec == oo.resource.spec
                                &&& nn.resource.color_format == pre.swapchain.unwrap().format_spec()
                                &&& nn.resource.depth_format == pre.swapchain.unwrap().depth_image_spec().format
                                &&& nn.id >= pre.renderpasses.id_bound()
                            }) by {
                            assert(post.renderpasses.live()[i].path
                                == s2.renderpasses.live()[i].path);
                            assert(post.renderpasses.live()[i].resource
                                == s2.renderpasses.live()[i].resource);
                            assert(post.renderpasses.live()[i].id == s2.renderpasses.live()[i].id);
                            assert(s2.renderpasses.live()[i].path == s1.renderpasses.live()[i].path);
                        }
                        assert forall|i: int|
                            0 <= i < pre.pipelines.live().len() implies ({
                                let nn = #[trigger] post.pipelines.live()[i];
                                let oo = pre.pipelines.live()[i];
                                &&& nn.path == oo.path
                                &&& nn.resource.spec == oo.resource.spec
                                &&& nn.resource.extent == pre.swapchain.unwrap().extent_spec()
                                &&& nn.id >= pre.pipelines.id_bound()
                                &&& post.renderpasses.contains_path(nn.resource.spec.renderpass@)
                                &&& nn.resource.renderpass_handle == post.renderpasses.entry_at(
                                    nn.resource.spec.renderpass@,
                                ).id
                            }) by {
                            assert(post.pipelines.live()[i].path == s2.pipelines.live()[i].path);
                            assert(post.pipelines.live()[i].resource
                                == s2.pipelines.live()[i].resource);
                            assert(post.pipelines.live()[i].id == s2.pipelines.live()[i].id);
                            let p = post.pipelines.live()[i].resource.spec.renderpass@;
                            assert(s1.renderpasses.contains_path(p));
                            crate::resources::lemma_modulo_refs_stable(
                                s2.renderpasses,
                                s1.renderpasses,
                                p,
                            );
                            crate::resources::lemma_extends_entry_stable(
                                s2.renderpasses,
                                post.renderpasses,
                                p,
                            );
                        }
                        assert forall|i: int|
                            0 <= i < pre.materials.live().len() implies ({
                                let nn = #[trigger] post.materials.live()[i];
                                let oo = pre.materials.live()[i];
                                &&& nn.path == oo.path
                                &&& nn.resource.spec == oo.resource.spec
                                &&& nn.resource.texture_handles == oo.resource.texture_handles
                                &&& nn.id >= pre.materials.id_bound()
                                &&& post.pipelines.contains_path(nn.resource.spec.pipeline@)
                                &&& nn.resource.pipeline_handle == post.pipelines.entry_at(
                                    nn.resource.spec.pipeline@,
                                ).id
                            }) by {
                            assert(post.materials.live()[i].path == s2.materials.live()[i].path);
                            assert(post.materials.live()[i].resource
                                == s2.materials.live()[i].resource);
                            assert(post.materials.live()[i].id == s2.materials.live()[i].id);
                            assert(s2.materials.live()[i].path == s1.materials.live()[i].path);
                            let p = post.materials.live()[i].resource.spec.pipeline@;
                            assert(s1.pipelines.contains_path(p));
                            crate::resources::lemma_modulo_refs_stable(
                                s2.pipelines,
                                s1.pipelines,
                                p,
                            );
                            crate::resources::lemma_extends_entry_stable(
                                s2.pipelines,
                                post.pipelines,
                                p,
                            );
                        }
                    }
                }
                rebuilt.material = fresh.material;
                rebuilt.renderpass = fresh.renderpass;
                rebuilt.model = fresh.model;
                rebuilt.commandbuffer_count = fresh.commandbuffer_count;
                rebuilt.images_in_flight = fresh.images_in_flight;
                Ok(rebuilt)
            },
            Err(e) => Err(e),
        }
    }
}

} // verus!
