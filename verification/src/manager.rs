//! The resource manager: one reference-counted cache per resource kind, the
//! current swapchain, and the catalogs of resource descriptions that loading
//! draws from.
//!
//! Loading is keyed by path: a cached path yields the existing handle and
//! touches nothing else; a miss builds the resource from its registered
//! description, loading its dependencies first (a material its pipeline, a
//! pipeline its render pass), and caches it. Collection and recreation keep
//! the dependency bookkeeping straight: a destroyed dependent gives its
//! dependencies' handles back, and recreation rebuilds render passes, then
//! pipelines, then materials, in that order.

use crate::error::Error;
use crate::material::{Material, MaterialSpec};
use crate::model::Model;
use crate::pipeline::{Pipeline, PipelineSpec};
use crate::renderpass::{RenderPass, RenderPassSpec};
use crate::resources::{
    bumped, cache_extends, dropped, evicted, lemma_extends_entry_stable, lemma_extends_trans,
    lemma_load_extends, lemma_modulo_refs_stable, load_effect, retained,
    same_entries_modulo_refs, ticked, Entry, ResourceInfo, ResourceSystem,
};
use crate::swapchain::Swapchain;
use crate::texture::Texture;
use vstd::prelude::*;

verus! {

/// A catalog of resource descriptions keyed by load path: what the loader
/// would find on disk.
pub struct SourceSet<T> {
    items: Vec<(String, T)>,
}

impl<T> SourceSet<T> {
    /// The registered descriptions, in registration order.
    pub closed spec fn entries(&self) -> Seq<(String, T)> {
        self.items@
    }

    pub open spec fn has(&self, path: Seq<char>) -> bool {
        exists|i: int| 0 <= i < self.entries().len() && (#[trigger] self.entries()[i]).0@ == path
    }

    pub open spec fn index_of(&self, path: Seq<char>) -> int {
        choose|i: int| 0 <= i < self.entries().len() && (#[trigger] self.entries()[i]).0@ == path
    }

    /// The description registered under `path`.
    pub open spec fn source_at(&self, path: Seq<char>) -> T {
        self.entries()[self.index_of(path)].1
    }

    pub open spec fn wf(&self) -> bool {
        forall|i: int, j: int|
            0 <= i < j < self.entries().len() ==> (#[trigger] self.entries()[i]).0@ != (
            #[trigger] self.entries()[j]).0@
    }

    pub fn new() -> (s: SourceSet<T>)
        ensures
            s.entries() == Seq::<(String, T)>::empty(),
            s.wf(),
    {
        let s = SourceSet { items: Vec::new() };
        proof {
            assert(s.entries() =~= Seq::<(String, T)>::empty());
        }
        s
    }

    /// The position of the description registered under `path`, if any.
    fn position(&self, path: &str) -> (r: Option<usize>)
        requires
            self.wf(),
        ensures
            r is Some <==> self.has(path@),
            r matches Some(i) ==> i == self.index_of(path@) && i < self.entries().len()
                && self.entries()[i as int].0@ == path@,
    {
        let p: String = path.to_owned();
        let n = self.items.len();
        let mut i: usize = 0;
        while i < n
            invariant
                self.wf(),
                p@ == path@,
                n == self.entries().len(),
                0 <= i <= n,
                forall|j: int| 0 <= j < i ==> (#[trigger] self.entries()[j]).0@ != path@,
            decreases n - i,
        {
            if self.items[i].0 == p {
                proof {
                    let j = self.index_of(path@);
                    if j != i {
                        assert(self.entries()[i as int].0@ != self.entries()[j].0@);
                    }
                }
                return Some(i);
            }
            i += 1;
        }
        None
    }

    /// Read access to the description registered under `path`.
    pub fn find(&self, path: &str) -> (r: Option<&T>)
        requires
            self.wf(),
        ensures
            r is Some <==> self.has(path@),
            r matches Some(t) ==> *t == self.source_at(path@),
    {
        match self.position(path) {
            Some(i) => Some(&self.items[i].1),
            None => None,
        }
    }

    /// Registers a description under `path`, replacing any earlier one.
    pub fn register(&mut self, path: String, item: T)
        requires
            old(self).wf(),
        ensures
            final(self).wf(),
            old(self).has(path@) ==> final(self).entries() == old(self).entries().update(
                old(self).index_of(path@),
                (path, item),
            ),
            !old(self).has(path@) ==> final(self).entries() == old(self).entries().push(
                (path, item),
            ),
            final(self).has(path@),
            final(self).source_at(path@) == item,
    {
        let ghost olds = self.entries();
        match self.position(path.as_str()) {
            Some(i) => {
                self.items[i] = (path, item);
                proof {
                    assert(self.entries() =~= olds.update(i as int, self.entries()[i as int]));
                    let s = self.entries();
                    assert forall|a: int, b: int|
                        0 <= a < b < s.len() implies (#[trigger] s[a]).0@ != (
                    #[trigger] s[b]).0@ by {
                        assert(olds[a].0@ != olds[b].0@);
                    }
                    let j = self.index_of(s[i as int].0@);
                    if j != i {
                        assert(s[i as int].0@ != s[j].0@);
                    }
                }
            },
            None => {
                self.items.push((path, item));
                proof {
                    let s = self.entries();
                    let n = olds.len() as int;
                    assert forall|a: int, b: int|
                        0 <= a < b < s.len() implies (#[trigger] s[a]).0@ != (
                    #[trigger] s[b]).0@ by {
                        if b < n {
                            assert(olds[a].0@ != olds[b].0@);
                        } else {
                            if s[a].0@ == s[b].0@ {
                                assert(olds[a].0@ == s[b].0@);
                                assert(old(self).has(s[b].0@));
                            }
                        }
                    }
                    assert(s[n].0@ == s[n].0@);
                    assert(self.has(s[n].0@));
                    let j = self.index_of(s[n].0@);
                    if j != n {
                        assert(s[j].0@ != s[n].0@);
                    }
                }
            },
        }
    }
}

/// The caches of `post` pair up with those of `pre` path for path (and, for
/// pipelines, description for description), and the catalogs are the same:
/// then a path is loadable in `post` exactly as it was in `pre`. This is the
/// shape a full rebuild followed by handle releases leaves the manager in.
pub proof fn lemma_loadability_preserved(
    pre: ResourceManager,
    post: ResourceManager,
    material_path: Seq<char>,
    renderpass_path: Seq<char>,
    model_path: Seq<char>,
)
    requires
        pre.wf(),
        post.wf(),
        post.textures.live().len() == pre.textures.live().len(),
        forall|i: int|
            0 <= i < pre.textures.live().len() ==> (#[trigger] post.textures.live()[i]).path
                == pre.textures.live()[i].path,
        post.models.live().len() == pre.models.live().len(),
        forall|i: int|
            0 <= i < pre.models.live().len() ==> (#[trigger] post.models.live()[i]).path
                == pre.models.live()[i].path,
        post.renderpasses.live().len() == pre.renderpasses.live().len(),
        forall|i: int|
            0 <= i < pre.renderpasses.live().len() ==> (
            #[trigger] post.renderpasses.live()[i]).path == pre.renderpasses.live()[i].path,
        post.pipelines.live().len() == pre.pipelines.live().len(),
        forall|i: int|
            0 <= i < pre.pipelines.live().len() ==> (#[trigger] post.pipelines.live()[i]).path
                == pre.pipelines.live()[i].path && post.pipelines.live()[i].resource.spec
                == pre.pipelines.live()[i].resource.spec,
        post.materials.live().len() == pre.materials.live().len(),
        forall|i: int|
            0 <= i < pre.materials.live().len() ==> (#[trigger] post.materials.live()[i]).path
                == pre.materials.live()[i].path,
        sources_unchanged(pre, post),
    ensures
        post.can_load_material(material_path) == pre.can_load_material(material_path),
        post.can_load_renderpass(renderpass_path) == pre.can_load_renderpass(renderpass_path),
        post.can_load_model(model_path) == pre.can_load_model(model_path),
{
    crate::resources::lemma_contains_transfer(post.renderpasses, pre.renderpasses, renderpass_path);
    crate::resources::lemma_contains_transfer(post.models, pre.models, model_path);
    crate::resources::lemma_contains_transfer(post.materials, pre.materials, material_path);
    if pre.material_sources.has(material_path) {
        let ms = pre.material_sources.source_at(material_path)@;
        crate::resources::lemma_contains_transfer(post.pipelines, pre.pipelines, ms.pipeline);
        if pre.pipelines.contains_path(ms.pipeline) {
            let w = pre.pipelines.index_of(ms.pipeline);
            assert(post.pipelines.index_of(ms.pipeline) == w);
            assert(post.pipelines.entry_at(ms.pipeline).resource.spec == pre.pipelines.entry_at(
                ms.pipeline,
            ).resource.spec);
            assert(post.pipeline_spec_view_of(ms.pipeline) == pre.pipeline_spec_view_of(
                ms.pipeline,
            ));
        }
        if pre.pipeline_sources.has(ms.pipeline) {
            crate::resources::lemma_contains_transfer(
                post.renderpasses,
                pre.renderpasses,
                pre.pipeline_sources.source_at(ms.pipeline)@.renderpass,
            );
        }
        assert forall|j: int| 0 <= j < ms.textures.len() implies post.can_load_texture(
            #[trigger] ms.textures[j],
        ) == pre.can_load_texture(ms.textures[j]) by {
            crate::resources::lemma_contains_transfer(
                post.textures,
                pre.textures,
                ms.textures[j],
            );
        }
    }
}

/// Keeps track of loaded resources.
/// Reference-counts every resource and moves the no-longer-used ones to a
/// grace-period garbage list with `collect_garbage`.
pub struct ResourceManager {
    pub textures: ResourceSystem<Texture>,
    pub models: ResourceSystem<Model>,
    pub renderpasses: ResourceSystem<RenderPass>,
    pub pipelines: ResourceSystem<Pipeline>,
    pub materials: ResourceSystem<Material>,
    pub swapchain: Option<Swapchain>,
    pub texture_sources: SourceSet<Texture>,
    pub model_sources: SourceSet<Model>,
    pub renderpass_sources: SourceSet<RenderPassSpec>,
    pub pipeline_sources: SourceSet<PipelineSpec>,
    pub material_sources: SourceSet<MaterialSpec>,
}

/// The description catalogs of both managers are the same.
pub open spec fn sources_unchanged(pre: ResourceManager, post: ResourceManager) -> bool {
    &&& post.texture_sources == pre.texture_sources
    &&& post.model_sources == pre.model_sources
    &&& post.renderpass_sources == pre.renderpass_sources
    &&& post.pipeline_sources == pre.pipeline_sources
    &&& post.material_sources == pre.material_sources
}

impl ResourceManager {
    pub open spec fn wf(&self) -> bool {
        &&& self.textures.wf()
        &&& self.models.wf()
        &&& self.renderpasses.wf()
        &&& self.pipelines.wf()
        &&& self.materials.wf()
        &&& self.texture_sources.wf()
        &&& self.model_sources.wf()
        &&& self.renderpass_sources.wf()
        &&& self.pipeline_sources.wf()
        &&& self.material_sources.wf()
    }

    /// Creates a new resource manager.
    /// Only one should exist per application or graphics context.
    pub fn new() -> (r: ResourceManager)
        ensures
            r.wf(),
            r.textures.live().len() == 0,
            r.models.live().len() == 0,
            r.renderpasses.live().len() == 0,
            r.pipelines.live().len() == 0,
            r.materials.live().len() == 0,
            r.textures.id_bound() == 0,
            r.models.id_bound() == 0,
            r.renderpasses.id_bound() == 0,
            r.pipelines.id_bound() == 0,
            r.materials.id_bound() == 0,
            r.textures.garbage_list().len() == 0,
            r.models.garbage_list().len() == 0,
            r.renderpasses.garbage_list().len() == 0,
            r.pipelines.garbage_list().len() == 0,
            r.materials.garbage_list().len() == 0,
            r.swapchain is None,
            r.texture_sources.entries().len() == 0,
            r.model_sources.entries().len() == 0,
            r.renderpass_sources.entries().len() == 0,
            r.pipeline_sources.entries().len() == 0,
            r.material_sources.entries().len() == 0,
    {
        ResourceManager {
            textures: ResourceSystem::new(),
            models: ResourceSystem::new(),
            renderpasses: ResourceSystem::new(),
            pipelines: ResourceSystem::new(),
            materials: ResourceSystem::new(),
            swapchain: None,
            texture_sources: SourceSet::new(),
            model_sources: SourceSet::new(),
            renderpass_sources: SourceSet::new(),
            pipeline_sources: SourceSet::new(),
            material_sources: SourceSet::new(),
        }
    }

    /// Sets the current swapchain.
    pub fn set_swapchain(&mut self, swapchain: Swapchain)
        ensures
            final(self).swapchain == Some(swapchain),
            final(self).textures == old(self).textures,
            final(self).models == old(self).models,
            final(self).renderpasses == old(self).renderpasses,
            final(self).pipelines == old(self).pipelines,
            final(self).materials == old(self).materials,
            sources_unchanged(*old(self), *final(self)),
    {
        self.swapchain = Some(swapchain);
    }

    /// Returns the currently set swapchain, if any.
    pub fn get_swapchain(&self) -> (r: Option<&Swapchain>)
        ensures
            r is Some <==> self.swapchain is Some,
            r matches Some(s) ==> self.swapchain == Some(*s),
    {
        self.swapchain.as_ref()
    }

    /// Whether a swapchain has been set.
    pub fn has_swapchain(&self) -> (r: bool)
        ensures
            r == (self.swapchain is Some),
    {
        self.swapchain.is_some()
    }


    /// Registers the texture that loading `path` builds from, replacing any
    /// earlier one: what a loader would find on disk under that path.
    pub fn register_texture_source(&mut self, path: String, source: Texture)
        requires
            old(self).wf(),
        ensures
            final(self).wf(),
            final(self).texture_sources.has(path@),
            final(self).texture_sources.source_at(path@) == source,
            old(self).texture_sources.has(path@) ==> final(self).texture_sources.entries() == old(
                self,
            ).texture_sources.entries().update(old(self).texture_sources.index_of(path@), (path, source)),
            !old(self).texture_sources.has(path@) ==> final(self).texture_sources.entries() == old(
                self,
            ).texture_sources.entries().push((path, source)),
            final(self).model_sources == old(self).model_sources,
            final(self).renderpass_sources == old(self).renderpass_sources,
            final(self).pipeline_sources == old(self).pipeline_sources,
            final(self).material_sources == old(self).material_sources,
            final(self).textures == old(self).textures,
            final(self).models == old(self).models,
            final(self).renderpasses == old(self).renderpasses,
            final(self).pipelines == old(self).pipelines,
            final(self).materials == old(self).materials,
            final(self).swapchain == old(self).swapchain,
    {
        self.texture_sources.register(path, source);
    }

    /// Registers the model that loading `path` builds from, replacing any
    /// earlier one: what a loader would find on disk under that path.
    pub fn register_model_source(&mut self, path: String, source: Model)
        requires
            old(self).wf(),
        ensures
            final(self).wf(),
            final(self).model_sources.has(path@),
            final(self).model_sources.source_at(path@) == source,
            old(self).model_sources.has(path@) ==> final(self).model_sources.entries() == old(
                self,
            ).model_sources.entries().update(old(self).model_sources.index_of(path@), (path, source)),
            !old(self).model_sources.has(path@) ==> final(self).model_sources.entries() == old(
                self,
            ).model_sources.entries().push((path, source)),
            final(self).texture_sources == old(self).texture_sources,
            final(self).renderpass_sources == old(self).renderpass_sources,
            final(self).pipeline_sources == old(self).pipeline_sources,
            final(self).material_sources == old(self).material_sources,
            final(self).textures == old(self).textures,
            final(self).models == old(self).models,
            final(self).renderpasses == old(self).renderpasses,
            final(self).pipelines == old(self).pipelines,
            final(self).materials == old(self).materials,
            final(self).swapchain == old(self).swapchain,
    {
        self.model_sources.register(path, source);
    }

    /// Registers the render pass description that loading `path` builds from, replacing any
    /// earlier one: what a loader would find on disk under that path.
    pub fn register_renderpass_source(&mut self, path: String, source: RenderPassSpec)
        requires
            old(self).wf(),
        ensures
            final(self).wf(),
            final(self).renderpass_sources.has(path@),
            final(self).renderpass_sources.source_at(path@) == source,
            old(self).renderpass_sources.has(path@) ==> final(self).renderpass_sources.entries() == old(
                self,
            ).renderpass_sources.entries().update(old(self).renderpass_sources.index_of(path@), (path, source)),
            !old(self).renderpass_sources.has(path@) ==> final(self).renderpass_sources.entries() == old(
                self,
            ).renderpass_sources.entries().push((path, source)),
            final(self).texture_sources == old(self).texture_sources,
            final(self).model_sources == old(self).model_sources,
            final(self).pipeline_sources == old(self).pipeline_sources,
            final(self).material_sources == old(self).material_sources,
            final(self).textures == old(self).textures,
            final(self).models == old(self).models,
            final(self).renderpasses == old(self).renderpasses,
            final(self).pipelines == old(self).pipelines,
            final(self).materials == old(self).materials,
            final(self).swapchain == old(self).swapchain,
    {
        self.renderpass_sources.register(path, source);
    }

    /// Registers the pipeline description that loading `path` builds from, replacing any
    /// earlier one: what a loader would find on disk under that path.
    pub fn register_pipeline_source(&mut self, path: String, source: PipelineSpec)
        requires
            old(self).wf(),
        ensures
            final(self).wf(),
            final(self).pipeline_sources.has(path@),
            final(self).pipeline_sources.source_at(path@) == source,
            old(self).pipeline_sources.has(path@) ==> final(self).pipeline_sources.entries() == old(
                self,
            ).pipeline_sources.entries().update(old(self).pipeline_sources.index_of(path@), (path, source)),
            !old(self).pipeline_sources.has(path@) ==> final(self).pipeline_sources.entries() == old(
                self,
            ).pipeline_sources.entries().push((path, source)),
            final(self).texture_sources == old(self).texture_sources,
            final(self).model_sources == old(self).model_sources,
            final(self).renderpass_sources == old(self).renderpass_sources,
            final(self).material_sources == old(self).material_sources,
            final(self).textures == old(self).textures,
            final(self).models == old(self).models,
            final(self).renderpasses == old(self).renderpasses,
            final(self).pipelines == old(self).pipelines,
            final(self).materials == old(self).materials,
            final(self).swapchain == old(self).swapchain,
    {
        self.pipeline_sources.register(path, source);
    }

    /// Registers the material description that loading `path` builds from, replacing any
    /// earlier one: what a loader would find on disk under that path.
    pub fn register_material_source(&mut self, path: String, source: MaterialSpec)
        requires
            old(self).wf(),
        ensures
            final(self).wf(),
            final(self).material_sources.has(path@),
            final(self).material_sources.source_at(path@) == source,
            old(self).material_sources.has(path@) ==> final(self).material_sources.entries() == old(
                self,
            ).material_sources.entries().update(old(self).material_sources.index_of(path@), (path, source)),
            !old(self).material_sources.has(path@) ==> final(self).material_sources.entries() == old(
                self,
            ).material_sources.entries().push((path, source)),
            final(self).texture_sources == old(self).texture_sources,
            final(self).model_sources == old(self).model_sources,
            final(self).renderpass_sources == old(self).renderpass_sources,
            final(self).pipeline_sources == old(self).pipeline_sources,
            final(self).textures == old(self).textures,
            final(self).models == old(self).models,
            final(self).renderpasses == old(self).renderpasses,
            final(self).pipelines == old(self).pipelines,
            final(self).materials == old(self).materials,
            final(self).swapchain == old(self).swapchain,
    {
        self.material_sources.register(path, source);
    }

    /// A texture load can succeed: the path is cached, or a description for
    /// it is registered.
    pub open spec fn can_load_texture(&self, path: Seq<char>) -> bool {
        self.textures.contains_path(path) || self.texture_sources.has(path)
    }

    /// Loads and caches a texture if it isn't already cached; returns a
    /// handle either way, counting the caller as one more holder. On a miss
    /// with no registered description, fails and changes nothing.
    pub fn load_texture(&mut self, path: &str) -> (r: Result<u64, Error>)
        requires
            old(self).wf(),
            old(self).textures.id_bound() < u64::MAX,
        ensures
            final(self).wf(),
            final(self).models == old(self).models,
            final(self).renderpasses == old(self).renderpasses,
            final(self).pipelines == old(self).pipelines,
            final(self).materials == old(self).materials,
            final(self).swapchain == old(self).swapchain,
            sources_unchanged(*old(self), *final(self)),
            final(self).textures.garbage_list() == old(self).textures.garbage_list(),
            r is Ok <==> old(self).can_load_texture(path@),
            r matches Err(e) ==> final(self).textures.same_state(&old(self).textures) && (e matches
                Error::MissingResource(p) && p@ == path@),
            r matches Ok(h) ==> ({
                if old(self).textures.contains_path(path@) {
                    let i = old(self).textures.index_of(path@);
                    &&& h == old(self).textures.live()[i].id
                    &&& final(self).textures.live() == old(self).textures.live().update(
                        i,
                        Entry {
                            refs: bumped(old(self).textures.live()[i].refs),
                            ..old(self).textures.live()[i]
                        },
                    )
                    &&& final(self).textures.id_bound() == old(self).textures.id_bound()
                } else {
                    let e = final(self).textures.live().last();
                    &&& final(self).textures.live() == old(self).textures.live().push(e)
                    &&& e.path@ == path@
                    &&& e.id == old(self).textures.id_bound()
                    &&& h == e.id
                    &&& e.refs == 1
                    &&& e.resource == old(self).texture_sources.source_at(path@)
                    &&& final(self).textures.id_bound() == old(self).textures.id_bound() + 1
                }
            }),
    {
        match self.textures.get(path) {
            Some(h) => Ok(h),
            None => {
                match self.texture_sources.find(path) {
                    Some(t) => {
                        let resource = *t;
                        let h = self.textures.insert(path.to_owned(), resource);
                        Ok(h)
                    },
                    None => Err(Error::MissingResource(path.to_owned())),
                }
            },
        }
    }

    /// A model load can succeed: the path is cached, or a description for it
    /// is registered.
    pub open spec fn can_load_model(&self, path: Seq<char>) -> bool {
        self.models.contains_path(path) || self.model_sources.has(path)
    }

    /// Loads and caches a model if it isn't already cached; returns a handle
    /// either way, counting the caller as one more holder. On a miss with no
    /// registered description, fails and changes nothing.
    pub fn load_model(&mut self, path: &str) -> (r: Result<u64, Error>)
        requires
            old(self).wf(),
            old(self).models.id_bound() < u64::MAX,
        ensures
            final(self).wf(),
            final(self).textures == old(self).textures,
            final(self).renderpasses == old(self).renderpasses,
            final(self).pipelines == old(self).pipelines,
            final(self).materials == old(self).materials,
            final(self).swapchain == old(self).swapchain,
            sources_unchanged(*old(self), *final(self)),
            r is Ok <==> old(self).can_load_model(path@),
            r matches Err(e) ==> final(self).models.same_state(&old(self).models) && (e matches
                Error::MissingResource(p) && p@ == path@),
            r matches Ok(h) ==> ({
                &&& load_effect(old(self).models, final(self).models, path@, h)
                &&& !old(self).models.contains_path(path@)
                    ==> final(self).models.live().last().resource@ == old(
                    self,
                ).model_sources.source_at(path@)@
            }),
    {
        match self.models.get(path) {
            Some(h) => Ok(h),
            None => {
                match self.model_sources.find(path) {
                    Some(m) => {
                        let resource = m.duplicate();
                        let h = self.models.insert(path.to_owned(), resource);
                        Ok(h)
                    },
                    None => Err(Error::MissingResource(path.to_owned())),
                }
            },
        }
    }

    /// A render pass load can succeed: the path is cached, or a description
    /// for it is registered.
    pub open spec fn can_load_renderpass(&self, path: Seq<char>) -> bool {
        self.renderpasses.contains_path(path) || self.renderpass_sources.has(path)
    }

    /// Loads and caches a render pass from its registered description if the
    /// path isn't already cached, building it against the current
    /// swapchain's color and depth formats. Returns a handle either way,
    /// counting the caller as one more holder.
    pub fn load_renderpass(&mut self, path: &str) -> (r: Result<u64, Error>)
        requires
            old(self).wf(),
            old(self).renderpasses.id_bound() < u64::MAX,
            old(self).swapchain is Some || old(self).renderpasses.contains_path(path@),
        ensures
            final(self).wf(),
            final(self).textures == old(self).textures,
            final(self).models == old(self).models,
            final(self).pipelines == old(self).pipelines,
            final(self).materials == old(self).materials,
            final(self).swapchain == old(self).swapchain,
            sources_unchanged(*old(self), *final(self)),
            r is Ok <==> old(self).can_load_renderpass(path@),
            r matches Err(e) ==> final(self).renderpasses.same_state(&old(self).renderpasses) && (
            e matches Error::MissingResource(p) && p@ == path@),
            r matches Ok(h) ==> ({
                &&& load_effect(old(self).renderpasses, final(self).renderpasses, path@, h)
                &&& !old(self).renderpasses.contains_path(path@) ==> ({
                    let e = final(self).renderpasses.live().last();
                    &&& e.resource.spec@ == old(self).renderpass_sources.source_at(path@)@
                    &&& e.resource.color_format == old(self).swapchain.unwrap().format_spec()
                    &&& e.resource.depth_format == old(
                        self,
                    ).swapchain.unwrap().depth_image_spec().format
                })
            }),
    {
        match self.renderpasses.get(path) {
            Some(h) => Ok(h),
            None => {
                match self.renderpass_sources.find(path) {
                    Some(spec) => {
                        let spec = spec.duplicate();
                        let sc = self.swapchain.as_ref().unwrap();
                        let color_format = sc.format();
                        let depth_format = sc.depth_format();
                        let resource = RenderPass::new(spec, color_format, depth_format);
                        let h = self.renderpasses.insert(path.to_owned(), resource);
                        Ok(h)
                    },
                    None => Err(Error::MissingResource(path.to_owned())),
                }
            },
        }
    }

    /// What loading an uncached pipeline does to the render-pass cache: the
    /// render pass its description names is loaded (cached or built from its
    /// registered description against the current swapchain), and the new
    /// pipeline's handle is that entry's id.
    pub open spec fn pipeline_miss_renderpass_effect(
        pre: ResourceManager,
        rp_post: ResourceSystem<RenderPass>,
        pipeline_path: Seq<char>,
        rp_handle: u64,
    ) -> bool {
        let src = pre.pipeline_sources.source_at(pipeline_path);
        &&& load_effect(pre.renderpasses, rp_post, src@.renderpass, rp_handle)
        &&& rp_post.contains_path(src@.renderpass)
        &&& rp_handle == rp_post.entry_at(src@.renderpass).id
        &&& !pre.renderpasses.contains_path(src@.renderpass) ==> ({
            let rp = rp_post.live().last();
            &&& pre.renderpass_sources.has(src@.renderpass)
            &&& rp.resource.spec@ == pre.renderpass_sources.source_at(src@.renderpass)@
            &&& rp.resource.color_format == pre.swapchain.unwrap().format_spec()
            &&& rp.resource.depth_format == pre.swapchain.unwrap().depth_image_spec().format
        })
    }

    /// A pipeline load can succeed: the path is cached, or a description for
    /// it is registered whose render pass can be loaded in turn.
    pub open spec fn can_load_pipeline(&self, path: Seq<char>) -> bool {
        self.pipelines.contains_path(path) || (self.pipeline_sources.has(path)
            && self.can_load_renderpass(self.pipeline_sources.source_at(path)@.renderpass))
    }

    /// Loads and caches a pipeline if the path isn't already cached, first
    /// loading the render pass its description names (which is how a
    /// pipeline keeps its render pass alive). Returns a handle either way,
    /// counting the caller as one more holder.
    pub fn load_pipeline(&mut self, path: &str) -> (r: Result<u64, Error>)
        requires
            old(self).wf(),
            old(self).pipelines.id_bound() < u64::MAX,
            old(self).renderpasses.id_bound() < u64::MAX,
            old(self).swapchain is Some || old(self).pipelines.contains_path(path@),
        ensures
            final(self).wf(),
            final(self).textures == old(self).textures,
            final(self).models == old(self).models,
            final(self).materials == old(self).materials,
            final(self).swapchain == old(self).swapchain,
            sources_unchanged(*old(self), *final(self)),
            r is Ok <==> old(self).can_load_pipeline(path@),
            r matches Err(e) ==> ({
                let pre = *old(self);
                let post = *final(self);
                &&& post.pipelines.same_state(&pre.pipelines)
                &&& post.renderpasses.same_state(&pre.renderpasses)
                &&& (e matches Error::MissingResource(p) && (p@ == path@ || (
                pre.pipeline_sources.has(path@) && p@ == pre.pipeline_sources.source_at(
                    path@,
                )@.renderpass)))
            }),
            r matches Ok(h) ==> ({
                let pre = *old(self);
                let post = *final(self);
                &&& load_effect(pre.pipelines, post.pipelines, path@, h)
                &&& pre.pipelines.contains_path(path@) ==> post.renderpasses.same_state(
                    &pre.renderpasses,
                )
                &&& !pre.pipelines.contains_path(path@) ==> ({
                    let src = pre.pipeline_sources.source_at(path@);
                    let e = post.pipelines.live().last();
                    &&& e.resource.spec@ == src@
                    &&& e.resource.extent == pre.swapchain.unwrap().extent_spec()
                    &&& ResourceManager::pipeline_miss_renderpass_effect(
                        pre,
                        post.renderpasses,
                        path@,
                        e.resource.renderpass_handle,
                    )
                })
            }),
    {
        match self.pipelines.get(path) {
            Some(h) => Ok(h),
            None => {
                let spec = match self.pipeline_sources.find(path) {
                    Some(s) => s.duplicate(),
                    None => {
                        return Err(Error::MissingResource(path.to_owned()));
                    },
                };
                let ghost rp_pre = self.renderpasses;
                let renderpass_handle = match self.load_renderpass(spec.renderpass.as_str()) {
                    Ok(h) => h,
                    Err(e) => {
                        return Err(e);
                    },
                };
                proof {
                    lemma_load_extends(
                        rp_pre,
                        self.renderpasses,
                        spec.renderpass@,
                        renderpass_handle,
                    );
                }
                let extent = self.swapchain.as_ref().unwrap().extent();
                let resource = Pipeline::new(spec, renderpass_handle, extent);
                let h = self.pipelines.insert(path.to_owned(), resource);
                Ok(h)
            },
        }
    }

    /// The layout list of the pipeline a material at this path would end up
    /// with: the cached pipeline's if the path is cached, the registered
    /// description's otherwise.
    pub open spec fn pipeline_spec_view_of(&self, path: Seq<char>) -> crate::pipeline::PipelineSpecView {
        if self.pipelines.contains_path(path) {
            self.pipelines.entry_at(path).resource.spec@
        } else {
            self.pipeline_sources.source_at(path)@
        }
    }

    /// A material load can succeed: the path is cached, or a description is
    /// registered whose pipeline can be loaded, carries the per-material
    /// descriptor set layout, and whose textures can all be loaded.
    pub open spec fn can_load_material(&self, path: Seq<char>) -> bool {
        self.materials.contains_path(path) || (self.material_sources.has(path) && {
            let ms = self.material_sources.source_at(path)@;
            &&& self.can_load_pipeline(ms.pipeline)
            &&& self.pipeline_spec_view_of(ms.pipeline).layouts.len() >= 2
            &&& forall|j: int|
                0 <= j < ms.textures.len() ==> self.can_load_texture(#[trigger] ms.textures[j])
        })
    }

    /// Loads and caches a material if the path isn't already cached, first
    /// loading the pipeline and the textures its description names (which is
    /// how a material keeps them alive), and checking that the pipeline
    /// carries a per-material descriptor set layout. Returns a handle either
    /// way, counting the caller as one more holder. On failure the material
    /// cache is left unchanged and the handles taken on dependencies are
    /// given back, though dependencies cached along the way stay cached.
    pub fn load_material(&mut self, path: &str) -> (r: Result<u64, Error>)
        requires
            old(self).wf(),
            old(self).materials.id_bound() < u64::MAX,
            old(self).pipelines.id_bound() < u64::MAX,
            old(self).renderpasses.id_bound() < u64::MAX,
            old(self).swapchain is Some || old(self).materials.contains_path(path@),
            old(self).material_sources.has(path@) ==> old(self).textures.id_bound() + old(
                self,
            ).material_sources.source_at(path@)@.textures.len() <= u64::MAX,
        ensures
            final(self).wf(),
            final(self).models == old(self).models,
            final(self).swapchain == old(self).swapchain,
            sources_unchanged(*old(self), *final(self)),
            r is Ok <==> old(self).can_load_material(path@),
            cache_extends(old(self).textures, final(self).textures),
            cache_extends(old(self).pipelines, final(self).pipelines),
            cache_extends(old(self).renderpasses, final(self).renderpasses),
            final(self).renderpasses.id_bound() <= old(self).renderpasses.id_bound() + 1,
            final(self).pipelines.id_bound() <= old(self).pipelines.id_bound() + 1,
            r is Err ==> final(self).materials.same_state(&old(self).materials),
            r matches Err(e) ==> (e is MissingResource || e is MissingDescriptorSet),
            r matches Err(Error::MissingDescriptorSet(k)) ==> k == 1,
            (r matches Err(e) && e is MissingDescriptorSet) <==> ({
                let pre = *old(self);
                &&& !pre.materials.contains_path(path@)
                &&& pre.material_sources.has(path@)
                &&& pre.can_load_pipeline(pre.material_sources.source_at(path@)@.pipeline)
                &&& pre.pipeline_spec_view_of(
                    pre.material_sources.source_at(path@)@.pipeline,
                ).layouts.len() < 2
                &&& forall|j: int|
                    0 <= j < pre.material_sources.source_at(path@)@.textures.len()
                        ==> pre.can_load_texture(
                        #[trigger] pre.material_sources.source_at(path@)@.textures[j],
                    )
            }),
            r matches Ok(h) ==> ({
                let pre = *old(self);
                let post = *final(self);
                &&& load_effect(pre.materials, post.materials, path@, h)
                &&& pre.materials.contains_path(path@) ==> post.textures == pre.textures
                    && post.pipelines == pre.pipelines && post.renderpasses == pre.renderpasses
                &&& !pre.materials.contains_path(path@) ==> ({
                    let ms = pre.material_sources.source_at(path@)@;
                    let e = post.materials.live().last();
                    &&& e.resource.spec@ == ms
                    &&& post.pipelines.contains_path(ms.pipeline)
                    &&& e.resource.pipeline_handle == post.pipelines.entry_at(ms.pipeline).id
                    &&& load_effect(
                        pre.pipelines,
                        post.pipelines,
                        ms.pipeline,
                        e.resource.pipeline_handle,
                    )
                    &&& e.resource.texture_handles@.len() == ms.textures.len()
                    &&& forall|j: int|
                        0 <= j < ms.textures.len() ==> post.textures.contains_path(
                            #[trigger] ms.textures[j],
                        ) && e.resource.texture_handles@[j] == post.textures.entry_at(
                            ms.textures[j],
                        ).id
                    &&& pre.pipelines.contains_path(ms.pipeline) ==> post.renderpasses.same_state(
                        &pre.renderpasses,
                    )
                    &&& !pre.pipelines.contains_path(ms.pipeline) ==> ({
                        let pe = post.pipelines.live().last();
                        &&& pe.resource.spec@ == pre.pipeline_sources.source_at(ms.pipeline)@
                        &&& ResourceManager::pipeline_miss_renderpass_effect(
                            pre,
                            post.renderpasses,
                            ms.pipeline,
                            pe.resource.renderpass_handle,
                        )
                    })
                    &&& post.textures.live().len() <= pre.textures.live().len()
                        + ms.textures.len()
                    &&& forall|k: int|
                        pre.textures.live().len() <= k < post.textures.live().len()
                            ==> ms.textures.contains(
                            (#[trigger] post.textures.live()[k]).path@,
                        )
                })
            }),
    {
        match self.materials.get(path) {
            Some(h) => Ok(h),
            None => {
                let spec = match self.material_sources.find(path) {
                    Some(s) => s.duplicate(),
                    None => {
                        return Err(Error::MissingResource(path.to_owned()));
                    },
                };
                let ghost ms = old(self).material_sources.source_at(path@)@;
                let ghost pl_pre = self.pipelines;
                let pipeline_handle = match self.load_pipeline(spec.pipeline.as_str()) {
                    Ok(h) => h,
                    Err(e) => {
                        return Err(e);
                    },
                };
                proof {
                    lemma_load_extends(pl_pre, self.pipelines, ms.pipeline, pipeline_handle);
                }
                let ghost pl_post = self.pipelines;
                let ghost rp_post = self.renderpasses;
                let ghost tex0 = old(self).textures;

                let mut texture_handles: Vec<u64> = Vec::new();
                let n = spec.textures.len();
                let mut i: usize = 0;
                let mut failed: Option<Error> = None;
                while i < n && failed.is_none()
                    invariant
                        self.wf(),
                        n == spec.textures@.len(),
                        spec@ == ms,
                        ms == old(self).material_sources.source_at(path@)@,
                        0 <= i <= n,
                        tex0 == old(self).textures,
                        tex0.wf(),
                        tex0.id_bound() + n <= u64::MAX,
                        self.textures.live().len() <= tex0.live().len() + i,
                        forall|k: int|
                            tex0.live().len() <= k < self.textures.live().len()
                                ==> ms.textures.contains(
                                (#[trigger] self.textures.live()[k]).path@,
                            ),
                        old(self).pipelines.contains_path(ms.pipeline) ==> rp_post.same_state(
                            &old(self).renderpasses,
                        ),
                        !old(self).pipelines.contains_path(ms.pipeline) ==> ({
                            let pe = pl_post.live().last();
                            &&& pe.resource.spec@ == old(self).pipeline_sources.source_at(
                                ms.pipeline,
                            )@
                            &&& ResourceManager::pipeline_miss_renderpass_effect(
                                *old(self),
                                rp_post,
                                ms.pipeline,
                                pe.resource.renderpass_handle,
                            )
                        }),
                        failed is None ==> texture_handles@.len() == i,
                        self.textures.id_bound() <= tex0.id_bound() + i,
                        cache_extends(tex0, self.textures),
                        self.materials.same_state(&old(self).materials),
                        self.pipelines == pl_post,
                        self.renderpasses == rp_post,
                        pl_post.id_bound() <= old(self).pipelines.id_bound() + 1,
                        rp_post.id_bound() <= old(self).renderpasses.id_bound() + 1,
                        self.models == old(self).models,
                        self.swapchain == old(self).swapchain,
                        sources_unchanged(*old(self), *self),
                        failed is None ==> forall|j: int|
                            0 <= j < i ==> self.textures.contains_path(#[trigger] ms.textures[j])
                                && texture_handles@[j] == self.textures.entry_at(
                                ms.textures[j],
                            ).id,
                        forall|k: int|
                            0 <= k < self.textures.live().len() ==> tex0.contains_path(
                                (#[trigger] self.textures.live()[k]).path@,
                            ) || old(self).texture_sources.has(self.textures.live()[k].path@),
                        failed matches Some(e) ==> (e is MissingResource && exists|j: int|
                            0 <= j < n && !old(self).can_load_texture(#[trigger] ms.textures[j])),
                    decreases n - i,
                {
                    let ghost tex_pre = self.textures;
                    match self.load_texture(spec.textures[i].as_str()) {
                        Ok(th) => {
                            proof {
                                lemma_load_extends(tex_pre, self.textures, ms.textures[i as int], th);
                                lemma_extends_trans(tex0, tex_pre, self.textures);
                                assert forall|j: int| 0 <= j < i implies self.textures.contains_path(
                                    #[trigger] ms.textures[j],
                                ) && texture_handles@[j] == self.textures.entry_at(
                                    ms.textures[j],
                                ).id by {
                                    lemma_extends_entry_stable(
                                        tex_pre,
                                        self.textures,
                                        ms.textures[j],
                                    );
                                }
                                assert forall|k: int|
                                    0 <= k < self.textures.live().len() implies tex0.contains_path(
                                        (#[trigger] self.textures.live()[k]).path@,
                                    ) || old(self).texture_sources.has(
                                        self.textures.live()[k].path@,
                                    ) by {
                                    if k < tex_pre.live().len() {
                                        assert(self.textures.live()[k].path
                                            == tex_pre.live()[k].path);
                                    } else {
                                        assert(self.textures.live()[k]
                                            == self.textures.live().last());
                                    }
                                }
                                assert forall|k: int|
                                    tex0.live().len() <= k < self.textures.live().len()
                                        implies ms.textures.contains(
                                        (#[trigger] self.textures.live()[k]).path@,
                                    ) by {
                                    if k < tex_pre.live().len() {
                                        assert(self.textures.live()[k].path
                                            == tex_pre.live()[k].path);
                                        assert(ms.textures.contains(tex_pre.live()[k].path@));
                                    } else {
                                        assert(self.textures.live()[k]
                                            == self.textures.live().last());
                                        assert(self.textures.live()[k].path@
                                            == ms.textures[i as int]);
                                    }
                                }
                            }
                            texture_handles.push(th);
                        },
                        Err(e) => {
                            proof {
                                assert(ms.textures[i as int] == spec.textures@[i as int]@);
                                if old(self).can_load_texture(ms.textures[i as int]) {
                                    if tex0.contains_path(ms.textures[i as int]) {
                                        lemma_extends_entry_stable(
                                            tex0,
                                            tex_pre,
                                            ms.textures[i as int],
                                        );
                                        assert(tex_pre.contains_path(ms.textures[i as int]));
                                    } else {
                                        assert(old(self).texture_sources.has(
                                            ms.textures[i as int],
                                        ));
                                    }
                                    assert(false);
                                }
                            }
                            failed = Some(e);
                        },
                    }
                    i += 1;
                }

                if let Some(e) = failed {
                    self.pipelines.release(pipeline_handle);
                    proof {
                        assert(cache_extends(pl_post, self.pipelines));
                        lemma_extends_trans(pl_pre, pl_post, self.pipelines);
                    }
                    let m = texture_handles.len();
                    let mut k: usize = 0;
                    while k < m
                        invariant
                            self.wf(),
                            0 <= k <= m,
                            texture_handles@.len() == m,
                            cache_extends(tex0, self.textures),
                            self.materials.same_state(&old(self).materials),
                            cache_extends(pl_pre, self.pipelines),
                            self.pipelines.id_bound() <= old(self).pipelines.id_bound() + 1,
                            self.renderpasses == rp_post,
                            rp_post.id_bound() <= old(self).renderpasses.id_bound() + 1,
                            self.models == old(self).models,
                            self.swapchain == old(self).swapchain,
                            sources_unchanged(*old(self), *self),
                        decreases m - k,
                    {
                        let ghost tex_pre = self.textures;
                        self.textures.release(texture_handles[k]);
                        proof {
                            assert(cache_extends(tex_pre, self.textures));
                            lemma_extends_trans(tex0, tex_pre, self.textures);
                        }
                        k += 1;
                    }
                    return Err(e);
                }

                let ppos = self.pipelines.position(spec.pipeline.as_str()).unwrap();
                let layout_count = self.pipelines.entry_ref(ppos).resource.spec.layouts.len();
                proof {
                    assert(self.pipelines.entry_at(ms.pipeline).resource.spec@.layouts.len()
                        == layout_count);
                    if pl_pre.contains_path(ms.pipeline) {
                        lemma_extends_entry_stable(pl_pre, pl_post, ms.pipeline);
                    } else {
                        pl_post.lemma_index_unique(ms.pipeline, pl_post.live().len() - 1);
                    }
                    assert(old(self).pipeline_spec_view_of(ms.pipeline).layouts.len()
                        == layout_count);
                }
                if layout_count < 2 {
                    self.pipelines.release(pipeline_handle);
                    proof {
                        assert(cache_extends(pl_post, self.pipelines));
                        lemma_extends_trans(pl_pre, pl_post, self.pipelines);
                    }
                    let m = texture_handles.len();
                    let mut k: usize = 0;
                    while k < m
                        invariant
                            self.wf(),
                            0 <= k <= m,
                            texture_handles@.len() == m,
                            cache_extends(tex0, self.textures),
                            self.materials.same_state(&old(self).materials),
                            cache_extends(pl_pre, self.pipelines),
                            self.pipelines.id_bound() <= old(self).pipelines.id_bound() + 1,
                            self.renderpasses == rp_post,
                            rp_post.id_bound() <= old(self).renderpasses.id_bound() + 1,
                            self.models == old(self).models,
                            self.swapchain == old(self).swapchain,
                            sources_unchanged(*old(self), *self),
                        decreases m - k,
                    {
                        let ghost tex_pre = self.textures;
                        self.textures.release(texture_handles[k]);
                        proof {
                            assert(cache_extends(tex_pre, self.textures));
                            lemma_extends_trans(tex0, tex_pre, self.textures);
                        }
                        k += 1;
                    }
                    return Err(Error::MissingDescriptorSet(1));
                }

                let resource = Material::new(spec, pipeline_handle, texture_handles);
                let h = self.materials.insert(path.to_owned(), resource);
                Ok(h)
            },
        }
    }

    /// Runs one garbage-collection pass over every resource kind: resources
    /// with no outside holder move to their kind's garbage list, pending
    /// countdowns fall by one, and resources whose countdown ran out are
    /// destroyed. A destroyed pipeline gives back the handle it held on its
    /// render pass, and a destroyed material the handles it held on its
    /// pipeline and textures — which is what eventually frees those too.
    ///
    /// `garbage_cycles` must be at least the number of frames in flight (or
    /// the swapchain image count), so a resource outlives every command
    /// buffer already submitted against it.
    pub fn collect_garbage(&mut self, garbage_cycles: u32)
        requires
            old(self).wf(),
        ensures
            final(self).wf(),
            final(self).swapchain == old(self).swapchain,
            sources_unchanged(*old(self), *final(self)),
            final(self).models.live() == retained(old(self).models.live()),
            final(self).models.garbage_list() == ticked(old(self).models.garbage_list())
                + evicted(old(self).models.live(), garbage_cycles),
            final(self).models.id_bound() == old(self).models.id_bound(),
            final(self).materials.live() == retained(old(self).materials.live()),
            final(self).materials.garbage_list() == ticked(old(self).materials.garbage_list())
                + evicted(old(self).materials.live(), garbage_cycles),
            final(self).materials.id_bound() == old(self).materials.id_bound(),
            same_entries_modulo_refs(
                final(self).textures.live(),
                retained(old(self).textures.live()),
            ),
            final(self).textures.garbage_list() == ticked(old(self).textures.garbage_list())
                + evicted(old(self).textures.live(), garbage_cycles),
            final(self).textures.id_bound() == old(self).textures.id_bound(),
            same_entries_modulo_refs(
                final(self).renderpasses.live(),
                retained(old(self).renderpasses.live()),
            ),
            final(self).renderpasses.garbage_list() == ticked(
                old(self).renderpasses.garbage_list(),
            ) + evicted(old(self).renderpasses.live(), garbage_cycles),
            final(self).renderpasses.id_bound() == old(self).renderpasses.id_bound(),
            same_entries_modulo_refs(
                final(self).pipelines.live(),
                retained(old(self).pipelines.live()),
            ),
            final(self).pipelines.garbage_list() == ticked(old(self).pipelines.garbage_list())
                + evicted(old(self).pipelines.live(), garbage_cycles),
            final(self).pipelines.id_bound() == old(self).pipelines.id_bound(),
    {
        let _destroyed_textures = self.textures.collect_garbage(garbage_cycles);
        let _destroyed_models = self.models.collect_garbage(garbage_cycles);
        let _destroyed_renderpasses = self.renderpasses.collect_garbage(garbage_cycles);
        let destroyed_pipelines = self.pipelines.collect_garbage(garbage_cycles);

        let ghost tex_c = self.textures;
        let ghost rp_c = self.renderpasses;
        let ghost pl_c = self.pipelines;

        let n = destroyed_pipelines.len();
        let mut i: usize = 0;
        while i < n
            invariant
                self.wf(),
                0 <= i <= n,
                n == destroyed_pipelines@.len(),
                self.textures == tex_c,
                self.pipelines == pl_c,
                same_entries_modulo_refs(self.renderpasses.live(), rp_c.live()),
                self.renderpasses.garbage_list() == rp_c.garbage_list(),
                self.renderpasses.id_bound() == rp_c.id_bound(),
                self.materials == old(self).materials,
                self.models.live() == retained(old(self).models.live()),
                self.models.garbage_list() == ticked(old(self).models.garbage_list()) + evicted(
                    old(self).models.live(),
                    garbage_cycles,
                ),
                self.models.id_bound() == old(self).models.id_bound(),
                self.swapchain == old(self).swapchain,
                sources_unchanged(*old(self), *self),
            decreases n - i,
        {
            let ghost rp_pre = self.renderpasses;
            self.renderpasses.release(destroyed_pipelines[i].renderpass_handle);
            proof {
                assert(same_entries_modulo_refs(self.renderpasses.live(), rp_pre.live()));
            }
            i += 1;
        }

        let destroyed_materials = self.materials.collect_garbage(garbage_cycles);
        let ghost rp_r = self.renderpasses;
        let ghost mat_c = self.materials;

        let m = destroyed_materials.len();
        let mut j: usize = 0;
        while j < m
            invariant
                self.wf(),
                0 <= j <= m,
                m == destroyed_materials@.len(),
                self.renderpasses == rp_r,
                self.materials == mat_c,
                same_entries_modulo_refs(self.textures.live(), tex_c.live()),
                self.textures.garbage_list() == tex_c.garbage_list(),
                self.textures.id_bound() == tex_c.id_bound(),
                same_entries_modulo_refs(self.pipelines.live(), pl_c.live()),
                self.pipelines.garbage_list() == pl_c.garbage_list(),
                self.pipelines.id_bound() == pl_c.id_bound(),
                self.models.live() == retained(old(self).models.live()),
                self.models.garbage_list() == ticked(old(self).models.garbage_list()) + evicted(
                    old(self).models.live(),
                    garbage_cycles,
                ),
                self.models.id_bound() == old(self).models.id_bound(),
                self.swapchain == old(self).swapchain,
                sources_unchanged(*old(self), *self),
            decreases m - j,
        {
            let mat = &destroyed_materials[j];
            let ghost pl_pre = self.pipelines;
            self.pipelines.release(mat.pipeline_handle);
            proof {
                assert(same_entries_modulo_refs(self.pipelines.live(), pl_pre.live()));
            }
            let t = mat.texture_handles.len();
            let mut k: usize = 0;
            while k < t
                invariant
                    self.wf(),
                    0 <= k <= t,
                    j < m,
                    m == destroyed_materials@.len(),
                    t == destroyed_materials@[j as int].texture_handles@.len(),
                    mat == &destroyed_materials[j as int],
                    self.renderpasses == rp_r,
                    self.materials == mat_c,
                    same_entries_modulo_refs(self.textures.live(), tex_c.live()),
                    self.textures.garbage_list() == tex_c.garbage_list(),
                    self.textures.id_bound() == tex_c.id_bound(),
                    same_entries_modulo_refs(self.pipelines.live(), pl_c.live()),
                    self.pipelines.garbage_list() == pl_c.garbage_list(),
                    self.pipelines.id_bound() == pl_c.id_bound(),
                    self.models.live() == retained(old(self).models.live()),
                    self.models.garbage_list() == ticked(old(self).models.garbage_list())
                        + evicted(old(self).models.live(), garbage_cycles),
                    self.models.id_bound() == old(self).models.id_bound(),
                    self.swapchain == old(self).swapchain,
                    sources_unchanged(*old(self), *self),
                decreases t - k,
            {
                let ghost tex_pre = self.textures;
                self.textures.release(mat.texture_handles[k]);
                proof {
                    assert(same_entries_modulo_refs(self.textures.live(), tex_pre.live()));
                }
                k += 1;
            }
            j += 1;
        }
    }

    /// Every live pipeline still finds its render pass, and every live
    /// material still finds a pipeline that carries the per-material layout:
    /// what a full recreation needs to rebuild everything.
    pub open spec fn recreate_deps_ok(&self) -> bool {
        &&& forall|i: int|
            0 <= i < self.pipelines.live().len() ==> self.renderpasses.contains_path(
                (#[trigger] self.pipelines.live()[i]).resource.spec.renderpass@,
            )
        &&& forall|i: int|
            0 <= i < self.materials.live().len() ==> {
                let m = #[trigger] self.materials.live()[i];
                &&& self.pipelines.contains_path(m.resource.spec.pipeline@)
                &&& self.pipelines.entry_at(
                    m.resource.spec.pipeline@,
                ).resource.spec.layouts@.len() >= 2
            }
    }

    /// Rebuilds every live render pass against the current swapchain's
    /// formats, then every live pipeline against the rebuilt render passes,
    /// then every live material against the rebuilt pipelines — in that
    /// order, because each queries the manager for its already-updated
    /// dependency. Each kind's live map is replaced wholesale: the rebuilt
    /// resources carry fresh identities, which is how staleness is told
    /// apart. A failure partway aborts the whole recreation and leaves the
    /// manager in a possibly half-rebuilt state.
    pub fn recreate(&mut self) -> (r: Result<(), Error>)
        requires
            old(self).wf(),
            old(self).swapchain is Some,
            old(self).renderpasses.id_bound() + old(self).renderpasses.live().len() <= u64::MAX,
            old(self).pipelines.id_bound() + old(self).pipelines.live().len() <= u64::MAX,
            old(self).materials.id_bound() + old(self).materials.live().len() <= u64::MAX,
        ensures
            final(self).wf(),
            final(self).textures == old(self).textures,
            final(self).models == old(self).models,
            final(self).swapchain == old(self).swapchain,
            sources_unchanged(*old(self), *final(self)),
            r is Ok <==> old(self).recreate_deps_ok(),
            r is Ok ==> ({
                let pre = *old(self);
                let post = *final(self);
                &&& post.renderpasses.live().len() == pre.renderpasses.live().len()
                &&& forall|i: int|
                    0 <= i < pre.renderpasses.live().len() ==> {
                        let n = #[trigger] post.renderpasses.live()[i];
                        let o = pre.renderpasses.live()[i];
                        &&& n.path == o.path
                        &&& n.resource.spec == o.resource.spec
                        &&& n.resource.color_format == pre.swapchain.unwrap().format_spec()
                        &&& n.resource.depth_format == pre.swapchain.unwrap().depth_image_spec().format
                        &&& n.id >= pre.renderpasses.id_bound()
                    }
                &&& post.renderpasses.garbage_list() == pre.renderpasses.garbage_list()
                &&& post.pipelines.live().len() == pre.pipelines.live().len()
                &&& forall|i: int|
                    0 <= i < pre.pipelines.live().len() ==> {
                        let n = #[trigger] post.pipelines.live()[i];
                        let o = pre.pipelines.live()[i];
                        &&& n.path == o.path
                        &&& n.resource.spec == o.resource.spec
                        &&& n.resource.extent == pre.swapchain.unwrap().extent_spec()
                        &&& n.id >= pre.pipelines.id_bound()
                        &&& post.renderpasses.contains_path(n.resource.spec.renderpass@)
                        &&& n.resource.renderpass_handle == post.renderpasses.entry_at(
                            n.resource.spec.renderpass@,
                        ).id
                    }
                &&& post.pipelines.garbage_list() == pre.pipelines.garbage_list()
                &&& post.materials.live().len() == pre.materials.live().len()
                &&& forall|i: int|
                    0 <= i < pre.materials.live().len() ==> {
                        let n = #[trigger] post.materials.live()[i];
                        let o = pre.materials.live()[i];
                        &&& n.path == o.path
                        &&& n.resource.spec == o.resource.spec
                        &&& n.resource.texture_handles == o.resource.texture_handles
                        &&& n.id >= pre.materials.id_bound()
                        &&& n.refs == 0
                        &&& post.pipelines.contains_path(n.resource.spec.pipeline@)
                        &&& n.resource.pipeline_handle == post.pipelines.entry_at(
                            n.resource.spec.pipeline@,
                        ).id
                    }
                &&& post.materials.garbage_list() == pre.materials.garbage_list()
                &&& post.renderpasses.id_bound() == pre.renderpasses.id_bound()
                    + pre.renderpasses.live().len()
                &&& post.pipelines.id_bound() == pre.pipelines.id_bound()
                    + pre.pipelines.live().len()
                &&& post.materials.id_bound() == pre.materials.id_bound()
                    + pre.materials.live().len()
            }),
    {
        let color_format = self.swapchain.as_ref().unwrap().format();
        let depth_format = self.swapchain.as_ref().unwrap().depth_format();
        let extent = self.swapchain.as_ref().unwrap().extent();

        // Rebuild the render passes against the new formats.
        let ghost orp = old(self).renderpasses.live();
        let mut old_rps = self.renderpasses.take_live();
        let ghost rp_taken = self.renderpasses;
        let mut new_rps: Vec<(String, RenderPass)> = Vec::new();
        proof {
            assert(orp.subrange(0, orp.len() as int) =~= orp);
        }
        while old_rps.len() > 0
            invariant
                orp == old(self).renderpasses.live(),
                new_rps@.len() + old_rps@.len() == orp.len(),
                old_rps@ == orp.subrange(new_rps@.len() as int, orp.len() as int),
                color_format == old(self).swapchain.unwrap().format_spec(),
                depth_format == old(self).swapchain.unwrap().depth_image_spec().format,
                forall|i: int|
                    0 <= i < new_rps@.len() ==> {
                        let v = #[trigger] new_rps@[i];
                        &&& v.0 == orp[i].path
                        &&& v.1.spec == orp[i].resource.spec
                        &&& v.1.color_format == color_format
                        &&& v.1.depth_format == depth_format
                    },
                self.renderpasses == rp_taken,
            decreases old_rps@.len(),
        {
            let ghost rem = old_rps@;
            let e = old_rps.remove(0);
            new_rps.push((e.path, RenderPass::new(e.resource.spec, color_format, depth_format)));
            proof {
                assert(old_rps@ =~= orp.subrange(new_rps@.len() as int, orp.len() as int));
            }
        }
        proof {
            assert forall|i: int, j: int|
                0 <= i < j < new_rps@.len() implies (#[trigger] new_rps@[i]).0@ != (
            #[trigger] new_rps@[j]).0@ by {
                assert(orp[i].path@ != orp[j].path@);
            }
        }
        self.renderpasses.replace_live(new_rps);
        let ghost rp_base = self.renderpasses;

        // Rebuild the pipelines; each queries the manager for its
        // now-updated render pass.
        let ghost opl = old(self).pipelines.live();
        let mut old_pls = self.pipelines.take_live();
        let ghost pl_taken = self.pipelines;
        let mut new_pls: Vec<(String, Pipeline)> = Vec::new();
        proof {
            assert(opl.subrange(0, opl.len() as int) =~= opl);
        }
        while old_pls.len() > 0
            invariant
                old(self).wf(),
                orp == old(self).renderpasses.live(),
                opl == old(self).pipelines.live(),
                new_pls@.len() + old_pls@.len() == opl.len(),
                old_pls@ == opl.subrange(new_pls@.len() as int, opl.len() as int),
                extent == old(self).swapchain.unwrap().extent_spec(),
                rp_base.wf(),
                rp_base.live().len() == orp.len(),
                forall|i: int|
                    0 <= i < orp.len() ==> {
                        let n = #[trigger] rp_base.live()[i];
                        &&& n.path == orp[i].path
                        &&& n.resource.spec == orp[i].resource.spec
                        &&& n.resource.color_format == old(self).swapchain.unwrap().format_spec()
                        &&& n.resource.depth_format == old(
                            self,
                        ).swapchain.unwrap().depth_image_spec().format
                        &&& n.id >= old(self).renderpasses.id_bound()
                    },
                rp_base.garbage_list() == old(self).renderpasses.garbage_list(),
                self.renderpasses.wf(),
                same_entries_modulo_refs(self.renderpasses.live(), rp_base.live()),
                self.renderpasses.garbage_list() == rp_base.garbage_list(),
                self.renderpasses.id_bound() == rp_base.id_bound(),
                rp_base.id_bound() == old(self).renderpasses.id_bound() + orp.len(),
                self.pipelines == pl_taken,
                pl_taken.wf(),
                pl_taken.live().len() == 0,
                pl_taken.garbage_list() == old(self).pipelines.garbage_list(),
                pl_taken.id_bound() == old(self).pipelines.id_bound(),
                old(self).swapchain is Some,
                self.textures == old(self).textures,
                self.models == old(self).models,
                self.materials == old(self).materials,
                self.swapchain == old(self).swapchain,
                sources_unchanged(*old(self), *self),
                forall|i: int|
                    0 <= i < new_pls@.len() ==> {
                        let v = #[trigger] new_pls@[i];
                        &&& v.0 == opl[i].path
                        &&& v.1.spec == opl[i].resource.spec
                        &&& v.1.extent == extent
                        &&& self.renderpasses.contains_path(v.1.spec.renderpass@)
                        &&& v.1.renderpass_handle == self.renderpasses.entry_at(
                            v.1.spec.renderpass@,
                        ).id
                    },
                forall|i: int|
                    0 <= i < new_pls@.len() ==> old(self).renderpasses.contains_path(
                        (#[trigger] opl[i]).resource.spec.renderpass@,
                    ),
            decreases old_pls@.len(),
        {
            let e = old_pls.remove(0);
            proof {
                assert(old_pls@ =~= opl.subrange(new_pls@.len() as int + 1, opl.len() as int));
            }
            let ghost rp_pre = self.renderpasses;
            match self.renderpasses.get(e.resource.spec.renderpass.as_str()) {
                Some(h) => {
                    proof {
                        let p = e.resource.spec.renderpass@;
                        assert(rp_pre.contains_path(p));
                        assert(same_entries_modulo_refs(rp_base.live(), rp_pre.live()));
                        lemma_modulo_refs_stable(rp_base, rp_pre, p);
                        let k = rp_base.index_of(p);
                        assert(rp_base.live()[k].path@ == p);
                        assert(orp[k].path@ == p);
                        assert(old(self).renderpasses.contains_path(p));
                        assert(same_entries_modulo_refs(self.renderpasses.live(), rp_pre.live()));
                        assert(same_entries_modulo_refs(self.renderpasses.live(), rp_base.live()));
                    }
                    let ghost vlen = new_pls@.len();
                    new_pls.push((e.path, Pipeline::new(e.resource.spec, h, extent)));
                    proof {
                        assert forall|i: int|
                            0 <= i < new_pls@.len() implies ({
                                let v = #[trigger] new_pls@[i];
                                &&& self.renderpasses.contains_path(v.1.spec.renderpass@)
                                &&& v.1.renderpass_handle == self.renderpasses.entry_at(
                                    v.1.spec.renderpass@,
                                ).id
                            }) by {
                            let v = new_pls@[i];
                            if i < vlen {
                                lemma_modulo_refs_stable(
                                    self.renderpasses,
                                    rp_pre,
                                    v.1.spec.renderpass@,
                                );
                            } else {
                                rp_pre.lemma_index_unique(v.1.spec.renderpass@, rp_pre.index_of(v.1.spec.renderpass@));
                                lemma_modulo_refs_stable(
                                    self.renderpasses,
                                    rp_pre,
                                    v.1.spec.renderpass@,
                                );
                            }
                        }
                    }
                },
                None => {
                    proof {
                        let p = e.resource.spec.renderpass@;
                        let k = new_pls@.len() as int;
                        assert(opl[k].resource.spec.renderpass@ == p);
                        if old(self).renderpasses.contains_path(p) {
                            let w = old(self).renderpasses.index_of(p);
                            assert(rp_base.live()[w].path@ == p);
                            assert(rp_base.contains_path(p));
                            assert(same_entries_modulo_refs(rp_pre.live(), rp_base.live()));
                            lemma_modulo_refs_stable(rp_pre, rp_base, p);
                        }
                        assert(!old(self).recreate_deps_ok());
                    }
                    return Err(Error::MissingResource(e.resource.spec.renderpass));
                },
            }
        }
        proof {
            assert forall|i: int, j: int|
                0 <= i < j < new_pls@.len() implies (#[trigger] new_pls@[i]).0@ != (
            #[trigger] new_pls@[j]).0@ by {
                assert(opl[i].path@ != opl[j].path@);
            }
        }
        self.pipelines.replace_live(new_pls);
        let ghost pl_base = self.pipelines;
        let ghost rp_done = self.renderpasses;

        // Rebuild the materials; each queries the manager for its
        // now-updated pipeline and keeps the texture handles it held.
        let ghost omat = old(self).materials.live();
        let mut old_mats = self.materials.take_live();
        let ghost mat_taken = self.materials;
        let mut new_mats: Vec<(String, Material)> = Vec::new();
        proof {
            assert(omat.subrange(0, omat.len() as int) =~= omat);
        }
        while old_mats.len() > 0
            invariant
                old(self).wf(),
                opl == old(self).pipelines.live(),
                omat == old(self).materials.live(),
                new_mats@.len() + old_mats@.len() == omat.len(),
                old_mats@ == omat.subrange(new_mats@.len() as int, omat.len() as int),
                pl_base.wf(),
                pl_base.live().len() == opl.len(),
                extent == old(self).swapchain.unwrap().extent_spec(),
                rp_done.wf(),
                rp_done.live().len() == orp.len(),
                orp == old(self).renderpasses.live(),
                forall|i: int|
                    0 <= i < orp.len() ==> {
                        let n = #[trigger] rp_done.live()[i];
                        &&& n.path == orp[i].path
                        &&& n.resource.spec == orp[i].resource.spec
                        &&& n.resource.color_format == old(self).swapchain.unwrap().format_spec()
                        &&& n.resource.depth_format == old(
                            self,
                        ).swapchain.unwrap().depth_image_spec().format
                        &&& n.id >= old(self).renderpasses.id_bound()
                    },
                rp_done.garbage_list() == old(self).renderpasses.garbage_list(),
                forall|i: int|
                    0 <= i < opl.len() ==> {
                        let n = #[trigger] pl_base.live()[i];
                        &&& n.path == opl[i].path
                        &&& n.resource.spec == opl[i].resource.spec
                        &&& n.resource.extent == old(self).swapchain.unwrap().extent_spec()
                        &&& n.id >= old(self).pipelines.id_bound()
                        &&& rp_done.contains_path(n.resource.spec.renderpass@)
                        &&& n.resource.renderpass_handle == rp_done.entry_at(
                            n.resource.spec.renderpass@,
                        ).id
                    },
                pl_base.garbage_list() == old(self).pipelines.garbage_list(),
                self.pipelines.wf(),
                same_entries_modulo_refs(self.pipelines.live(), pl_base.live()),
                self.pipelines.garbage_list() == pl_base.garbage_list(),
                self.pipelines.id_bound() == pl_base.id_bound(),
                pl_base.id_bound() == old(self).pipelines.id_bound() + opl.len(),
                self.renderpasses == rp_done,
                rp_done.id_bound() == old(self).renderpasses.id_bound() + orp.len(),
                self.materials == mat_taken,
                mat_taken.wf(),
                mat_taken.live().len() == 0,
                mat_taken.garbage_list() == old(self).materials.garbage_list(),
                mat_taken.id_bound() == old(self).materials.id_bound(),
                old(self).swapchain is Some,
                self.textures == old(self).textures,
                self.models == old(self).models,
                self.swapchain == old(self).swapchain,
                sources_unchanged(*old(self), *self),
                forall|i: int|
                    0 <= i < new_mats@.len() ==> {
                        let v = #[trigger] new_mats@[i];
                        &&& v.0 == omat[i].path
                        &&& v.1.spec == omat[i].resource.spec
                        &&& v.1.texture_handles == omat[i].resource.texture_handles
                        &&& self.pipelines.contains_path(v.1.spec.pipeline@)
                        &&& v.1.pipeline_handle == self.pipelines.entry_at(v.1.spec.pipeline@).id
                    },
                forall|i: int|
                    0 <= i < new_mats@.len() ==> ({
                        let m = #[trigger] omat[i];
                        &&& old(self).pipelines.contains_path(m.resource.spec.pipeline@)
                        &&& old(self).pipelines.entry_at(
                            m.resource.spec.pipeline@,
                        ).resource.spec.layouts@.len() >= 2
                    }),
            decreases old_mats@.len(),
        {
            let e = old_mats.remove(0);
            proof {
                assert(old_mats@ =~= omat.subrange(new_mats@.len() as int + 1, omat.len() as int));
            }
            let ghost pl_pre = self.pipelines;
            match self.pipelines.get(e.resource.spec.pipeline.as_str()) {
                Some(h) => {
                    proof {
                        let p = e.resource.spec.pipeline@;
                        assert(pl_pre.contains_path(p));
                        assert(same_entries_modulo_refs(pl_base.live(), pl_pre.live()));
                        lemma_modulo_refs_stable(pl_base, pl_pre, p);
                        let k = pl_base.index_of(p);
                        assert(pl_base.live()[k].path@ == p);
                        assert(opl[k].path@ == p);
                        assert(old(self).pipelines.contains_path(p));
                        old(self).pipelines.lemma_index_unique(p, k);
                        assert(old(self).pipelines.entry_at(p).resource.spec
                            == pl_base.live()[k].resource.spec);
                        assert(same_entries_modulo_refs(self.pipelines.live(), pl_pre.live()));
                        lemma_modulo_refs_stable(self.pipelines, pl_pre, p);
                        lemma_modulo_refs_stable(pl_pre, pl_base, p);
                        assert(self.pipelines.entry_at(p).resource.spec
                            == old(self).pipelines.entry_at(p).resource.spec);
                    }
                    let ppos = self.pipelines.position(e.resource.spec.pipeline.as_str()).unwrap();
                    let layout_count = self.pipelines.entry_ref(ppos).resource.spec.layouts.len();
                    if layout_count < 2 {
                        proof {
                            assert(!old(self).recreate_deps_ok());
                        }
                        return Err(Error::MissingDescriptorSet(1));
                    }
                    let ghost vlen = new_mats@.len();
                    new_mats.push(
                        (e.path, Material::new(e.resource.spec, h, e.resource.texture_handles)),
                    );
                    proof {
                        assert forall|i: int|
                            0 <= i < new_mats@.len() implies ({
                                let v = #[trigger] new_mats@[i];
                                &&& self.pipelines.contains_path(v.1.spec.pipeline@)
                                &&& v.1.pipeline_handle == self.pipelines.entry_at(
                                    v.1.spec.pipeline@,
                                ).id
                            }) by {
                            let v = new_mats@[i];
                            lemma_modulo_refs_stable(self.pipelines, pl_pre, v.1.spec.pipeline@);
                        }
                    }
                },
                None => {
                    proof {
                        let p = e.resource.spec.pipeline@;
                        let k = new_mats@.len() as int;
                        assert(omat[k].resource.spec.pipeline@ == p);
                        if old(self).pipelines.contains_path(p) {
                            let w = old(self).pipelines.index_of(p);
                            assert(pl_base.live()[w].path@ == p);
                            assert(pl_base.contains_path(p));
                            assert(same_entries_modulo_refs(pl_pre.live(), pl_base.live()));
                            lemma_modulo_refs_stable(pl_pre, pl_base, p);
                        }
                        assert(!old(self).recreate_deps_ok());
                    }
                    return Err(Error::MissingResource(e.resource.spec.pipeline));
                },
            }
        }
        proof {
            assert forall|i: int, j: int|
                0 <= i < j < new_mats@.len() implies (#[trigger] new_mats@[i]).0@ != (
            #[trigger] new_mats@[j]).0@ by {
                assert(omat[i].path@ != omat[j].path@);
            }
        }
        let ghost nmats = new_mats@;
        self.materials.replace_live(new_mats);
        proof {
            assert forall|i: int|
                0 <= i < omat.len() implies ({
                    let n = #[trigger] self.materials.live()[i];
                    &&& self.pipelines.contains_path(n.resource.spec.pipeline@)
                    &&& n.resource.pipeline_handle == self.pipelines.entry_at(
                        n.resource.spec.pipeline@,
                    ).id
                }) by {
                assert(self.materials.live()[i].resource == nmats[i].1);
            }
        }
        Ok(())
    }

    /// A descriptive status of every resource currently managed: one line
    /// per live entry, kind by kind, with its reference counts.
    pub fn info(&self) -> (r: Vec<ResourceInfo>)
        ensures
            ({
                let tex = self.textures.live();
                let mo = self.models.live();
                let rp = self.renderpasses.live();
                let pl = self.pipelines.live();
                let mat = self.materials.live();
                &&& r@.len() == tex.len() + mo.len() + rp.len() + pl.len() + mat.len()
                &&& forall|i: int|
                    0 <= i < tex.len() ==> {
                        let inf = #[trigger] r@[i];
                        &&& inf.name@ == tex[i].path@
                        &&& inf.ty@ == "Texture"@
                        &&& inf.strong_refs == bumped(tex[i].refs)
                        &&& inf.weak_refs == 0
                    }
                &&& forall|i: int|
                    0 <= i < mo.len() ==> {
                        let inf = #[trigger] r@[tex.len() + i];
                        &&& inf.name@ == mo[i].path@
                        &&& inf.ty@ == "Model"@
                        &&& inf.strong_refs == bumped(mo[i].refs)
                        &&& inf.weak_refs == 0
                    }
                &&& forall|i: int|
                    0 <= i < rp.len() ==> {
                        let inf = #[trigger] r@[tex.len() + mo.len() + i];
                        &&& inf.name@ == rp[i].path@
                        &&& inf.ty@ == "RenderPass"@
                        &&& inf.strong_refs == bumped(rp[i].refs)
                        &&& inf.weak_refs == 0
                    }
                &&& forall|i: int|
                    0 <= i < pl.len() ==> {
                        let inf = #[trigger] r@[tex.len() + mo.len() + rp.len() + i];
                        &&& inf.name@ == pl[i].path@
                        &&& inf.ty@ == "Pipeline"@
                        &&& inf.strong_refs == bumped(pl[i].refs)
                        &&& inf.weak_refs == 0
                    }
                &&& forall|i: int|
                    0 <= i < mat.len() ==> {
                        let inf = #[trigger] r@[tex.len() + mo.len() + rp.len() + pl.len() + i];
                        &&& inf.name@ == mat[i].path@
                        &&& inf.ty@ == "Material"@
                        &&& inf.strong_refs == bumped(mat[i].refs)
                        &&& inf.weak_refs == 0
                    }
            }),
    {
        let mut r = self.textures.info("Texture");
        let mut more = self.models.info("Model");
        r.append(&mut more);
        let mut more = self.renderpasses.info("RenderPass");
        r.append(&mut more);
        let mut more = self.pipelines.info("Pipeline");
        r.append(&mut more);
        let mut more = self.materials.info("Material");
        r.append(&mut more);
        r
    }

    /// Non-loading lookup: a handle to an already cached texture, counting
    /// the caller as one more holder, or `None` if the path isn't cached.
    pub fn get_texture(&mut self, path: &str) -> (r: Option<u64>)
        requires
            old(self).wf(),
        ensures
            final(self).wf(),
            r is Some <==> old(self).textures.contains_path(path@),
            r matches Some(h) ==> ({
                let i = old(self).textures.index_of(path@);
                &&& h == old(self).textures.live()[i].id
                &&& final(self).textures.live() == old(self).textures.live().update(
                    i,
                    Entry {
                        refs: bumped(old(self).textures.live()[i].refs),
                        ..old(self).textures.live()[i]
                    },
                )
            }),
            r is None ==> final(self).textures.live() == old(self).textures.live(),
            final(self).textures.garbage_list() == old(self).textures.garbage_list(),
            final(self).textures.id_bound() == old(self).textures.id_bound(),
            final(self).models == old(self).models,
            final(self).renderpasses == old(self).renderpasses,
            final(self).pipelines == old(self).pipelines,
            final(self).materials == old(self).materials,
            final(self).swapchain == old(self).swapchain,
            sources_unchanged(*old(self), *final(self)),
    {
        self.textures.get(path)
    }

    /// Gives one texture handle back.
    pub fn release_texture(&mut self, handle: u64) -> (r: bool)
        requires
            old(self).wf(),
        ensures
            final(self).wf(),
            r == old(self).textures.contains_id(handle),
            r ==> ({
                let i = old(self).textures.index_of_id(handle);
                final(self).textures.live() == old(self).textures.live().update(
                    i,
                    Entry {
                        refs: dropped(old(self).textures.live()[i].refs),
                        ..old(self).textures.live()[i]
                    },
                )
            }),
            !r ==> final(self).textures.live() == old(self).textures.live(),
            final(self).textures.garbage_list() == old(self).textures.garbage_list(),
            final(self).textures.id_bound() == old(self).textures.id_bound(),
            final(self).models == old(self).models,
            final(self).renderpasses == old(self).renderpasses,
            final(self).pipelines == old(self).pipelines,
            final(self).materials == old(self).materials,
            final(self).swapchain == old(self).swapchain,
            sources_unchanged(*old(self), *final(self)),
    {
        self.textures.release(handle)
    }

    /// Non-loading lookup: a handle to an already cached model, counting
    /// the caller as one more holder, or `None` if the path isn't cached.
    pub fn get_model(&mut self, path: &str) -> (r: Option<u64>)
        requires
            old(self).wf(),
        ensures
            final(self).wf(),
            r is Some <==> old(self).models.contains_path(path@),
            r matches Some(h) ==> ({
                let i = old(self).models.index_of(path@);
                &&& h == old(self).models.live()[i].id
                &&& final(self).models.live() == old(self).models.live().update(
                    i,
                    Entry {
                        refs: bumped(old(self).models.live()[i].refs),
                        ..old(self).models.live()[i]
                    },
                )
            }),
            r is None ==> final(self).models.live() == old(self).models.live(),
            final(self).models.garbage_list() == old(self).models.garbage_list(),
            final(self).models.id_bound() == old(self).models.id_bound(),
            final(self).textures == old(self).textures,
            final(self).renderpasses == old(self).renderpasses,
            final(self).pipelines == old(self).pipelines,
            final(self).materials == old(self).materials,
            final(self).swapchain == old(self).swapchain,
            sources_unchanged(*old(self), *final(self)),
    {
        self.models.get(path)
    }

    /// Gives one model handle back.
    pub fn release_model(&mut self, handle: u64) -> (r: bool)
        requires
            old(self).wf(),
        ensures
            final(self).wf(),
            r == old(self).models.contains_id(handle),
            r ==> ({
                let i = old(self).models.index_of_id(handle);
                final(self).models.live() == old(self).models.live().update(
                    i,
                    Entry {
                        refs: dropped(old(self).models.live()[i].refs),
                        ..old(self).models.live()[i]
                    },
                )
            }),
            !r ==> final(self).models.live() == old(self).models.live(),
            final(self).models.garbage_list() == old(self).models.garbage_list(),
            final(self).models.id_bound() == old(self).models.id_bound(),
            final(self).textures == old(self).textures,
            final(self).renderpasses == old(self).renderpasses,
            final(self).pipelines == old(self).pipelines,
            final(self).materials == old(self).materials,
            final(self).swapchain == old(self).swapchain,
            sources_unchanged(*old(self), *final(self)),
    {
        self.models.release(handle)
    }

    /// Non-loading lookup: a handle to an already cached render pass, counting
    /// the caller as one more holder, or `None` if the path isn't cached.
    pub fn get_renderpass(&mut self, path: &str) -> (r: Option<u64>)
        requires
            old(self).wf(),
        ensures
            final(self).wf(),
            r is Some <==> old(self).renderpasses.contains_path(path@),
            r matches Some(h) ==> ({
                let i = old(self).renderpasses.index_of(path@);
                &&& h == old(self).renderpasses.live()[i].id
                &&& final(self).renderpasses.live() == old(self).renderpasses.live().update(
                    i,
                    Entry {
                        refs: bumped(old(self).renderpasses.live()[i].refs),
                        ..old(self).renderpasses.live()[i]
                    },
                )
            }),
            r is None ==> final(self).renderpasses.live() == old(self).renderpasses.live(),
            final(self).renderpasses.garbage_list() == old(self).renderpasses.garbage_list(),
            final(self).renderpasses.id_bound() == old(self).renderpasses.id_bound(),
            final(self).textures == old(self).textures,
            final(self).models == old(self).models,
            final(self).pipelines == old(self).pipelines,
            final(self).materials == old(self).materials,
            final(self).swapchain == old(self).swapchain,
            sources_unchanged(*old(self), *final(self)),
    {
        self.renderpasses.get(path)
    }

    /// Gives one render pass handle back.
    pub fn release_renderpass(&mut self, handle: u64) -> (r: bool)
        requires
            old(self).wf(),
        ensures
            final(self).wf(),
            r == old(self).renderpasses.contains_id(handle),
            r ==> ({
                let i = old(self).renderpasses.index_of_id(handle);
                final(self).renderpasses.live() == old(self).renderpasses.live().update(
                    i,
                    Entry {
                        refs: dropped(old(self).renderpasses.live()[i].refs),
                        ..old(self).renderpasses.live()[i]
                    },
                )
            }),
            !r ==> final(self).renderpasses.live() == old(self).renderpasses.live(),
            final(self).renderpasses.garbage_list() == old(self).renderpasses.garbage_list(),
            final(self).renderpasses.id_bound() == old(self).renderpasses.id_bound(),
            final(self).textures == old(self).textures,
            final(self).models == old(self).models,
            final(self).pipelines == old(self).pipelines,
            final(self).materials == old(self).materials,
            final(self).swapchain == old(self).swapchain,
            sources_unchanged(*old(self), *final(self)),
    {
        self.renderpasses.release(handle)
    }

    /// Non-loading lookup: a handle to an already cached pipeline, counting
    /// the caller as one more holder, or `None` if the path isn't cached.
    pub fn get_pipeline(&mut self, path: &str) -> (r: Option<u64>)
        requires
            old(self).wf(),
        ensures
            final(self).wf(),
            r is Some <==> old(self).pipelines.contains_path(path@),
            r matches Some(h) ==> ({
                let i = old(self).pipelines.index_of(path@);
                &&& h == old(self).pipelines.live()[i].id
                &&& final(self).pipelines.live() == old(self).pipelines.live().update(
                    i,
                    Entry {
                        refs: bumped(old(self).pipelines.live()[i].refs),
                        ..old(self).pipelines.live()[i]
                    },
                )
            }),
            r is None ==> final(self).pipelines.live() == old(self).pipelines.live(),
            final(self).pipelines.garbage_list() == old(self).pipelines.garbage_list(),
            final(self).pipelines.id_bound() == old(self).pipelines.id_bound(),
            final(self).textures == old(self).textures,
            final(self).models == old(self).models,
            final(self).renderpasses == old(self).renderpasses,
            final(self).materials == old(self).materials,
            final(self).swapchain == old(self).swapchain,
            sources_unchanged(*old(self), *final(self)),
    {
        self.pipelines.get(path)
    }

    /// Gives one pipeline handle back.
    pub fn release_pipeline(&mut self, handle: u64) -> (r: bool)
        requires
            old(self).wf(),
        ensures
            final(self).wf(),
            r == old(self).pipelines.contains_id(handle),
            r ==> ({
                let i = old(self).pipelines.index_of_id(handle);
                final(self).pipelines.live() == old(self).pipelines.live().update(
                    i,
                    Entry {
                        refs: dropped(old(self).pipelines.live()[i].refs),
                        ..old(self).pipelines.live()[i]
                    },
                )
            }),
            !r ==> final(self).pipelines.live() == old(self).pipelines.live(),
            final(self).pipelines.garbage_list() == old(self).pipelines.garbage_list(),
            final(self).pipelines.id_bound() == old(self).pipelines.id_bound(),
            final(self).textures == old(self).textures,
            final(self).models == old(self).models,
            final(self).renderpasses == old(self).renderpasses,
            final(self).materials == old(self).materials,
            final(self).swapchain == old(self).swapchain,
            sources_unchanged(*old(self), *final(self)),
    {
        self.pipelines.release(handle)
    }

    /// Non-loading lookup: a handle to an already cached material, counting
    /// the caller as one more holder, or `None` if the path isn't cached.
    pub fn get_material(&mut self, path: &str) -> (r: Option<u64>)
        requires
            old(self).wf(),
        ensures
            final(self).wf(),
            r is Some <==> old(self).materials.contains_path(path@),
            r matches Some(h) ==> ({
                let i = old(self).materials.index_of(path@);
                &&& h == old(self).materials.live()[i].id
                &&& final(self).materials.live() == old(self).materials.live().update(
                    i,
                    Entry {
                        refs: bumped(old(self).materials.live()[i].refs),
                        ..old(self).materials.live()[i]
                    },
                )
            }),
            r is None ==> final(self).materials.live() == old(self).materials.live(),
            final(self).materials.garbage_list() == old(self).materials.garbage_list(),
            final(self).materials.id_bound() == old(self).materials.id_bound(),
            final(self).textures == old(self).textures,
            final(self).models == old(self).models,
            final(self).renderpasses == old(self).renderpasses,
            final(self).pipelines == old(self).pipelines,
            final(self).swapchain == old(self).swapchain,
            sources_unchanged(*old(self), *final(self)),
    {
        self.materials.get(path)
    }

    /// Gives one material handle back.
    pub fn release_material(&mut self, handle: u64) -> (r: bool)
        requires
            old(self).wf(),
        ensures
            final(self).wf(),
            r == old(self).materials.contains_id(handle),
            r ==> ({
                let i = old(self).materials.index_of_id(handle);
                final(self).materials.live() == old(self).materials.live().update(
                    i,
                    Entry {
                        refs: dropped(old(self).materials.live()[i].refs),
                        ..old(self).materials.live()[i]
                    },
                )
            }),
            !r ==> final(self).materials.live() == old(self).materials.live(),
            final(self).materials.garbage_list() == old(self).materials.garbage_list(),
            final(self).materials.id_bound() == old(self).materials.id_bound(),
            final(self).textures == old(self).textures,
            final(self).models == old(self).models,
            final(self).renderpasses == old(self).renderpasses,
            final(self).pipelines == old(self).pipelines,
            final(self).swapchain == old(self).swapchain,
            sources_unchanged(*old(self), *final(self)),
    {
        self.materials.release(handle)
    }
}

} // verus!
