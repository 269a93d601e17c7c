//! Descriptor set layouts: how shader resources are bound, and the checks a
//! descriptor write must pass before it reaches the device.

use crate::error::Error;
use vstd::prelude::*;

verus! {

/// Represents a descriptor type.
#[derive(Copy, Clone, Debug, PartialEq, Eq, Structural)]
pub enum DescriptorType {
    CombinedImageSampler,
    UniformBuffer,
}

impl DescriptorType {
    /// The raw value of this descriptor type.
    pub open spec fn raw_value(self) -> u32 {
        match self {
            DescriptorType::CombinedImageSampler => 1,
            DescriptorType::UniformBuffer => 6,
        }
    }

    pub fn raw(self) -> (r: u32)
        ensures
            r == self.raw_value(),
    {
        match self {
            DescriptorType::CombinedImageSampler => 1,
            DescriptorType::UniformBuffer => 6,
        }
    }
}

/// A shader stage, as a one-bit flag (`AllGraphics` and `All` are the
/// conventional composite masks).
#[derive(Copy, Clone, Debug, PartialEq, Eq, Structural)]
pub enum ShaderStage {
    Vertex,
    TessellationControl,
    TessellationEvaluation,
    Geometry,
    Fragment,
    Compute,
    AllGraphics,
    All,
}

impl ShaderStage {
    /// The raw flag value of this stage.
    pub open spec fn raw_value(self) -> u32 {
        match self {
            ShaderStage::Vertex => 0x1,
            ShaderStage::TessellationControl => 0x2,
            ShaderStage::TessellationEvaluation => 0x4,
            ShaderStage::Geometry => 0x8,
            ShaderStage::Fragment => 0x10,
            ShaderStage::Compute => 0x20,
            ShaderStage::AllGraphics => 0x1F,
            ShaderStage::All => 0x7FFFFFFF,
        }
    }

    pub fn raw(self) -> (r: u32)
        ensures
            r == self.raw_value(),
    {
        match self {
            ShaderStage::Vertex => 0x1,
            ShaderStage::TessellationControl => 0x2,
            ShaderStage::TessellationEvaluation => 0x4,
            ShaderStage::Geometry => 0x8,
            ShaderStage::Fragment => 0x10,
            ShaderStage::Compute => 0x20,
            ShaderStage::AllGraphics => 0x1F,
            ShaderStage::All => 0x7FFFFFFF,
        }
    }
}

/// The combined flag mask of a list of shader stages, folded left to right.
pub open spec fn stage_mask(s: Seq<ShaderStage>, acc: u32) -> u32
    decreases s.len(),
{
    if s.len() == 0 {
        acc
    } else {
        stage_mask(s.drop_first(), acc | s[0].raw_value())
    }
}

/// The abstract value of a [`DescriptorSetLayoutBinding`].
pub struct DescriptorSetLayoutBindingView {
    pub slot: u32,
    pub ty: DescriptorType,
    pub count: u32,
    pub stages: Seq<ShaderStage>,
}

/// One binding slot of a descriptor set layout.
#[derive(Debug)]
pub struct DescriptorSetLayoutBinding {
    pub slot: u32,
    pub ty: DescriptorType,
    pub count: u32,
    pub stages: Vec<ShaderStage>,
}

impl View for DescriptorSetLayoutBinding {
    type V = DescriptorSetLayoutBindingView;

    open spec fn view(&self) -> DescriptorSetLayoutBindingView {
        DescriptorSetLayoutBindingView {
            slot: self.slot,
            ty: self.ty,
            count: self.count,
            stages: self.stages@,
        }
    }
}

impl DescriptorSetLayoutBinding {
    /// An exact copy of this binding.
    pub fn duplicate(&self) -> (r: DescriptorSetLayoutBinding)
        ensures
            r@ == self@,
    {
        DescriptorSetLayoutBinding {
            slot: self.slot,
            ty: self.ty,
            count: self.count,
            stages: crate::util::copy_vec(&self.stages),
        }
    }

    /// The raw stage-flag mask this binding is visible to.
    pub fn stage_flags(&self) -> (r: u32)
        ensures
            r == stage_mask(self.stages@, 0),
    {
        let mut acc: u32 = 0;
        let n = self.stages.len();
        let mut i: usize = 0;
        proof {
            assert(self.stages@.subrange(0, n as int) =~= self.stages@);
        }
        while i < n
            invariant
                n == self.stages@.len(),
                0 <= i <= n,
                stage_mask(self.stages@, 0) == stage_mask(self.stages@.subrange(i as int, n as int), acc),
            decreases n - i,
        {
            let ghost suffix = self.stages@.subrange(i as int, n as int);
            acc = acc | self.stages[i].raw();
            i += 1;
            proof {
                assert(suffix.drop_first() =~= self.stages@.subrange(i as int, n as int));
            }
        }
        proof {
            assert(self.stages@.subrange(n as int, n as int) =~= Seq::<ShaderStage>::empty());
        }
        acc
    }
}

/// How many bindings of the given descriptor type a layout declares.
pub open spec fn count_of_type(s: Seq<DescriptorSetLayoutBinding>, ty: DescriptorType) -> nat
    decreases s.len(),
{
    if s.len() == 0 {
        0
    } else {
        (if s[0].ty == ty {
            1nat
        } else {
            0nat
        }) + count_of_type(s.drop_first(), ty)
    }
}

/// Specifies how to create a descriptor set layout.
#[derive(Debug)]
pub struct DescriptorSetLayoutSpec {
    pub bindings: Vec<DescriptorSetLayoutBinding>,
}

impl View for DescriptorSetLayoutSpec {
    type V = Seq<DescriptorSetLayoutBindingView>;

    open spec fn view(&self) -> Seq<DescriptorSetLayoutBindingView> {
        Seq::new(self.bindings@.len(), |i: int| self.bindings@[i]@)
    }
}

impl DescriptorSetLayoutSpec {
    /// An exact copy of this layout description.
    pub fn duplicate(&self) -> (r: DescriptorSetLayoutSpec)
        ensures
            r@ == self@,
    {
        let mut bindings: Vec<DescriptorSetLayoutBinding> = Vec::new();
        let n = self.bindings.len();
        let mut i: usize = 0;
        while i < n
            invariant
                n == self.bindings@.len(),
                0 <= i <= n,
                bindings@.len() == i,
                forall|j: int| 0 <= j < i ==> (#[trigger] bindings@[j])@ == self.bindings@[j]@,
            decreases n - i,
        {
            bindings.push(self.bindings[i].duplicate());
            i += 1;
        }
        let r = DescriptorSetLayoutSpec { bindings };
        proof {
            assert(r@ =~= self@);
        }
        r
    }

    /// Counts the bindings of one descriptor type.
    pub fn bindings_of_type(&self, ty: DescriptorType) -> (r: usize)
        ensures
            r == count_of_type(self.bindings@, ty),
    {
        proof {
            lemma_count_of_type_bound(self.bindings@, ty);
        }
        let mut acc: usize = 0;
        let n = self.bindings.len();
        let mut i: usize = 0;
        proof {
            assert(self.bindings@.subrange(0, n as int) =~= self.bindings@);
        }
        while i < n
            invariant
                n == self.bindings@.len(),
                0 <= i <= n,
                acc + count_of_type(self.bindings@.subrange(i as int, n as int), ty)
                    == count_of_type(self.bindings@, ty),
                count_of_type(self.bindings@, ty) <= n,
            decreases n - i,
        {
            let ghost suffix = self.bindings@.subrange(i as int, n as int);
            proof {
                assert(suffix.drop_first() =~= self.bindings@.subrange(i as int + 1, n as int));
                lemma_count_of_type_bound(suffix.drop_first(), ty);
            }
            if self.bindings[i].ty == ty {
                acc = acc + 1;
            }
            i += 1;
        }
        proof {
            assert(self.bindings@.subrange(n as int, n as int)
                =~= Seq::<DescriptorSetLayoutBinding>::empty());
        }
        acc
    }

    /// The check a descriptor write performs before touching the device: for
    /// `set_count` sets, each uniform-buffer binding needs one buffer per set
    /// and each combined-image-sampler binding needs one texture and one
    /// sampler per set. Returns which descriptor type was mismatched, with
    /// the expected count, exactly as the write would.
    pub fn validate_supply(
        &self,
        set_count: usize,
        buffer_count: usize,
        texture_count: usize,
        sampler_count: usize,
    ) -> (r: Result<(), Error>)
        requires
            self.bindings@.len() * set_count <= u32::MAX,
        ensures
            ({
                let ub = count_of_type(self.bindings@, DescriptorType::UniformBuffer)
                    * set_count;
                let img = count_of_type(self.bindings@, DescriptorType::CombinedImageSampler)
                    * set_count;
                match r {
                    Ok(()) => ub == buffer_count && img == texture_count && img == sampler_count,
                    Err(Error::MismatchedBinding(expected, supplied)) => {
                        ||| (ub != buffer_count && expected == ub && supplied == buffer_count as u32)
                        ||| (ub == buffer_count && img != texture_count && expected == img
                            && supplied == texture_count as u32)
                        ||| (ub == buffer_count && img == texture_count && img != sampler_count
                            && expected == img && supplied == sampler_count as u32)
                    },
                    _ => false,
                }
            }),
    {
        proof {
            lemma_count_of_type_bound(self.bindings@, DescriptorType::UniformBuffer);
            lemma_count_of_type_bound(self.bindings@, DescriptorType::CombinedImageSampler);
            vstd::arithmetic::mul::lemma_mul_inequality(
                count_of_type(self.bindings@, DescriptorType::UniformBuffer) as int,
                self.bindings@.len() as int,
                set_count as int,
            );
            vstd::arithmetic::mul::lemma_mul_inequality(
                count_of_type(self.bindings@, DescriptorType::CombinedImageSampler) as int,
                self.bindings@.len() as int,
                set_count as int,
            );
        }
        let ub_count = self.bindings_of_type(DescriptorType::UniformBuffer) * set_count;
        let image_count = self.bindings_of_type(DescriptorType::CombinedImageSampler) * set_count;
        if ub_count != buffer_count {
            return Err(Error::MismatchedBinding(ub_count as u32, #[verifier::truncate] (buffer_count as u32)));
        }
        if image_count != texture_count {
            return Err(Error::MismatchedBinding(image_count as u32, #[verifier::truncate] (texture_count as u32)));
        }
        if image_count != sampler_count {
            return Err(Error::MismatchedBinding(image_count as u32, #[verifier::truncate] (sampler_count as u32)));
        }
        Ok(())
    }
}

/// A layout declares no more bindings of one type than bindings in all.
pub proof fn lemma_count_of_type_bound(s: Seq<DescriptorSetLayoutBinding>, ty: DescriptorType)
    ensures
        count_of_type(s, ty) <= s.len(),
    decreases s.len(),
{
    if s.len() > 0 {
        lemma_count_of_type_bound(s.drop_first(), ty);
    }
}

} // verus!
