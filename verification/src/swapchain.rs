//! Swapchain negotiation and the swapchain the renderer draws into.
//!
//! Negotiation hides the surface's policy choices: preferred color format,
//! lowest-latency non-tearing present mode with a guaranteed fallback,
//! extent clamping, image count clamping, and queue sharing mode. Each
//! policy is a small function with an exact contract.

use crate::graphics::Extent2D;
use crate::texture::Texture;
use vstd::prelude::*;

verus! {

/// The raw value of the 8-bit-per-channel sRGB surface format the policy
/// prefers.
pub const FORMAT_B8G8R8A8_SRGB: u32 = 50;

/// The raw value of the standard non-linear sRGB color space.
pub const COLOR_SPACE_SRGB_NONLINEAR: u32 = 0;

/// The raw value of the 32-bit float depth format used for depth buffers.
pub const FORMAT_D32_SFLOAT: u32 = 126;

/// The raw value of the immediate (tearing) present mode.
pub const PRESENT_MODE_IMMEDIATE: u32 = 0;

/// The raw value of the triple-buffered low-latency present mode.
pub const PRESENT_MODE_MAILBOX: u32 = 1;

/// The raw value of the always-supported vsync present mode.
pub const PRESENT_MODE_FIFO: u32 = 2;

/// How many presentable images the swapchain asks the surface for, before
/// clamping to what the surface allows.
pub const SWAPCHAIN_IMAGE_COUNT: u32 = 3;

/// The sentinel width by which a surface reports that the window, not the
/// surface, chooses the extent.
pub const ANY_EXTENT: u32 = 0xFFFF_FFFF;

/// A surface format: a pixel format paired with a color space, in raw
/// values.
#[derive(Copy, Clone, Debug, PartialEq, Eq, Structural)]
pub struct SurfaceFormat {
    pub format: u32,
    pub color_space: u32,
}

/// What a surface reports it can do.
#[derive(Copy, Clone, Debug)]
pub struct SurfaceCapabilities {
    pub min_image_count: u32,
    pub max_image_count: u32,
    pub current_extent: Extent2D,
    pub min_image_extent: Extent2D,
    pub max_image_extent: Extent2D,
}

/// The queue families a device offers for this surface.
#[derive(Copy, Clone, Debug)]
pub struct QueueFamilies {
    pub graphics: Option<u32>,
    pub present: Option<u32>,
    pub compute: Option<u32>,
    pub present_support: bool,
}

/// Whether swapchain images are owned by one queue family or shared by the
/// graphics and present families.
#[derive(Copy, Clone, Debug, PartialEq, Eq, Structural)]
pub enum SharingMode {
    Exclusive,
    Concurrent,
}

/// Whether a surface format is the one the policy prefers.
pub open spec fn preferred_format(f: SurfaceFormat) -> bool {
    f.format == FORMAT_B8G8R8A8_SRGB && f.color_space == COLOR_SPACE_SRGB_NONLINEAR
}

/// `x` clamped into `[lo, hi]` (with `lo` winning if the bounds cross,
/// as taking the maximum of the lower bound last does).
pub open spec fn clamped(lo: u32, hi: u32, x: u32) -> u32 {
    let capped = if x < hi {
        x
    } else {
        hi
    };
    if capped < lo {
        lo
    } else {
        capped
    }
}

/// The extent the swapchain must use: the surface's own, unless the surface
/// reports the sentinel "any extent", in which case the window's requested
/// extent clamped into the surface's bounds.
pub open spec fn spec_pick_extent(caps: SurfaceCapabilities, requested: Extent2D) -> Extent2D {
    if caps.current_extent.width != ANY_EXTENT {
        caps.current_extent
    } else {
        Extent2D {
            width: clamped(caps.min_image_extent.width, caps.max_image_extent.width, requested.width),
            height: clamped(
                caps.min_image_extent.height,
                caps.max_image_extent.height,
                requested.height,
            ),
        }
    }
}

/// The image count the swapchain asks for: the fixed target, clamped into
/// what the surface allows (a reported maximum of zero means no maximum).
pub open spec fn spec_pick_image_count(caps: SurfaceCapabilities) -> u32 {
    if SWAPCHAIN_IMAGE_COUNT < caps.min_image_count {
        caps.min_image_count
    } else if caps.max_image_count != 0 && SWAPCHAIN_IMAGE_COUNT > caps.max_image_count {
        caps.max_image_count
    } else {
        SWAPCHAIN_IMAGE_COUNT
    }
}

/// Everything negotiation decides about a swapchain before the device
/// creates it.
#[derive(Copy, Clone, Debug)]
pub struct SwapchainConfig {
    pub format: SurfaceFormat,
    pub present_mode: u32,
    pub extent: Extent2D,
    pub min_image_count: u32,
    pub sharing_mode: SharingMode,
}

/// The swapchain the renderer draws into: its presentable images, one depth
/// image, and the negotiated format and extent.
#[derive(Debug)]
pub struct Swapchain {
    images: Vec<Texture>,
    depth_image: Texture,
    format: u32,
    extent: Extent2D,
}

impl Swapchain {
    /// Picks the 8-bit sRGB format with the non-linear sRGB color space when
    /// the surface offers it; the first offered format otherwise.
    pub fn pick_format(formats: &Vec<SurfaceFormat>) -> (r: SurfaceFormat)
        requires
            formats@.len() > 0,
        ensures
            (exists|i: int| 0 <= i < formats@.len() && preferred_format(#[trigger] formats@[i]))
                ==> exists|i: int|
                0 <= i < formats@.len() && r == formats@[i] && preferred_format(#[trigger] formats@[i])
                    && forall|j: int| 0 <= j < i ==> !preferred_format(#[trigger] formats@[j]),
            !(exists|i: int| 0 <= i < formats@.len() && preferred_format(#[trigger] formats@[i]))
                ==> r == formats@[0],
    {
        let n = formats.len();
        let mut i: usize = 0;
        while i < n
            invariant
                n == formats@.len(),
                0 <= i <= n,
                forall|j: int| 0 <= j < i ==> !preferred_format(#[trigger] formats@[j]),
            decreases n - i,
        {
            let f = formats[i];
            if f.format == FORMAT_B8G8R8A8_SRGB && f.color_space == COLOR_SPACE_SRGB_NONLINEAR {
                return f;
            }
            i += 1;
        }
        formats[0]
    }

    /// Picks the low-latency triple-buffered mode when the surface offers
    /// it, and the guaranteed vsync mode otherwise.
    pub fn pick_present_mode(present_modes: &Vec<u32>) -> (r: u32)
        ensures
            r == if present_modes@.contains(PRESENT_MODE_MAILBOX) {
                PRESENT_MODE_MAILBOX
            } else {
                PRESENT_MODE_FIFO
            },
    {
        let n = present_modes.len();
        let mut i: usize = 0;
        while i < n
            invariant
                n == present_modes@.len(),
                0 <= i <= n,
                forall|j: int| 0 <= j < i ==> present_modes@[j] != PRESENT_MODE_MAILBOX,
            decreases n - i,
        {
            if present_modes[i] == PRESENT_MODE_MAILBOX {
                proof {
                    assert(present_modes@.contains(PRESENT_MODE_MAILBOX));
                }
                return PRESENT_MODE_MAILBOX;
            }
            i += 1;
        }
        proof {
            if present_modes@.contains(PRESENT_MODE_MAILBOX) {
                let k = choose|k: int|
                    0 <= k < present_modes@.len() && present_modes@[k] == PRESENT_MODE_MAILBOX;
                assert(present_modes@[k] != PRESENT_MODE_MAILBOX);
            }
        }
        PRESENT_MODE_FIFO
    }

    /// The surface's own extent when it dictates one; the requested window
    /// extent clamped into the surface's bounds otherwise.
    pub fn pick_extent(capabilities: &SurfaceCapabilities, extent: Extent2D) -> (r: Extent2D)
        ensures
            r == spec_pick_extent(*capabilities, extent),
    {
        if capabilities.current_extent.width != ANY_EXTENT {
            capabilities.current_extent
        } else {
            let w_capped = if extent.width < capabilities.max_image_extent.width {
                extent.width
            } else {
                capabilities.max_image_extent.width
            };
            let width = if w_capped < capabilities.min_image_extent.width {
                capabilities.min_image_extent.width
            } else {
                w_capped
            };
            let h_capped = if extent.height < capabilities.max_image_extent.height {
                extent.height
            } else {
                capabilities.max_image_extent.height
            };
            let height = if h_capped < capabilities.min_image_extent.height {
                capabilities.min_image_extent.height
            } else {
                h_capped
            };
            Extent2D { width, height }
        }
    }

    /// The image count to ask for: the fixed target clamped to the
    /// surface's limits.
    pub fn pick_image_count(capabilities: &SurfaceCapabilities) -> (r: u32)
        ensures
            r == spec_pick_image_count(*capabilities),
    {
        if SWAPCHAIN_IMAGE_COUNT < capabilities.min_image_count {
            capabilities.min_image_count
        } else if capabilities.max_image_count != 0
            && SWAPCHAIN_IMAGE_COUNT > capabilities.max_image_count {
            capabilities.max_image_count
        } else {
            SWAPCHAIN_IMAGE_COUNT
        }
    }

    /// Concurrent sharing exactly when the graphics and present queue
    /// families differ; exclusive ownership otherwise, which avoids
    /// needless ownership transfers.
    pub fn pick_sharing_mode(queue_families: &QueueFamilies) -> (r: SharingMode)
        ensures
            r == (if queue_families.graphics == queue_families.present {
                SharingMode::Exclusive
            } else {
                SharingMode::Concurrent
            }),
    {
        let same = match (&queue_families.graphics, &queue_families.present) {
            (Some(g), Some(p)) => *g == *p,
            (None, None) => true,
            _ => false,
        };
        if same {
            SharingMode::Exclusive
        } else {
            SharingMode::Concurrent
        }
    }

    /// Negotiates a full swapchain configuration from what the surface
    /// reports and what the window asks for.
    pub fn negotiate(
        capabilities: &SurfaceCapabilities,
        formats: &Vec<SurfaceFormat>,
        present_modes: &Vec<u32>,
        extent: Extent2D,
        queue_families: &QueueFamilies,
    ) -> (r: SwapchainConfig)
        requires
            formats@.len() > 0,
        ensures
            r.format == Swapchain::spec_chosen_format(formats@),
            r.present_mode == if present_modes@.contains(PRESENT_MODE_MAILBOX) {
                PRESENT_MODE_MAILBOX
            } else {
                PRESENT_MODE_FIFO
            },
            r.extent == spec_pick_extent(*capabilities, extent),
            r.min_image_count == spec_pick_image_count(*capabilities),
            r.sharing_mode == (if queue_families.graphics == queue_families.present {
                SharingMode::Exclusive
            } else {
                SharingMode::Concurrent
            }),
    {
        let format = Self::pick_format(formats);
        proof {
            Swapchain::lemma_chosen_format(formats@, format);
        }
        SwapchainConfig {
            format,
            present_mode: Self::pick_present_mode(present_modes),
            extent: Self::pick_extent(capabilities, extent),
            min_image_count: Self::pick_image_count(capabilities),
            sharing_mode: Self::pick_sharing_mode(queue_families),
        }
    }

    /// The format `pick_format` chooses: the first preferred one, else the
    /// first offered.
    pub open spec fn spec_chosen_format(s: Seq<SurfaceFormat>) -> SurfaceFormat
        decreases s.len(),
    {
        if s.len() == 0 {
            SurfaceFormat { format: 0, color_space: 0 }
        } else if preferred_format(s[0]) {
            s[0]
        } else if exists|i: int| 0 <= i < s.len() && preferred_format(#[trigger] s[i]) {
            Swapchain::spec_chosen_format(s.drop_first())
        } else {
            s[0]
        }
    }

    /// What `pick_format` ensures pins down `spec_chosen_format`.
    proof fn lemma_chosen_format(s: Seq<SurfaceFormat>, r: SurfaceFormat)
        requires
            s.len() > 0,
            (exists|i: int| 0 <= i < s.len() && preferred_format(#[trigger] s[i])) ==> exists|i: int|
                0 <= i < s.len() && r == s[i] && preferred_format(#[trigger] s[i]) && forall|j: int|
                    0 <= j < i ==> !preferred_format(#[trigger] s[j]),
            !(exists|i: int| 0 <= i < s.len() && preferred_format(#[trigger] s[i])) ==> r == s[0],
        ensures
            r == Swapchain::spec_chosen_format(s),
        decreases s.len(),
    {
        if exists|i: int| 0 <= i < s.len() && preferred_format(#[trigger] s[i]) {
            let i = choose|i: int|
                0 <= i < s.len() && r == s[i] && preferred_format(#[trigger] s[i]) && forall|j: int|
                    0 <= j < i ==> !preferred_format(#[trigger] s[j]);
            if preferred_format(s[0]) {
                assert(i == 0);
            } else {
                let rest = s.drop_first();
                assert(0 <= i - 1 < rest.len() && r == rest[i - 1] && preferred_format(rest[i - 1]));
                assert forall|j: int| 0 <= j < i - 1 implies !preferred_format(
                    #[trigger] rest[j],
                ) by {
                    assert(rest[j] == s[j + 1]);
                }
                assert(exists|k: int| 0 <= k < rest.len() && preferred_format(#[trigger] rest[k]));
                Swapchain::lemma_chosen_format(rest, r);
            }
        }
    }

    /// Builds the swapchain model: `image_count` presentable images in the
    /// negotiated format, plus one depth image, all at the negotiated
    /// extent.
    pub fn new(config: &SwapchainConfig, image_count: usize) -> (r: Swapchain)
        ensures
            r.image_count_spec() == image_count,
            r.format_spec() == config.format.format,
            r.extent_spec() == config.extent,
            forall|i: int|
                0 <= i < image_count ==> #[trigger] r.image_spec(i) == (Texture {
                    width: config.extent.width,
                    height: config.extent.height,
                    format: config.format.format,
                }),
            r.depth_image_spec() == (Texture {
                width: config.extent.width,
                height: config.extent.height,
                format: FORMAT_D32_SFLOAT,
            }),
    {
        let mut images: Vec<Texture> = Vec::new();
        let mut i: usize = 0;
        while i < image_count
            invariant
                0 <= i <= image_count,
                images@.len() == i,
                forall|j: int|
                    0 <= j < i ==> #[trigger] images@[j] == (Texture {
                        width: config.extent.width,
                        height: config.extent.height,
                        format: config.format.format,
                    }),
            decreases image_count - i,
        {
            images.push(
                Texture::new(config.extent.width, config.extent.height, config.format.format),
            );
            i += 1;
        }
        Swapchain {
            images,
            depth_image: Texture::new(
                config.extent.width,
                config.extent.height,
                FORMAT_D32_SFLOAT,
            ),
            format: config.format.format,
            extent: config.extent,
        }
    }

    /// The number of presentable images.
    pub closed spec fn image_count_spec(&self) -> nat {
        self.images@.len()
    }

    /// The raw color format of the presentable images.
    pub closed spec fn format_spec(&self) -> u32 {
        self.format
    }

    pub closed spec fn extent_spec(&self) -> Extent2D {
        self.extent
    }

    pub closed spec fn image_spec(&self, i: int) -> Texture {
        self.images@[i]
    }

    pub closed spec fn depth_image_spec(&self) -> Texture {
        self.depth_image
    }

    pub fn image_count(&self) -> (r: usize)
        ensures
            r == self.image_count_spec(),
    {
        self.images.len()
    }

    pub fn image(&self, index: usize) -> (r: &Texture)
        requires
            index < self.image_count_spec(),
        ensures
            *r == self.image_spec(index as int),
    {
        &self.images[index]
    }

    pub fn depth_image(&self) -> (r: &Texture)
        ensures
            *r == self.depth_image_spec(),
    {
        &self.depth_image
    }

    pub fn format(&self) -> (r: u32)
        ensures
            r == self.format_spec(),
    {
        self.format
    }

    /// The raw format of the depth image.
    pub fn depth_format(&self) -> (r: u32)
        ensures
            r == self.depth_image_spec().format,
    {
        self.depth_image.format
    }

    pub fn extent(&self) -> (r: Extent2D)
        ensures
            r == self.extent_spec(),
    {
        self.extent
    }
}

} // verus!
