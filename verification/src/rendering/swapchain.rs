//! Per-output swapchains: image rotation, frame pacing and statistics.
use vstd::prelude::*;
use std::time::Instant;
use super::sync::instant_now;

verus! {

/// Vulkan presentation modes.
#[derive(Debug, Clone, Copy, PartialEq, Eq, Structural)]
pub enum PresentMode {
    Fifo,
    Mailbox,
    Immediate,
    FifoRelaxed,
}

impl PresentMode {
    /// The mode for an output: at 120 Hz or more, immediate with G-Sync
    /// and mailbox without; FIFO below.
    pub fn best_for_refresh(hz: u32, gsync: bool) -> (m: PresentMode)
        ensures
            m == (if hz >= 120 && gsync {
                PresentMode::Immediate
            } else if hz >= 120 {
                PresentMode::Mailbox
            } else {
                PresentMode::Fifo
            }),
    {
        if hz >= 120 && gsync {
            PresentMode::Immediate
        } else if hz >= 120 {
            PresentMode::Mailbox
        } else {
            PresentMode::Fifo
        }
    }
}

/// How a swapchain is to be built for an output.
#[derive(Debug, Clone)]
pub struct SwapchainConfig {
    pub output_name: String,
    pub width: u32,
    pub height: u32,
    pub refresh_rate: u32,
    pub present_mode: PresentMode,
    pub image_count: u32,
    pub gsync_compatible: bool,
}

impl SwapchainConfig {
    /// A copy of the configuration.
    pub fn duplicate(&self) -> (c: SwapchainConfig)
        ensures
            c == *self,
    {
        SwapchainConfig {
            output_name: self.output_name.clone(),
            width: self.width,
            height: self.height,
            refresh_rate: self.refresh_rate,
            present_mode: self.present_mode,
            image_count: self.image_count,
            gsync_compatible: self.gsync_compatible,
        }
    }
}

/// One image of a swapchain.
#[derive(Debug)]
pub struct SwapchainImage {
    pub index: u32,
    pub width: u32,
    pub height: u32,
    pub in_flight: bool,
    pub acquired_at: Option<Instant>,
}

/// The swapchain of one output.
pub struct OutputSwapchain {
    pub config: SwapchainConfig,
    pub present_mode: PresentMode,
    pub images: Vec<SwapchainImage>,
    pub current_image: u32,
    /// The frame period in nanoseconds.
    pub frame_period_ns: u64,
    pub last_present: Instant,
    pub frames_presented: u64,
    pub frames_dropped: u64,
    pub needs_rebuild: bool,
    pub frame_in_flight: bool,
}

/// A snapshot of a swapchain's counters.
#[derive(Debug, Clone)]
pub struct SwapchainStats {
    pub output_name: String,
    pub refresh_rate: u32,
    pub present_mode: PresentMode,
    pub frames_presented: u64,
    pub frames_dropped: u64,
    pub image_count: u32,
    pub frame_period_us: u64,
    pub in_flight: bool,
    pub needs_rebuild: bool,
}

/// The number of images a swapchain gets: the requested count clamped to
/// between 2 and 8.
pub open spec fn clamped_image_count(requested: u32) -> u32 {
    if requested < 2 {
        2
    } else if requested > 8 {
        8
    } else {
        requested
    }
}

/// The frame period in nanoseconds of a refresh rate (a rate of 0 is taken
/// as 1 Hz).
pub open spec fn frame_period_of(refresh: u32) -> u64 {
    (1_000_000_000u64 / (if refresh == 0 { 1u64 } else { refresh as u64 })) as u64
}

impl OutputSwapchain {
    /// Between 2 and 8 images, and the current image is one of them.
    pub open spec fn wf(&self) -> bool {
        &&& 2 <= self.images.len() <= 8
        &&& self.current_image < self.images.len()
    }

    /// The image fields other than the acquisition time.
    pub open spec fn image_is(img: SwapchainImage, index: int, w: u32, h: u32, in_flight: bool) -> bool {
        img.index == index && img.width == w && img.height == h && img.in_flight == in_flight
    }

    /// Build a swapchain from its configuration; no frame is in flight.
    pub fn create(config: &SwapchainConfig) -> (sc: OutputSwapchain)
        ensures
            sc.wf(),
            sc.config == *config,
            sc.present_mode == config.present_mode,
            sc.images.len() == clamped_image_count(config.image_count),
            forall|i: int|
                0 <= i < sc.images.len() ==> OutputSwapchain::image_is(
                    #[trigger] sc.images[i],
                    i,
                    config.width,
                    config.height,
                    false,
                ) && sc.images[i].acquired_at.is_none(),
            sc.current_image == 0,
            sc.frame_period_ns == frame_period_of(config.refresh_rate),
            sc.frames_presented == 0,
            sc.frames_dropped == 0,
            !sc.needs_rebuild,
            !sc.frame_in_flight,
    {
        let refresh: u64 = if config.refresh_rate == 0 { 1 } else { config.refresh_rate as u64 };
        let frame_ns = 1_000_000_000u64 / refresh;
        let image_count: u32 = if config.image_count < 2 {
            2
        } else if config.image_count > 8 {
            8
        } else {
            config.image_count
        };
        let mut images: Vec<SwapchainImage> = Vec::new();
        let mut i: u32 = 0;
        while i < image_count
            invariant
                i <= image_count <= 8,
                images.len() == i,
                forall|j: int|
                    0 <= j < i ==> OutputSwapchain::image_is(
                        #[trigger] images[j],
                        j,
                        config.width,
                        config.height,
                        false,
                    ) && images[j].acquired_at.is_none(),
            decreases image_count - i,
        {
            images.push(
                SwapchainImage {
                    index: i,
                    width: config.width,
                    height: config.height,
                    in_flight: false,
                    acquired_at: None,
                },
            );
            i = i + 1;
        }
        OutputSwapchain {
            config: config.duplicate(),
            present_mode: config.present_mode,
            images,
            current_image: 0,
            frame_period_ns: frame_ns,
            last_present: instant_now(),
            frames_presented: 0,
            frames_dropped: 0,
            needs_rebuild: false,
            frame_in_flight: false,
        }
    }

    /// Acquire the next image. While the previous frame is still in flight
    /// the frame is dropped and only the drop counter changes.
    pub fn begin_frame(&mut self)
        requires
            old(self).wf(),
            old(self).frame_in_flight ==> old(self).frames_dropped < u64::MAX,
        ensures
            final(self).wf(),
            final(self).config == old(self).config,
            final(self).present_mode == old(self).present_mode,
            final(self).images.len() == old(self).images.len(),
            final(self).frames_presented == old(self).frames_presented,
            final(self).needs_rebuild == old(self).needs_rebuild,
            final(self).frame_period_ns == old(self).frame_period_ns,
            old(self).frame_in_flight ==> final(self).frames_dropped == old(self).frames_dropped + 1
                && final(self).current_image == old(self).current_image && final(self).images
                == old(self).images && final(self).frame_in_flight,
            !old(self).frame_in_flight ==> {
                &&& final(self).frames_dropped == old(self).frames_dropped
                &&& final(self).current_image == (old(self).current_image + 1) % (old(self).images.len() as int)
                &&& final(self).frame_in_flight
                &&& final(self).images[final(self).current_image as int].in_flight
                &&& final(self).images[final(self).current_image as int].acquired_at is Some
                &&& forall|i: int|
                    0 <= i < old(self).images.len() && i != final(self).current_image ==> (
                    #[trigger] final(self).images[i]) == old(self).images[i]
                &&& final(self).images[final(self).current_image as int].index == old(self).images[final(self).current_image as int].index
                &&& final(self).images[final(self).current_image as int].width == old(self).images[final(self).current_image as int].width
                &&& final(self).images[final(self).current_image as int].height == old(self).images[final(self).current_image as int].height
            },
    {
        if self.frame_in_flight {
            self.frames_dropped = self.frames_dropped + 1;
            return;
        }
        let n = self.images.len() as u32;
        self.current_image = (self.current_image + 1) % n;
        let cur = self.current_image as usize;
        self.images[cur].in_flight = true;
        self.images[cur].acquired_at = Some(instant_now());
        self.frame_in_flight = true;
    }

    /// Finish recording the frame. Late frames are only worth a log line,
    /// so the state does not change.
    pub fn end_frame(&mut self)
        ensures
            *final(self) == *old(self),
    {
    }

    /// Present the current image: nothing is in flight afterwards and the
    /// present counter advances (wrapping around).
    pub fn present(&mut self)
        requires
            old(self).wf(),
        ensures
            final(self).wf(),
            final(self).config == old(self).config,
            final(self).present_mode == old(self).present_mode,
            final(self).current_image == old(self).current_image,
            final(self).images.len() == old(self).images.len(),
            !final(self).images[final(self).current_image as int].in_flight,
            forall|i: int|
                0 <= i < old(self).images.len() && i != old(self).current_image ==> (
                #[trigger] final(self).images[i]) == old(self).images[i],
            !final(self).frame_in_flight,
            final(self).frames_presented == (old(self).frames_presented + 1) % 0x1_0000_0000_0000_0000,
            final(self).frames_dropped == old(self).frames_dropped,
            final(self).needs_rebuild == old(self).needs_rebuild,
            final(self).frame_period_ns == old(self).frame_period_ns,
    {
        let cur = self.current_image as usize;
        self.images[cur].in_flight = false;
        self.frame_in_flight = false;
        self.frames_presented = self.frames_presented.wrapping_add(1);
        self.last_present = instant_now();
    }

    /// Resize the swapchain's images; a real change requires a rebuild.
    pub fn resize(&mut self, w: u32, h: u32)
        requires
            old(self).wf(),
        ensures
            final(self).wf(),
            (w == old(self).config.width && h == old(self).config.height) ==> *final(self) == *old(self),
            !(w == old(self).config.width && h == old(self).config.height) ==> {
                &&& final(self).config == (SwapchainConfig {
                    width: w,
                    height: h,
                    ..old(self).config
                })
                &&& final(self).images.len() == old(self).images.len()
                &&& forall|i: int|
                    0 <= i < old(self).images.len() ==> (#[trigger] final(self).images[i]).width
                        == w && final(self).images[i].height == h && final(self).images[i].index
                        == old(self).images[i].index && final(self).images[i].in_flight == old(self).images[i].in_flight
                &&& final(self).needs_rebuild
                &&& final(self).frame_in_flight == old(self).frame_in_flight
                &&& final(self).current_image == old(self).current_image
                &&& final(self).frames_presented == old(self).frames_presented
                &&& final(self).frames_dropped == old(self).frames_dropped
            },
    {
        if w == self.config.width && h == self.config.height {
            return;
        }
        self.config.width = w;
        self.config.height = h;
        let mut i: usize = 0;
        while i < self.images.len()
            invariant
                i <= self.images.len(),
                self.images.len() == old(self).images.len(),
                self.config == (SwapchainConfig { width: w, height: h, ..old(self).config }),
                self.current_image == old(self).current_image,
                old(self).wf(),
                self.frame_in_flight == old(self).frame_in_flight,
                self.frames_presented == old(self).frames_presented,
                self.frames_dropped == old(self).frames_dropped,
                forall|j: int|
                    0 <= j < i ==> (#[trigger] self.images[j]).width == w && self.images[j].height
                        == h && self.images[j].index == old(self).images[j].index
                        && self.images[j].in_flight == old(self).images[j].in_flight,
                forall|j: int| i <= j < self.images.len() ==> #[trigger] self.images[j] == old(self).images[j],
            decreases self.images.len() - i,
        {
            self.images[i].width = w;
            self.images[i].height = h;
            i = i + 1;
        }
        self.needs_rebuild = true;
    }

    /// The rebuild after a resize has completed.
    pub fn rebuild_complete(&mut self)
        ensures
            !final(self).needs_rebuild,
            *final(self) == (OutputSwapchain { needs_rebuild: false, ..*old(self) }),
    {
        self.needs_rebuild = false;
    }

    /// A new frame should be drawn: nothing is in flight, or a rebuild is
    /// pending.
    pub fn needs_repaint(&self) -> (b: bool)
        ensures
            b == (!self.frame_in_flight || self.needs_rebuild),
    {
        !self.frame_in_flight || self.needs_rebuild
    }

    /// The swapchain's counters.
    pub fn stats(&self) -> (s: SwapchainStats)
        requires
            self.wf(),
        ensures
            s.output_name@ == self.config.output_name@,
            s.refresh_rate == self.config.refresh_rate,
            s.present_mode == self.present_mode,
            s.frames_presented == self.frames_presented,
            s.frames_dropped == self.frames_dropped,
            s.image_count == self.images.len(),
            s.frame_period_us == self.frame_period_ns / 1000,
            s.in_flight == self.frame_in_flight,
            s.needs_rebuild == self.needs_rebuild,
    {
        SwapchainStats {
            output_name: self.config.output_name.clone(),
            refresh_rate: self.config.refresh_rate,
            present_mode: self.present_mode,
            frames_presented: self.frames_presented,
            frames_dropped: self.frames_dropped,
            image_count: self.images.len() as u32,
            frame_period_us: self.frame_period_ns / 1000,
            in_flight: self.frame_in_flight,
            needs_rebuild: self.needs_rebuild,
        }
    }
}

} // verus!
