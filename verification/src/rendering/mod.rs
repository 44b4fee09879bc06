//! Rendering: swapchains, timeline synchronization, the layers of a
//! compositor pass, and the renderer that drives them per output.
use vstd::prelude::*;
use crate::output::Output;
use self::swapchain::{OutputSwapchain, PresentMode, SwapchainConfig, SwapchainStats};
use self::sync::MultiOutputSync;

pub mod sync;
pub mod swapchain;
pub mod compositor;

verus! {

/// The rendering backend.
#[derive(Debug, Clone, Copy, PartialEq, Eq, Structural)]
pub enum RendererType {
    Vulkan,
    Egl,
    Pixman,
}

/// A GPU vendor.
#[derive(Debug, Clone, Copy, PartialEq, Eq, Structural)]
pub enum GpuVendor {
    Nvidia,
    Amd,
    Intel,
    Other,
}

impl GpuVendor {
    /// The vendor's name.
    pub fn name(&self) -> (s: &'static str)
        ensures
            s@ == match *self {
                GpuVendor::Nvidia => "NVIDIA"@,
                GpuVendor::Amd => "AMD"@,
                GpuVendor::Intel => "Intel"@,
                GpuVendor::Other => "Unknown"@,
            },
    {
        match self {
            GpuVendor::Nvidia => "NVIDIA",
            GpuVendor::Amd => "AMD",
            GpuVendor::Intel => "Intel",
            GpuVendor::Other => "Unknown",
        }
    }
}

/// The GPU a renderer drives.
#[derive(Debug)]
pub struct GpuInfo {
    pub vendor: GpuVendor,
    pub name: String,
    pub timeline_semaphore: bool,
    pub nvidia: bool,
}

/// A rendering failure.
#[derive(Debug)]
pub enum RenderError {
    /// No output has the given index.
    NoOutput(usize),
    /// The GPU reported an error.
    Gpu(String),
}

/// The swapchain configuration of an output: its size (at least 1x1), its
/// highest refresh rate (at least 60 Hz), the present mode that rate calls
/// for, triple buffering for mailbox presentation and double buffering
/// otherwise.
pub open spec fn swapchain_config_for(c: SwapchainConfig, o: Output) -> bool {
    let mode = if o.max_refresh_rate >= 120 && o.gsync_compatible {
        PresentMode::Immediate
    } else if o.max_refresh_rate >= 120 {
        PresentMode::Mailbox
    } else {
        PresentMode::Fifo
    };
    &&& c.output_name@ == o.name@
    &&& c.width == (if o.width >= 1 { o.width } else { 1 }) as u32
    &&& c.height == (if o.height >= 1 { o.height } else { 1 }) as u32
    &&& c.refresh_rate == (if o.max_refresh_rate >= 60 { o.max_refresh_rate } else { 60 })
    &&& c.present_mode == mode
    &&& c.image_count == (if mode == PresentMode::Mailbox { 3u32 } else { 2u32 })
    &&& c.gsync_compatible == o.gsync_compatible
}

/// A renderer: one swapchain and one synchronization state per output.
pub struct Renderer {
    pub renderer_type: RendererType,
    pub gpu: GpuInfo,
    pub outputs: Vec<OutputSwapchain>,
    pub frame_sync: MultiOutputSync,
    frame_counter: u64,
    current_timeline: u64,
}

impl Renderer {
    /// The number of frames begun (wrapping around).
    pub closed spec fn frames(&self) -> u64 {
        self.frame_counter
    }

    /// The last timeline point handed out.
    pub closed spec fn timeline(&self) -> u64 {
        self.current_timeline
    }

    /// The swapchains, in output order.
    pub closed spec fn swapchains(&self) -> Seq<OutputSwapchain> {
        self.outputs@
    }

    /// The synchronization state.
    pub closed spec fn sync_state(&self) -> MultiOutputSync {
        self.frame_sync
    }

    /// The rendering backend.
    pub closed spec fn kind(&self) -> RendererType {
        self.renderer_type
    }

    /// The GPU driven.
    pub closed spec fn gpu_info(&self) -> GpuInfo {
        self.gpu
    }

    /// Every swapchain is well formed, and there is one synchronization
    /// state per swapchain.
    pub open spec fn wf(&self) -> bool {
        &&& forall|i: int| 0 <= i < self.swapchains().len() ==> (#[trigger] self.swapchains()[i]).wf()
        &&& self.sync_state().wf()
        &&& self.sync_state().outputs().len() == self.swapchains().len()
    }

    /// A Vulkan renderer over the outputs, one swapchain each (see
    /// `swapchain_config_for`), with nothing pending and no frame begun.
    pub fn create(outputs: &[Output]) -> (r: Result<Renderer, RenderError>)
        ensures
            r matches Ok(rd) && {
                &&& rd.wf()
                &&& rd.kind() == RendererType::Vulkan
                &&& rd.gpu_info().vendor == GpuVendor::Other
                &&& rd.gpu_info().name@ == "auto-detected"@
                &&& rd.gpu_info().timeline_semaphore
                &&& !rd.gpu_info().nvidia
                &&& rd.swapchains().len() == outputs@.len()
                &&& forall|i: int|
                    0 <= i < outputs@.len() ==> swapchain_config_for(
                        (#[trigger] rd.swapchains()[i]).config,
                        outputs@[i],
                    ) && rd.swapchains()[i].current_image == 0 && !rd.swapchains()[i].frame_in_flight
                        && rd.swapchains()[i].frames_presented == 0 && rd.swapchains()[i].frames_dropped == 0
                        && !rd.swapchains()[i].needs_rebuild
                &&& forall|i: int|
                    0 <= i < outputs@.len() ==> (#[trigger] rd.sync_state().outputs()[i]).pending_set()
                        == Set::<u64>::empty()
                &&& rd.frames() == 0
                &&& rd.timeline() == 0
            },
    {
        let gpu = GpuInfo {
            vendor: GpuVendor::Other,
            name: "auto-detected".to_owned(),
            timeline_semaphore: true,
            nvidia: false,
        };
        let mut scs: Vec<OutputSwapchain> = Vec::new();
        let mut i: usize = 0;
        while i < outputs.len()
            invariant
                i <= outputs@.len(),
                scs@.len() == i,
                forall|j: int|
                    0 <= j < i ==> (#[trigger] scs@[j]).wf() && swapchain_config_for(scs@[j].config, outputs@[j])
                        && scs@[j].current_image == 0 && !scs@[j].frame_in_flight
                        && scs@[j].frames_presented == 0 && scs@[j].frames_dropped == 0
                        && !scs@[j].needs_rebuild,
            decreases outputs@.len() - i,
        {
            let o = &outputs[i];
            let mode = PresentMode::best_for_refresh(o.max_refresh_rate, o.gsync_compatible);
            let config = SwapchainConfig {
                output_name: o.name.clone(),
                width: if o.width >= 1 { o.width as u32 } else { 1 },
                height: if o.height >= 1 { o.height as u32 } else { 1 },
                refresh_rate: if o.max_refresh_rate >= 60 { o.max_refresh_rate } else { 60 },
                present_mode: mode,
                image_count: if mode == PresentMode::Mailbox { 3 } else { 2 },
                gsync_compatible: o.gsync_compatible,
            };
            let sc = OutputSwapchain::create(&config);
            scs.push(sc);
            i = i + 1;
        }
        let frame_sync = MultiOutputSync::new(outputs.len());
        Ok(Renderer {
            renderer_type: RendererType::Vulkan,
            gpu,
            outputs: scs,
            frame_sync,
            frame_counter: 0,
            current_timeline: 0,
        })
    }
}

impl Renderer {
    /// Begins a frame on output `output_idx` (see
    /// `OutputSwapchain::begin_frame`); `NoOutput` where there is no such
    /// output, changing nothing.
    pub fn begin_frame(&mut self, output_idx: usize) -> (r: Result<(), RenderError>)
        requires
            old(self).wf(),
            output_idx < old(self).swapchains().len() && old(self).swapchains()[output_idx as int].frame_in_flight
                ==> old(self).swapchains()[output_idx as int].frames_dropped < u64::MAX,
        ensures
            final(self).wf(),
            final(self).swapchains().len() == old(self).swapchains().len(),
            final(self).sync_state() == old(self).sync_state(),
            final(self).frames() == old(self).frames(),
            final(self).timeline() == old(self).timeline(),
            output_idx >= old(self).swapchains().len() ==> (r matches Err(RenderError::NoOutput(i)) && i
                == output_idx) && final(self).swapchains() == old(self).swapchains(),
            output_idx < old(self).swapchains().len() ==> r is Ok && forall|i: int|
                0 <= i < old(self).swapchains().len() && i != output_idx ==> #[trigger] final(self).swapchains()[i]
                    == old(self).swapchains()[i],
    {
        if output_idx >= self.outputs.len() {
            return Err(RenderError::NoOutput(output_idx));
        }
        let mut scs: Vec<OutputSwapchain> = Vec::new();
        std::mem::swap(&mut scs, &mut self.outputs);
        let mut sc = scs.remove(output_idx);
        sc.begin_frame();
        scs.insert(output_idx, sc);
        std::mem::swap(&mut scs, &mut self.outputs);
        proof {
            assert forall|i: int| 0 <= i < self.outputs@.len() implies (#[trigger] self.outputs@[i]).wf() by {
                if i != output_idx {
                    assert(self.outputs@[i] == old(self).outputs@[i]);
                }
            }
        }
        Ok(())
    }

    /// Ends the frame on output `output_idx` (which changes nothing);
    /// `NoOutput` where there is no such output.
    pub fn end_frame(&mut self, output_idx: usize) -> (r: Result<(), RenderError>)
        ensures
            *final(self) == *old(self),
            output_idx >= old(self).swapchains().len() ==> (r matches Err(RenderError::NoOutput(i)) && i
                == output_idx),
            output_idx < old(self).swapchains().len() ==> r is Ok,
    {
        if output_idx >= self.outputs.len() {
            return Err(RenderError::NoOutput(output_idx));
        }
        Ok(())
    }

    /// Takes the next timeline point, presents output `output_idx` and
    /// submits the point on it; `NoOutput` where there is no such output,
    /// after the point was taken.
    pub fn present(&mut self, output_idx: usize) -> (r: Result<(), RenderError>)
        requires
            old(self).wf(),
            old(self).timeline() < u64::MAX,
        ensures
            final(self).wf(),
            final(self).timeline() == old(self).timeline() + 1,
            final(self).frames() == old(self).frames(),
            final(self).swapchains().len() == old(self).swapchains().len(),
            output_idx >= old(self).swapchains().len() ==> (r matches Err(RenderError::NoOutput(i)) && i
                == output_idx) && final(self).swapchains() == old(self).swapchains()
                && final(self).sync_state() == old(self).sync_state(),
            output_idx < old(self).swapchains().len() ==> {
                &&& r is Ok
                &&& !final(self).swapchains()[output_idx as int].frame_in_flight
                &&& final(self).swapchains()[output_idx as int].frames_presented == (old(self).swapchains()[output_idx as int].frames_presented + 1) % 0x1_0000_0000_0000_0000
                &&& forall|i: int|
                    0 <= i < old(self).swapchains().len() && i != output_idx ==> #[trigger] final(self).swapchains()[i] == old(self).swapchains()[i]
                &&& final(self).sync_state().outputs()[output_idx as int].pending_set() == old(self).sync_state().outputs()[output_idx as int].pending_set().insert(final(self).timeline())
                &&& forall|i: int|
                    0 <= i < old(self).swapchains().len() && i != output_idx ==> #[trigger] final(self).sync_state().outputs()[i] == old(self).sync_state().outputs()[i]
            },
    {
        self.current_timeline = self.current_timeline + 1;
        if output_idx >= self.outputs.len() {
            return Err(RenderError::NoOutput(output_idx));
        }
        let mut scs: Vec<OutputSwapchain> = Vec::new();
        std::mem::swap(&mut scs, &mut self.outputs);
        let mut sc = scs.remove(output_idx);
        sc.present();
        scs.insert(output_idx, sc);
        std::mem::swap(&mut scs, &mut self.outputs);
        self.frame_sync.submit(output_idx, self.current_timeline);
        proof {
            assert forall|i: int| 0 <= i < self.outputs@.len() implies (#[trigger] self.outputs@[i]).wf() by {
                if i != output_idx {
                    assert(self.outputs@[i] == old(self).outputs@[i]);
                }
            }
        }
        Ok(())
    }

    /// Counts a new frame (wrapping around) and takes a timeline point;
    /// returns the new frame count.
    pub fn advance_frame(&mut self) -> (n: u64)
        requires
            old(self).timeline() < u64::MAX,
        ensures
            n == final(self).frames(),
            final(self).frames() == (old(self).frames() + 1) % 0x1_0000_0000_0000_0000,
            final(self).timeline() == old(self).timeline() + 1,
            final(self).swapchains() == old(self).swapchains(),
            final(self).sync_state() == old(self).sync_state(),
            old(self).wf() ==> final(self).wf(),
    {
        self.frame_counter = self.frame_counter.wrapping_add(1);
        self.current_timeline = self.current_timeline + 1;
        self.frame_counter
    }

    /// The number of outputs.
    pub fn output_count(&self) -> (n: usize)
        ensures
            n == self.swapchains().len(),
    {
        self.outputs.len()
    }

    /// Whether output `idx` should be drawn again (false where there is no
    /// such output).
    pub fn needs_repaint(&self, idx: usize) -> (b: bool)
        ensures
            b == (idx < self.swapchains().len() && (!self.swapchains()[idx as int].frame_in_flight
                || self.swapchains()[idx as int].needs_rebuild)),
    {
        if idx < self.outputs.len() {
            self.outputs[idx].needs_repaint()
        } else {
            false
        }
    }

    /// The number of frames begun.
    pub fn frame_number(&self) -> (n: u64)
        ensures
            n == self.frames(),
    {
        self.frame_counter
    }

    /// The last timeline point handed out.
    pub fn timeline_point(&self) -> (n: u64)
        ensures
            n == self.timeline(),
    {
        self.current_timeline
    }

    /// The counters of output `idx`, where there is one.
    pub fn stats(&self, idx: usize) -> (r: Option<SwapchainStats>)
        requires
            self.wf(),
        ensures
            r is Some <==> idx < self.swapchains().len(),
            r matches Some(s) ==> {
                let sc = self.swapchains()[idx as int];
                &&& s.output_name@ == sc.config.output_name@
                &&& s.refresh_rate == sc.config.refresh_rate
                &&& s.present_mode == sc.present_mode
                &&& s.frames_presented == sc.frames_presented
                &&& s.frames_dropped == sc.frames_dropped
                &&& s.image_count == sc.images.len()
                &&& s.frame_period_us == sc.frame_period_ns / 1000
                &&& s.in_flight == sc.frame_in_flight
                &&& s.needs_rebuild == sc.needs_rebuild
            },
    {
        if idx < self.outputs.len() {
            Some(self.outputs[idx].stats())
        } else {
            None
        }
    }
}

} // verus!
