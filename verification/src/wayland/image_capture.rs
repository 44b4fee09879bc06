//! `ext_image_capture_source_v1`: capture requests for outputs.
use vstd::prelude::*;

verus! {

/// A capture request: size, DRM fourcc format and modifier.
#[derive(Debug, Clone)]
pub struct CaptureRequest {
    pub width: i32,
    pub height: i32,
    pub format: u32,
    pub modifier: u64,
    pub pending: bool,
}

impl CaptureRequest {
    /// A new pending request (sizes are checked when it is submitted).
    pub fn new(width: i32, height: i32, format: u32, modifier: u64) -> (r: CaptureRequest)
        ensures
            r.width == width,
            r.height == height,
            r.format == format,
            r.modifier == modifier,
            r.pending,
    {
        CaptureRequest { width, height, format, modifier, pending: true }
    }
}

/// An image capture source.
#[derive(Debug)]
pub struct CaptureSource {
    /// The output being captured, if the source is output-specific.
    pub output_id: Option<u64>,
    /// Active capture request.
    pub current_request: Option<CaptureRequest>,
}

impl CaptureSource {
    /// A source without an active request.
    pub fn new(output_id: Option<u64>) -> (s: CaptureSource)
        ensures
            s.output_id == output_id,
            s.current_request.is_none(),
    {
        CaptureSource { output_id, current_request: None }
    }

    /// Start a capture; requests with a non-positive size are rejected
    /// and leave the source unchanged.
    pub fn create_capture(&mut self, req: CaptureRequest) -> (accepted: bool)
        ensures
            accepted == (req.width > 0 && req.height > 0),
            accepted ==> final(self).current_request == Some(req),
            !accepted ==> final(self).current_request == old(self).current_request,
            final(self).output_id == old(self).output_id,
    {
        if req.width <= 0 || req.height <= 0 {
            return false;
        }
        self.current_request = Some(req);
        true
    }

    /// Mark the current capture as completed.
    pub fn complete(&mut self)
        ensures
            final(self).output_id == old(self).output_id,
            match old(self).current_request {
                Some(r) => final(self).current_request == Some(
                    CaptureRequest { pending: false, ..r },
                ),
                None => final(self).current_request.is_none(),
            },
    {
        match &mut self.current_request {
            Some(req) => {
                req.pending = false;
            },
            None => {},
        }
    }
}

/// Register the `ext_image_capture_source_manager_v1` global.
pub fn register() {
}

} // verus!
