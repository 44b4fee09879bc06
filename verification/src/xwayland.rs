//! XWayland server state.
use vstd::prelude::*;
use crate::error::CompositorError;
use crate::text::{decimal, push_decimal};
use crate::util::{first_true, first_existing, lemma_first_true_at};

verus! {

/// The state of the XWayland server.
pub struct XWayland {
    pub enabled: bool,
    pub display: Option<u32>,
    pub ready: bool,
    pub lazy_init: bool,
}

/// The X11 socket path of display number `d`.
pub open spec fn x11_socket_path(d: nat) -> Seq<char> {
    "/tmp/.X11-unix/X"@ + decimal(d)
}

impl XWayland {
    /// A new, not yet started server; lazy initialization follows `enabled`.
    pub fn new(enabled: bool) -> (x: XWayland)
        ensures
            x.enabled == enabled,
            x.display.is_none(),
            !x.ready,
            x.lazy_init == enabled,
    {
        XWayland { enabled, display: None, ready: false, lazy_init: enabled }
    }

    /// Start the server on a free display: does nothing when disabled.
    pub fn init(&mut self) -> (r: Result<(), CompositorError>)
        ensures
            r is Ok,
            final(self).enabled == old(self).enabled,
            final(self).lazy_init == old(self).lazy_init,
            !old(self).enabled ==> *final(self) == *old(self),
            old(self).enabled ==> final(self).ready && final(self).display is Some
                && final(self).display.unwrap() < 64,
    {
        if !self.enabled {
            return Ok(());
        }
        let display_num = XWayland::find_free_display();
        self.display = Some(display_num);
        self.ready = true;
        Ok(())
    }

    /// The X11 socket path of display `d` (see `x11_socket_path`).
    pub fn socket_path(d: u32) -> (p: String)
        ensures
            p@ == x11_socket_path(d as nat),
    {
        let mut path = "/tmp/.X11-unix/X".to_owned();
        push_decimal(&mut path, d);
        path
    }

    /// The display to take, given for the displays 0, 1, ... in order
    /// whether each one's socket is absent: the first whose socket is
    /// absent, else 0.
    pub fn pick_free_display(absent: &Vec<bool>) -> (d: u32)
        requires
            absent@.len() <= 64,
        ensures
            d == match first_true(absent@) {
                Some(i) => i,
                None => 0,
            },
            d < 64,
    {
        match first_existing(absent) {
            Some(i) => {
                proof {
                    lemma_first_true_at(absent@, i as int);
                }
                i as u32
            },
            None => {
                proof {
                    lemma_first_true_at(absent@, absent@.len() as int);
                }
                0
            },
        }
    }

    /// The first display number below 64 whose X11 socket does not exist,
    /// or 0 when all exist: the sockets are probed in order, and the
    /// answers handed to `pick_free_display`. What exists depends on the
    /// disk.
    pub fn find_free_display() -> (d: u32)
        ensures
            d < 64,
            exists|absent: Seq<bool>|
                absent.len() <= 64 && d == match first_true(absent) {
                    Some(i) => i,
                    None => 0,
                },
    {
        let mut absent: Vec<bool> = Vec::new();
        let mut d: u32 = 0;
        while d < 64
            invariant_except_break
                d <= 64,
                absent@.len() == d,
            ensures
                absent@.len() <= 64,
            decreases 64 - d,
        {
            let path = XWayland::socket_path(d);
            let free = !crate::probe::path_exists(path.as_str());
            absent.push(free);
            if free {
                break;
            }
            d = d + 1;
        }
        XWayland::pick_free_display(&absent)
    }

    /// Flush pending X11 requests (nothing is buffered here).
    pub fn flush(&self) {
    }

    /// Forget the display the server ran on.
    pub fn shutdown(&mut self)
        ensures
            final(self).display.is_none(),
            final(self).enabled == old(self).enabled,
            final(self).ready == old(self).ready,
            final(self).lazy_init == old(self).lazy_init,
    {
        self.display = None;
    }
}

impl Default for XWayland {
    fn default() -> (x: XWayland)
        ensures
            x.enabled,
            x.display.is_none(),
            !x.ready,
            x.lazy_init,
    {
        XWayland::new(true)
    }
}

} // verus!
