//! Opening and closing the windows that show an image.

use vstd::prelude::*;

use crate::text::joined;

verus! {

#[derive(Debug, Clone, Copy)]
pub struct ImageViewerApiImpl;

impl ImageViewerApiImpl {
    /// What closing the window `window_label` gives, `found` saying whether
    /// such a window exists and `closed` what closing it gave.
    pub fn close_image_viewer(self, window_label: &str, found: bool, closed: Result<(), String>) -> (result:
        Result<(), String>)
        ensures
            match result {
                Ok(_) => found && closed is Ok,
                Err(text) => if found {
                    closed is Err && text@ == "Failed to close window: "@ + closed->Err_0@
                } else {
                    text@ == "Window not found: "@ + window_label@
                },
            },
    {
        if found {
            match closed {
                Ok(_) => Ok(()),
                Err(why) => Err(joined("Failed to close window: ", why.as_str())),
            }
        } else {
            Err(joined("Window not found: ", window_label))
        }
    }
}

} // verus!
