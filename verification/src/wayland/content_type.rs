//! `wp_content_type_manager_v1`: clients hint the content type of their
//! surfaces (game, video) so presentation can be tuned.
use vstd::prelude::*;

verus! {

/// Content type values as defined in the protocol (0, 1 and 2).
#[derive(Debug, Default, Clone, Copy, PartialEq, Eq, Structural)]
pub enum ContentType {
    /// No specific content type hint.
    #[default]
    Unspecified,
    /// Game content: optimize for low latency.
    Game,
    /// Video content: optimize for smooth playback.
    Video,
}

/// The content type of one surface.
#[derive(Debug)]
pub struct ContentTypeState {
    pub content_type: ContentType,
}

impl ContentTypeState {
    /// A surface without a content type hint.
    pub fn new() -> (s: ContentTypeState)
        ensures
            s.content_type == ContentType::Unspecified,
    {
        ContentTypeState { content_type: ContentType::Unspecified }
    }

    /// Set the content type of the surface.
    pub fn set_content_type(&mut self, ct: ContentType)
        ensures
            final(self).content_type == ct,
    {
        self.content_type = ct;
    }
}

impl Default for ContentTypeState {
    fn default() -> (s: ContentTypeState)
        ensures
            s.content_type == ContentType::Unspecified,
    {
        ContentTypeState::new()
    }
}

/// Register the `wp_content_type_manager_v1` global.
pub fn register() {
}

} // verus!
