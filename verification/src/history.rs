//! The image being worked on and the one before it: one step of undo.

use vstd::prelude::*;
use crate::image::Image;

verus! {

/// Two slots: the current image and the image that the last transform
/// replaced. There is one level of history, so undoing twice in a row does
/// nothing the second time.
pub struct History {
    pub current: Option<Image>,
    pub previous: Option<Image>,
}

impl History {
    /// A history without images.
    pub fn new() -> (history: History)
        ensures
            history.current is None,
            history.previous is None,
    {
        History { current: None, previous: None }
    }

    /// Starts over with a newly loaded image: nothing is left to undo.
    pub fn load(&mut self, image: Image)
        ensures
            final(self).current == Some(image),
            final(self).previous is None,
    {
        self.current = Some(image);
        self.previous = None;
    }

    /// Makes `image` the current image and keeps the one it replaces for one
    /// undo.
    pub fn replace(&mut self, image: Image)
        ensures
            final(self).current == Some(image),
            final(self).previous == old(self).current,
    {
        self.previous = self.current.take();
        self.current = Some(image);
    }

    /// Goes back to the image before the last transform and says whether
    /// there was one. Where there was none, nothing changes.
    pub fn undo(&mut self) -> (restored: bool)
        ensures
            restored == old(self).previous is Some,
            restored ==> final(self).current == old(self).previous && final(self).previous is None,
            !restored ==> *final(self) == *old(self),
    {
        match self.previous.take() {
            Some(image) => {
                self.current = Some(image);
                true
            },
            None => false,
        }
    }

    /// The current image, if one is loaded.
    pub fn current(&self) -> (image: Option<&Image>)
        ensures
            image is Some <==> self.current is Some,
            image matches Some(shown) ==> self.current == Some(*shown),
    {
        self.current.as_ref()
    }
}

} // verus!
