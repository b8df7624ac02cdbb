//! Icons, held by reference, with a version by which a change is noticed.

use vstd::prelude::*;

verus! {

/// What an `Image` stands for in contracts.
pub struct ImageView {
    pub id: usize,
    pub url: Seq<char>,
}

/// A reference to an icon, together with the version of that reference.
///
/// The version is 0 for an image that was never set and moves on with every
/// `modify`. A reader that remembers the last version it saw learns from one
/// comparison whether the icon has to be fetched again.
#[derive(Debug)]
pub struct Image {
    id: usize,
    url: String,
}

impl View for Image {
    type V = ImageView;

    closed spec fn view(&self) -> ImageView {
        ImageView { id: self.id, url: self.url@ }
    }
}

impl ImageView {
    /// The image that was never set.
    pub open spec fn unset() -> ImageView {
        ImageView { id: 0, url: Seq::empty() }
    }

    /// The version that follows `id`. It is never 0.
    pub open spec fn next_id(id: usize) -> usize {
        if id == usize::MAX {
            1
        } else {
            (id + 1) as usize
        }
    }

    /// The image after its reference was replaced by `url`.
    pub open spec fn modified(self, url: Seq<char>) -> ImageView {
        ImageView { id: ImageView::next_id(self.id), url }
    }

    /// What a reader that last saw version `seen` is handed: the reference,
    /// if the version has moved since.
    pub open spec fn change_since(self, seen: usize) -> Option<Seq<char>> {
        if seen != self.id {
            Some(self.url)
        } else {
            None
        }
    }
}

impl Image {
    /// An image that was never set.
    pub fn new() -> (r: Image)
        ensures
            r@ == ImageView::unset(),
    {
        Image { id: 0, url: String::new() }
    }

    /// Rebuilds an image from a stored version and reference.
    pub fn from_parts(id: usize, url: String) -> (r: Image)
        ensures
            r@ == (ImageView { id, url: url@ }),
    {
        Image { id, url }
    }

    /// The version of the reference.
    pub fn id(&self) -> (r: usize)
        ensures
            r == self@.id,
    {
        self.id
    }

    /// The reference itself.
    pub fn url(&self) -> (r: &String)
        ensures
            r@ == self@.url,
    {
        &self.url
    }

    /// Replaces the reference and moves the version on.
    pub fn modify(&mut self, url: String)
        ensures
            final(self)@ == old(self)@.modified(url@),
    {
        self.id = if self.id == usize::MAX {
            1
        } else {
            self.id + 1
        };
        self.url = url;
    }

    /// Hands out the reference if the version differs from the one in
    /// `seen`, and then remembers the current version there.
    pub fn check_for_change(&self, seen: &mut usize) -> (r: Option<&String>)
        ensures
            *final(seen) == self@.id,
            match r {
                Some(url) => self@.change_since(*old(seen)) == Some(url@),
                None => self@.change_since(*old(seen)).is_none(),
            },
    {
        if *seen != self.id {
            *seen = self.id;
            Some(&self.url)
        } else {
            None
        }
    }
}

impl Clone for Image {
    fn clone(&self) -> (r: Image)
        ensures
            r@ == self@,
    {
        Image { id: self.id, url: self.url.clone() }
    }
}

} // verus!
