//! The finished artifact: a username paired with its rendered canvas,
//! ready to be encoded and written to `<username>.png` by a caller.

use vstd::prelude::*;

use crate::canvas::Canvas;

verus! {

/// A username together with its finished canvas.
#[derive(Debug)]
pub struct Identicon {
    username: String,
    img: Canvas,
}

impl Identicon {
    /// The username the identicon was derived from.
    pub closed spec fn spec_username(self) -> Seq<char> {
        self.username@
    }

    /// The rendered canvas.
    pub closed spec fn spec_img(self) -> Canvas {
        self.img
    }

    /// Pair a username with its rendered canvas.
    pub fn new(username: String, img: Canvas) -> (r: Self)
        ensures
            r.spec_username() == username@,
            r.spec_img() == img,
    {
        Self { img, username }
    }

    /// The username, for inspection.
    pub fn username(&self) -> (r: &String)
        ensures
            r@ == self.spec_username(),
    {
        &self.username
    }

    /// The canvas, for an encoder to consume.
    pub fn canvas(&self) -> (r: &Canvas)
        ensures
            *r == self.spec_img(),
    {
        &self.img
    }

    /// The name of the file the identicon is saved under: `<username>.png`.
    pub fn file_name(&self) -> (r: String)
        ensures
            r@ == self.spec_username() + ".png"@,
    {
        let base = String::from_str(self.username.as_str());
        base.concat(".png")
    }
}

} // verus!
