//! The windows that show an image: one per image, found again by the
//! image's address.

use vstd::prelude::*;

use crate::text::{append, joined};
use crate::text_map::TextMap;

verus! {

pub struct WindowMetadata {
    pub label: String,
}

/// The label of the window of each image that is shown, under the hash of
/// the image's address.
pub struct WindowManager {
    windows: TextMap,
}

/// The MD5 digest of a text, in lower-case hexadecimal digits, as the `md5`
/// crate computes and prints it.
pub uninterp spec fn md5_hex_of(text: Seq<char>) -> Seq<char>;

/// Calls `md5::compute` on the text's bytes and prints the digest with its
/// `LowerHex` impl. The contract names the result: the same text gives the
/// same digits.
#[verifier::external_body]
pub(crate) fn md5_hex(text: &str) -> (hash: String)
    ensures
        hash@ == md5_hex_of(text@),
{
    format!("{:x}", md5::compute(text))
}

/// The label of the window that shows the image with the hash `url_hash`.
pub open spec fn label_of(url_hash: Seq<char>) -> Seq<char> {
    "image-viewer-"@ + url_hash
}

/// The address of the page that shows an image, with the window's title
/// where it has one.
pub open spec fn viewer_url(image_url: Seq<char>, title: Option<Seq<char>>) -> Seq<char> {
    let page = "/image-viewer?image="@ + crate::url::percent_encoded(image_url);
    match title {
        Some(title) => page + "&title="@ + crate::url::percent_encoded(title),
        None => page,
    }
}

/// The title of a window whose image has none.
pub open spec fn title_or_default(title: Option<Seq<char>>) -> Seq<char> {
    match title {
        Some(title) => title,
        None => "Image Viewer"@,
    }
}

/// What is to be done for an image that is to be shown.
#[derive(Debug)]
pub struct WindowPlan {
    /// The hash of the image's address.
    pub url_hash: String,
    /// The label of the image's window.
    pub label: String,
    /// Whether a window for the image was opened, and not closed since.
    pub known: bool,
}

impl WindowManager {
    /// The labels of the windows, by the hash of their image's address.
    pub closed spec fn view(&self) -> Map<Seq<char>, Seq<char>> {
        self.windows@
    }

    pub fn new() -> (manager: Self)
        ensures
            manager@ == Map::<Seq<char>, Seq<char>>::empty(),
    {
        WindowManager { windows: TextMap::new() }
    }

    /// The address of the page that shows the image `image_url`.
    pub fn image_viewer_url(image_url: &str, title: &Option<String>) -> (url: String)
        ensures
            url@ == viewer_url(image_url@, crate::conf::text_view(*title)),
    {
        let encoded_url = crate::url::url_encode(image_url);
        let mut url = joined("/image-viewer?image=", encoded_url.as_str());
        match title {
            Some(t) => {
                let encoded_title = crate::url::url_encode(t.as_str());
                append(&mut url, "&title=");
                append(&mut url, encoded_title.as_str());
            },
            None => {},
        }
        url
    }

    /// The title of the window that shows an image.
    pub fn window_title(title: Option<String>) -> (shown: String)
        ensures
            shown@ == title_or_default(crate::conf::text_view(title)),
    {
        match title {
            Some(title) => title,
            None => "Image Viewer".to_string(),
        }
    }

    /// What is to be done to show the image `image_url`: the label of its
    /// window, and whether such a window is known. A known window is
    /// brought to the front where it still exists; else a window is made,
    /// and noted with `note_window`.
    pub fn get_or_create_window(&self, image_url: &str) -> (plan: WindowPlan)
        ensures
            plan.url_hash@ == md5_hex_of(image_url@),
            plan.label@ == label_of(plan.url_hash@),
            plan.known == self@.contains_key(plan.url_hash@),
    {
        let url_hash = md5_hex(image_url);
        let label = joined("image-viewer-", url_hash.as_str());
        let known = self.windows.contains_key(url_hash.as_str());
        WindowPlan { url_hash, label, known }
    }

    /// Notes that the window `metadata` shows the image with the hash
    /// `url_hash`.
    pub fn note_window(&mut self, url_hash: String, metadata: WindowMetadata)
        ensures
            final(self)@ == old(self)@.insert(url_hash@, metadata.label@),
    {
        self.windows.insert(url_hash, metadata.label);
    }

    /// Forgets every window with the label `label`.
    pub fn cleanup_closed_window(&mut self, label: &str)
        ensures
            final(self)@ == old(self)@.restrict(
                Set::new(|hash: Seq<char>| old(self)@.contains_key(hash) && old(self)@[hash] != label@),
            ),
    {
        self.windows.remove_value(label);
    }
}

impl Default for WindowManager {
    fn default() -> (manager: Self)
        ensures
            manager@ == Map::<Seq<char>, Seq<char>>::empty(),
    {
        Self::new()
    }
}

} // verus!
