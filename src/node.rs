//! The payload of a graph node: the link it stands for.

use vstd::prelude::*;

use crate::url::{kind_of, label_of, percent_decoded, Url, UrlView};

verus! {

/// A page of the explored graph.
#[derive(Clone, Debug)]
pub struct Node {
    url: Url,
}

impl View for Node {
    type V = UrlView;

    closed spec fn view(&self) -> UrlView {
        self.url@
    }
}

impl Node {
    pub fn new(url: Url) -> (r: Node)
        ensures
            r@ == url@,
    {
        Node { url }
    }

    pub fn url(&self) -> (r: &Url)
        ensures
            r@ == self@,
    {
        &self.url
    }

    /// The label shown for this node.
    pub fn label(&self) -> (r: String)
        ensures
            r@ == label_of(kind_of(self@), self@.val, self@.path, percent_decoded(self@.path)),
    {
        self.url.val_for_type()
    }
}

} // verus!
