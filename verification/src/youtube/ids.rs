//! Identifier newtypes for feed topics and content ids.
//!
//! A topic (an external channel) and a content id (one published video) are
//! opaque strings; equality is exact string equality.

use vstd::prelude::*;

verus! {

/// Identifier of an external feed channel (a topic the hub can notify
/// about).
#[derive(Debug)]
pub struct YoutubeChannel(pub String);

impl View for YoutubeChannel {
    type V = Seq<char>;

    open spec fn view(&self) -> Seq<char> {
        self.0@
    }
}

impl YoutubeChannel {
    /// The identifier as a plain string slice.
    pub fn as_str(&self) -> (r: &str)
        ensures
            r@ == self@,
    {
        self.0.as_str()
    }

    /// Wrap a plain string as a topic identifier.
    pub fn new(id: String) -> (r: YoutubeChannel)
        ensures
            r@ == id@,
    {
        YoutubeChannel(id)
    }

    /// An owned copy of this identifier.
    pub fn duplicate(&self) -> (r: YoutubeChannel)
        ensures
            r@ == self@,
    {
        YoutubeChannel(self.0.clone())
    }
}

impl PartialEq for YoutubeChannel {
    fn eq(&self, other: &YoutubeChannel) -> (r: bool) {
        self.0 == other.0
    }
}

impl vstd::std_specs::cmp::PartialEqSpecImpl for YoutubeChannel {
    open spec fn obeys_eq_spec() -> bool {
        true
    }

    open spec fn eq_spec(&self, other: &YoutubeChannel) -> bool {
        self@ == other@
    }
}

/// Identifier of a single published content item.
#[derive(Debug)]
pub struct YoutubeId(pub String);

impl View for YoutubeId {
    type V = Seq<char>;

    open spec fn view(&self) -> Seq<char> {
        self.0@
    }
}

impl YoutubeId {
    /// Wrap a plain string as a content identifier.
    pub fn new(id: String) -> (r: YoutubeId)
        ensures
            r@ == id@,
    {
        YoutubeId(id)
    }

    /// The identifier as a plain string slice.
    pub fn as_str(&self) -> (r: &str)
        ensures
            r@ == self@,
    {
        self.0.as_str()
    }
}

impl PartialEq for YoutubeId {
    fn eq(&self, other: &YoutubeId) -> (r: bool) {
        self.0 == other.0
    }
}

impl vstd::std_specs::cmp::PartialEqSpecImpl for YoutubeId {
    open spec fn eq_spec(&self, other: &YoutubeId) -> bool {
        self@ == other@
    }

    open spec fn obeys_eq_spec() -> bool {
        true
    }
}

} // verus!
