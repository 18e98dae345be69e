//! Parser for inbound content notifications.
//!
//! The hub delivers an Atom feed document whose `entry` element carries the
//! content id, the owning topic and a display title in a namespaced schema.
//! The XML itself is handled by the `minidom` crate behind trusted wrappers
//! from the document text to the extracted facts; what each wrapper hands
//! back is a function of the text alone and is given a name, so that the
//! parser's contract pins the whole result: when parsing succeeds, which
//! error is reported otherwise, and which texts the fields carry. A parse
//! failure never partially succeeds: the caller rejects the request and no
//! event is produced.

use vstd::prelude::*;

use crate::text::{spec_trim, trim_ws};
use crate::youtube::ids::{YoutubeChannel, YoutubeId};

verus! {

/// Namespace of the Atom elements (`entry`, `title`).
pub const BASE_NS: &'static str = "http://www.w3.org/2005/Atom";

/// Namespace of the feed-specific elements (`videoId`, `channelId`).
pub const YT_NS: &'static str = "http://www.youtube.com/xml/schemas/2015";

/// Why a notification body was rejected.
#[derive(Debug)]
pub enum PubError {
    /// The document is not well-formed XML.
    InvalidXml,
    /// The named element is absent.
    MissingChild(&'static str),
    /// The named element is present but has no text content.
    MissingChildInner(&'static str),
}

/// One decoded notification: a fresh content item on a topic.
#[derive(Debug)]
pub struct Publication {
    pub title: String,
    pub yt_id: YoutubeId,
    pub yt_channel: YoutubeChannel,
}

/// Whether `minidom` parses this document: a function of the text alone.
pub uninterp spec fn xml_wellformed(s: Seq<char>) -> bool;

/// Whether the well-formed document's root has an `entry` child in the
/// Atom namespace: a function of the text alone.
pub uninterp spec fn entry_present(s: Seq<char>) -> bool;

/// Whether the document's `entry` element has a child `name` in namespace
/// `ns`: a function of the text alone.
pub uninterp spec fn entry_child_present(s: Seq<char>, name: Seq<char>, ns: Seq<char>) -> bool;

/// The first text node of the `entry` element's child `name` in namespace
/// `ns`, when the child exists and carries text: a function of the text
/// alone.
pub uninterp spec fn entry_child_text(s: Seq<char>, name: Seq<char>, ns: Seq<char>) -> Option<
    Seq<char>,
>;

/// Relies on `minidom::Element`'s `FromStr` impl: whether the text parses
/// as a well-formed document. Parsing a string is deterministic.
#[verifier::external_body]
fn doc_wellformed(s: &str) -> (r: bool)
    ensures
        r == xml_wellformed(s@),
{
    s.parse::<minidom::Element>().is_ok()
}

/// Relies on `minidom::Element`'s `FromStr` and `Element::get_child`:
/// whether the document parses and its root has an `entry` child in the
/// Atom namespace.
#[verifier::external_body]
fn doc_entry_present(s: &str) -> (r: bool)
    ensures
        r == (xml_wellformed(s@) && entry_present(s@)),
{
    match s.parse::<minidom::Element>() {
        Ok(root) => root.get_child("entry", BASE_NS).is_some(),
        Err(_) => false,
    }
}

/// Relies on `minidom::Element`'s `FromStr`, `Element::get_child` and
/// `Element::texts`: the first text node of the `entry` element's child
/// `name` in namespace `ns`. `None`: no such child; `Some(None)`: the child
/// exists but has no text node. Everything depends on the arguments alone.
#[verifier::external_body]
fn doc_entry_child_text(s: &str, name: &str, ns: &str) -> (r: Option<Option<String>>)
    ensures
        xml_wellformed(s@) && entry_present(s@) ==> {
            &&& (r is Some) == entry_child_present(s@, name@, ns@)
            &&& (r matches Some(inner) ==> match inner {
                Some(t) => entry_child_text(s@, name@, ns@) matches Some(x) && t@ == x,
                None => entry_child_text(s@, name@, ns@) is None,
            })
        },
{
    let root = match s.parse::<minidom::Element>() {
        Ok(r) => r,
        Err(_) => return None,
    };
    let child = root.get_child("entry", BASE_NS)?.get_child(name, ns)?;
    match child.texts().next() {
        Some(t) => Some(Some(t.to_owned())),
        None => Some(None),
    }
}

/// The `entry` child `name` in namespace `ns` exists and carries text.
pub open spec fn field_ok(s: Seq<char>, name: Seq<char>, ns: Seq<char>) -> bool {
    entry_child_present(s, name, ns) && entry_child_text(s, name, ns) is Some
}

/// The document carries the complete notification schema: well-formed,
/// with an Atom `entry` whose `title`, `videoId` and `channelId` children
/// each carry text.
pub open spec fn schema_complete(s: Seq<char>) -> bool {
    &&& xml_wellformed(s)
    &&& entry_present(s)
    &&& field_ok(s, "title"@, BASE_NS@)
    &&& field_ok(s, "videoId"@, YT_NS@)
    &&& field_ok(s, "channelId"@, YT_NS@)
}

/// What decoding the (already trimmed) document `s` must yield: on the
/// complete schema, a `Publication` whose fields are the first texts of
/// the three entry children; otherwise the error for the first failure in
/// schema order — `entry`, `title`, `videoId`, `channelId`, each reported
/// as absent or as empty.
pub open spec fn parse_outcome_ok(s: Seq<char>, r: Result<Publication, PubError>) -> bool {
    if !xml_wellformed(s) {
        r matches Err(e) && e is InvalidXml
    } else if !entry_present(s) {
        r matches Err(e) && e matches PubError::MissingChild(n) && n@ == "entry"@
    } else if !entry_child_present(s, "title"@, BASE_NS@) {
        r matches Err(e) && e matches PubError::MissingChild(n) && n@ == "title"@
    } else if entry_child_text(s, "title"@, BASE_NS@) is None {
        r matches Err(e) && e matches PubError::MissingChildInner(n) && n@ == "title"@
    } else if !entry_child_present(s, "videoId"@, YT_NS@) {
        r matches Err(e) && e matches PubError::MissingChild(n) && n@ == "videoId"@
    } else if entry_child_text(s, "videoId"@, YT_NS@) is None {
        r matches Err(e) && e matches PubError::MissingChildInner(n) && n@ == "videoId"@
    } else if !entry_child_present(s, "channelId"@, YT_NS@) {
        r matches Err(e) && e matches PubError::MissingChild(n) && n@ == "channelId"@
    } else if entry_child_text(s, "channelId"@, YT_NS@) is None {
        r matches Err(e) && e matches PubError::MissingChildInner(n) && n@ == "channelId"@
    } else {
        r matches Ok(p) && (entry_child_text(s, "title"@, BASE_NS@) matches Some(x) && p.title@
            == x) && (entry_child_text(s, "videoId"@, YT_NS@) matches Some(x) && p.yt_id@ == x) && (
        entry_child_text(s, "channelId"@, YT_NS@) matches Some(x) && p.yt_channel@ == x)
    }
}

impl Publication {
    /// Decode a notification document. Whitespace around the document is
    /// ignored.
    ///
    /// Succeeds exactly on the complete schema, with the fields equal to
    /// the first texts of the entry's `title`, `videoId` and `channelId`
    /// children; otherwise it reports the first failure in schema order:
    /// `InvalidXml` for an unparsable document, then the first absent
    /// (`MissingChild`) or text-less (`MissingChildInner`) element among
    /// `entry`, `title`, `videoId`, `channelId`.
    pub fn parse(s: &str) -> (r: Result<Publication, PubError>)
        ensures
            parse_outcome_ok(spec_trim(s@), r),
            (r is Ok) == schema_complete(spec_trim(s@)),
    {
        let t = trim_ws(s);
        if !doc_wellformed(t) {
            return Err(PubError::InvalidXml);
        }
        if !doc_entry_present(t) {
            return Err(PubError::MissingChild("entry"));
        }
        let title = match doc_entry_child_text(t, "title", BASE_NS) {
            Some(Some(x)) => x,
            Some(None) => {
                return Err(PubError::MissingChildInner("title"));
            },
            None => {
                return Err(PubError::MissingChild("title"));
            },
        };
        let yt_id = match doc_entry_child_text(t, "videoId", YT_NS) {
            Some(Some(x)) => x,
            Some(None) => {
                return Err(PubError::MissingChildInner("videoId"));
            },
            None => {
                return Err(PubError::MissingChild("videoId"));
            },
        };
        let yt_channel = match doc_entry_child_text(t, "channelId", YT_NS) {
            Some(Some(x)) => x,
            Some(None) => {
                return Err(PubError::MissingChildInner("channelId"));
            },
            None => {
                return Err(PubError::MissingChild("channelId"));
            },
        };
        Ok(
            Publication {
                title,
                yt_id: YoutubeId::new(yt_id),
                yt_channel: YoutubeChannel::new(yt_channel),
            },
        )
    }
}

} // verus!
