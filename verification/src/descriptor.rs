//! Target descriptors: what a descriptor document holds, how it is read from
//! JSON, and the version gate.

use vstd::prelude::*;
use crate::json::{
    as_items, as_text, json_document, json_items, json_member, json_text, member, number_at,
    parse_json, read_number, read_text, text_at,
};

verus! {

/// Major protocol version that this library supports.
pub const MAJOR_VERSION: u64 = 1;

/// Minor protocol version that this library supports.
pub const MINOR_VERSION: u64 = 1;

/// Why a target could not be resolved.
#[derive(Clone, Copy, Debug, PartialEq, Eq, Structural)]
pub enum ResolveError {
    /// The descriptor or the reference image is malformed.
    Format,
    /// The descriptor asks for a newer major version than this library
    /// supports. Nothing can be done but to stop.
    VersionIncompatible,
}

impl ResolveError {
    /// Tells whether the error ends the whole run rather than one cycle.
    pub fn is_fatal(&self) -> (fatal: bool)
        ensures
            fatal == (*self == ResolveError::VersionIncompatible),
    {
        match self {
            ResolveError::VersionIncompatible => true,
            ResolveError::Format => false,
        }
    }
}

/// How a descriptor's version relates to the supported one.
#[derive(Clone, Copy, Debug, PartialEq, Eq, Structural)]
pub enum VersionStatus {
    /// Both numbers are supported.
    Supported,
    /// The minor version is newer: worth a notice, nothing more.
    MinorAhead,
    /// The major version is newer: the protocol is incompatible.
    Incompatible,
}

/// A target descriptor as it was supplied. Each number is held as it was
/// read, whatever its size.
#[derive(Debug)]
pub struct TargetJson {
    pub major_version: u64,
    pub minor_version: u64,
    pub x: u64,
    pub y: u64,
    pub image: String,
    pub fallbacks: Vec<String>,
}

/// The mathematical content of a descriptor.
pub struct Descriptor {
    pub major_version: u64,
    pub minor_version: u64,
    pub x: u64,
    pub y: u64,
    pub image: Seq<char>,
    pub fallbacks: Seq<Seq<char>>,
}

/// The contents of a list of strings.
pub open spec fn texts(list: Seq<String>) -> Seq<Seq<char>> {
    Seq::new(list.len(), |i: int| list[i]@)
}

impl View for TargetJson {
    type V = Descriptor;

    open spec fn view(&self) -> Descriptor {
        Descriptor {
            major_version: self.major_version,
            minor_version: self.minor_version,
            x: self.x,
            y: self.y,
            image: self.image@,
            fallbacks: texts(self.fallbacks@),
        }
    }
}

/// The descriptor that a node holds before any was fetched for it.
pub open spec fn blank_descriptor() -> Descriptor {
    Descriptor {
        major_version: MAJOR_VERSION,
        minor_version: MINOR_VERSION,
        x: 0,
        y: 0,
        image: Seq::empty(),
        fallbacks: Seq::empty(),
    }
}

/// The strings that `items` hold, provided that each of them holds one.
pub open spec fn text_list(items: Seq<serde_json::Value>) -> Option<Seq<Seq<char>>> {
    if forall|i: int| 0 <= i < items.len() ==> (#[trigger] json_text(items[i])).is_some() {
        Some(Seq::new(items.len(), |i: int| json_text(items[i]).unwrap()))
    } else {
        None
    }
}

/// The fallback references that a document names: the strings of the array
/// under `fallbacks`, or nothing where that is missing, is no array, or
/// holds anything but strings.
pub open spec fn fallbacks_at(doc: serde_json::Value) -> Option<Seq<Seq<char>>> {
    match json_member(doc, "fallbacks"@) {
        Some(member) => match json_items(member) {
            Some(items) => text_list(items),
            None => None,
        },
        None => None,
    }
}

/// How a pair of version numbers relates to the supported one.
pub open spec fn version_status(major: u64, minor: u64) -> VersionStatus {
    if major > MAJOR_VERSION {
        VersionStatus::Incompatible
    } else if minor > MINOR_VERSION {
        VersionStatus::MinorAhead
    } else {
        VersionStatus::Supported
    }
}

/// The descriptor that the members of a document make, each given as it was
/// found or as missing. `x`, `y` and `image` are required: without one of
/// them the result is a format error. The version numbers default to the
/// supported ones and the fallbacks to none. A major version above the
/// supported one, of whatever size, is a version error. Every number stands
/// in the descriptor as it was given.
pub open spec fn assemble(
    major: Option<u64>,
    minor: Option<u64>,
    x: Option<u64>,
    y: Option<u64>,
    image: Option<Seq<char>>,
    fallbacks: Option<Seq<Seq<char>>>,
) -> Result<Descriptor, ResolveError> {
    match (x, y, image) {
        (Some(x), Some(y), Some(image)) => {
            let major_version = match major {
                Some(n) => n,
                None => MAJOR_VERSION,
            };
            let minor_version = match minor {
                Some(n) => n,
                None => MINOR_VERSION,
            };
            if major_version > MAJOR_VERSION {
                Err(ResolveError::VersionIncompatible)
            } else {
                Ok(
                    Descriptor {
                        major_version,
                        minor_version,
                        x,
                        y,
                        image,
                        fallbacks: match fallbacks {
                            Some(list) => list,
                            None => Seq::empty(),
                        },
                    },
                )
            }
        },
        _ => Err(ResolveError::Format),
    }
}

/// What reading a descriptor from `bytes` gives: a format error where they
/// are no JSON, and otherwise what the members of the document make.
pub open spec fn descriptor_from(bytes: Seq<u8>) -> Result<Descriptor, ResolveError> {
    match json_document(bytes) {
        Some(doc) => assemble(
            number_at(doc, "major_version"@),
            number_at(doc, "minor_version"@),
            number_at(doc, "x"@),
            number_at(doc, "y"@),
            text_at(doc, "image"@),
            fallbacks_at(doc),
        ),
        None => Err(ResolveError::Format),
    }
}

/// The content of a string that may be missing.
pub open spec fn text_of(text: Option<String>) -> Option<Seq<char>> {
    match text {
        Some(t) => Some(t@),
        None => None,
    }
}

/// The contents of a list of strings that may be missing.
pub open spec fn list_of(list: Option<Vec<String>>) -> Option<Seq<Seq<char>>> {
    match list {
        Some(l) => Some(texts(l@)),
        None => None,
    }
}

fn read_text_list(items: &Vec<serde_json::Value>) -> (list: Option<Vec<String>>)
    ensures
        match list {
            Some(l) => text_list(items@) == Some(texts(l@)),
            None => text_list(items@).is_none(),
        },
{
    let mut list: Vec<String> = Vec::new();
    let mut i: usize = 0;
    while i < items.len()
        invariant
            0 <= i <= items.len(),
            list.len() == i,
            forall|j: int| 0 <= j < i ==> json_text(#[trigger] items@[j]) == Some(list@[j]@),
        decreases items.len() - i,
    {
        match as_text(&items[i]) {
            Some(t) => {
                list.push(t.to_owned());
            },
            None => {
                return None;
            },
        }
        i += 1;
    }
    assert(texts(list@) =~= Seq::new(items@.len(), |i: int| json_text(items@[i]).unwrap()));
    Some(list)
}

fn read_fallbacks(doc: &serde_json::Value) -> (list: Option<Vec<String>>)
    ensures
        list_of(list) == fallbacks_at(*doc),
{
    match member(doc, "fallbacks") {
        Some(m) => match as_items(m) {
            Some(items) => read_text_list(items),
            None => None,
        },
        None => None,
    }
}

/// Tells how a pair of version numbers relates to the supported one.
pub fn check_version(major: u64, minor: u64) -> (status: VersionStatus)
    ensures
        status == version_status(major, minor),
{
    if major > MAJOR_VERSION {
        VersionStatus::Incompatible
    } else if minor > MINOR_VERSION {
        VersionStatus::MinorAhead
    } else {
        VersionStatus::Supported
    }
}

/// The version gate decides on the major version as it was given: a document
/// that has its required members is refused as incompatible exactly when its
/// major version, or the supported one where it names none, lies above the
/// supported one. Otherwise the descriptor holds that version, the minor
/// version whatever it is, and the origin, image and fallbacks as they were
/// given, the fallbacks in their order.
pub proof fn lemma_version_gate(
    major: Option<u64>,
    minor: Option<u64>,
    x: u64,
    y: u64,
    image: Seq<char>,
    fallbacks: Option<Seq<Seq<char>>>,
)
    ensures
        ({
            let v = match major {
                Some(n) => n,
                None => MAJOR_VERSION,
            };
            let r = assemble(major, minor, Some(x), Some(y), Some(image), fallbacks);
            &&& r == Err::<Descriptor, ResolveError>(ResolveError::VersionIncompatible) <==> v
                > MAJOR_VERSION
            &&& v <= MAJOR_VERSION ==> {
                &&& r is Ok
                &&& r->Ok_0.major_version == v
                &&& r->Ok_0.x == x
                &&& r->Ok_0.y == y
                &&& r->Ok_0.image == image
                &&& minor matches Some(m) ==> r->Ok_0.minor_version == m
                &&& fallbacks matches Some(list) ==> r->Ok_0.fallbacks == list
            }
        }),
{
}

/// Makes a descriptor of the members of a document, each given as it was
/// found or as missing, and applies the version gate.
pub fn descriptor_from_parts(
    major: Option<u64>,
    minor: Option<u64>,
    x: Option<u64>,
    y: Option<u64>,
    image: Option<String>,
    fallbacks: Option<Vec<String>>,
) -> (r: Result<TargetJson, ResolveError>)
    ensures
        match r {
            Ok(t) => assemble(major, minor, x, y, text_of(image), list_of(fallbacks)) == Ok::<
                Descriptor,
                ResolveError,
            >(t@),
            Err(e) => assemble(major, minor, x, y, text_of(image), list_of(fallbacks)) == Err::<
                Descriptor,
                ResolveError,
            >(e),
        },
{
    match (x, y, image) {
        (Some(x), Some(y), Some(image)) => {
            let major_version: u64 = match major {
                Some(n) => n,
                None => MAJOR_VERSION,
            };
            let minor_version: u64 = match minor {
                Some(n) => n,
                None => MINOR_VERSION,
            };
            match check_version(major_version, minor_version) {
                VersionStatus::Incompatible => Err(ResolveError::VersionIncompatible),
                _ => {
                    let fallbacks = match fallbacks {
                        Some(list) => list,
                        None => {
                            let list: Vec<String> = Vec::new();
                            assert(texts(list@) =~= Seq::empty());
                            list
                        },
                    };
                    Ok(TargetJson { major_version, minor_version, x, y, image, fallbacks })
                },
            }
        },
        _ => Err(ResolveError::Format),
    }
}

/// Reads a target descriptor from the bytes of a JSON document and applies
/// the version gate.
pub fn get_target_json(body: &[u8]) -> (r: Result<TargetJson, ResolveError>)
    ensures
        match r {
            Ok(t) => descriptor_from(body@) == Ok::<Descriptor, ResolveError>(t@),
            Err(e) => descriptor_from(body@) == Err::<Descriptor, ResolveError>(e),
        },
{
    let doc = match parse_json(body) {
        Some(doc) => doc,
        None => {
            return Err(ResolveError::Format);
        },
    };
    let fallbacks = read_fallbacks(&doc);
    let major = read_number(&doc, "major_version");
    let minor = read_number(&doc, "minor_version");
    let x = read_number(&doc, "x");
    let y = read_number(&doc, "y");
    let image = read_text(&doc, "image");
    descriptor_from_parts(major, minor, x, y, image, fallbacks)
}

impl PartialEq for TargetJson {
    fn eq(&self, other: &TargetJson) -> (same: bool) {
        self.same_as(other)
    }
}

impl vstd::std_specs::cmp::PartialEqSpecImpl for TargetJson {
    open spec fn obeys_eq_spec() -> bool {
        true
    }

    open spec fn eq_spec(&self, other: &TargetJson) -> bool {
        self@ == other@
    }
}

impl TargetJson {
    /// The descriptor that a node holds before any was fetched for it.
    pub fn blank() -> (t: TargetJson)
        ensures
            t@ == blank_descriptor(),
    {
        let t = TargetJson {
            major_version: MAJOR_VERSION,
            minor_version: MINOR_VERSION,
            x: 0,
            y: 0,
            image: String::new(),
            fallbacks: Vec::new(),
        };
        assert(texts(t.fallbacks@) =~= Seq::empty());
        t
    }

    /// Structural equality of two descriptors.
    pub fn same_as(&self, other: &TargetJson) -> (same: bool)
        ensures
            same == (self@ == other@),
    {
        if self.major_version != other.major_version || self.minor_version != other.minor_version
            || self.x != other.x || self.y != other.y || self.image != other.image
            || self.fallbacks.len() != other.fallbacks.len() {
            proof {
                if self.fallbacks.len() != other.fallbacks.len() {
                    assert(texts(self.fallbacks@).len() != texts(other.fallbacks@).len());
                }
            }
            return false;
        }
        let mut i: usize = 0;
        while i < self.fallbacks.len()
            invariant
                0 <= i <= self.fallbacks.len(),
                self.fallbacks.len() == other.fallbacks.len(),
                forall|j: int| 0 <= j < i ==> self.fallbacks@[j]@ == other.fallbacks@[j]@,
            decreases self.fallbacks.len() - i,
        {
            if self.fallbacks[i] != other.fallbacks[i] {
                assert(texts(self.fallbacks@)[i as int] != texts(other.fallbacks@)[i as int]);
                return false;
            }
            i += 1;
        }
        assert(texts(self.fallbacks@) =~= texts(other.fallbacks@));
        true
    }
}

} // verus!
