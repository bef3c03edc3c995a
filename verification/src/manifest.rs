//! The manifest-facing data model: the declared API surface of one addon —
//! up to eight lists of message declarations, each carrying an optional
//! property shape and, for commands, an optional result shape.

use vstd::prelude::*;

use crate::attr::{props_view, AttrV, PropertyAttribute};

verus! {

/// The four message kinds.
#[derive(Clone, Copy, PartialEq, Eq, Structural, Debug)]
pub enum MsgType {
    Cmd,
    Data,
    AudioFrame,
    VideoFrame,
}

/// Producer or consumer role of a declared message.
#[derive(Clone, Copy, PartialEq, Eq, Structural, Debug)]
pub enum MsgDirection {
    In,
    Out,
}

/// A declared property shape: named attributes and the list of names that
/// must be present.
pub struct ManifestApiProperty {
    pub properties: Option<Vec<(String, PropertyAttribute)>>,
    pub required: Option<Vec<String>>,
}

/// Model of a property shape.
#[verifier::ext_equal]
pub ghost struct PropertyV {
    pub properties: Option<Seq<(Seq<char>, AttrV)>>,
    pub required: Option<Seq<Seq<char>>>,
}

impl DeepView for ManifestApiProperty {
    type V = PropertyV;

    open spec fn deep_view(&self) -> PropertyV {
        PropertyV {
            properties: match self.properties {
                Option::Some(m) => Option::Some(props_view(m@)),
                Option::None => Option::None,
            },
            required: match self.required {
                Option::Some(r) => Option::Some(r.deep_view()),
                Option::None => Option::None,
            },
        }
    }
}

impl ManifestApiProperty {
    pub fn new() -> (r: ManifestApiProperty)
        ensures
            r.properties is None,
            r.required is None,
    {
        ManifestApiProperty { properties: Option::None, required: Option::None }
    }
}

/// Structure-preserving copy of a property shape.
pub fn property_deep_clone(p: &ManifestApiProperty) -> (r: ManifestApiProperty)
    ensures
        r.deep_view() == p.deep_view(),
{
    ManifestApiProperty {
        properties: match &p.properties {
            Option::Some(m) => Option::Some(crate::attr::props_deep_clone(m)),
            Option::None => Option::None,
        },
        required: match &p.required {
            Option::Some(rq) => Option::Some(crate::attr::strings_clone(rq)),
            Option::None => Option::None,
        },
    }
}

/// A command's declared reply shape.
pub struct ManifestApiCmdResult {
    pub property: Option<ManifestApiProperty>,
}

/// Structure-preserving copy of a reply shape.
pub fn cmd_result_deep_clone(r0: &ManifestApiCmdResult) -> (r: ManifestApiCmdResult)
    ensures
        r.deep_view() == r0.deep_view(),
{
    ManifestApiCmdResult {
        property: match &r0.property {
            Option::Some(p) => Option::Some(property_deep_clone(p)),
            Option::None => Option::None,
        },
    }
}

#[verifier::ext_equal]
pub ghost struct CmdResultV {
    pub property: Option<PropertyV>,
}

impl DeepView for ManifestApiCmdResult {
    type V = CmdResultV;

    open spec fn deep_view(&self) -> CmdResultV {
        CmdResultV {
            property: match self.property {
                Option::Some(p) => Option::Some(p.deep_view()),
                Option::None => Option::None,
            },
        }
    }
}

/// One declared message: its name, its payload shape, and — for commands —
/// its reply shape.
pub struct ManifestApiMsg {
    pub name: String,
    pub property: Option<ManifestApiProperty>,
    pub result: Option<ManifestApiCmdResult>,
}

#[verifier::ext_equal]
pub ghost struct MsgV {
    pub name: Seq<char>,
    pub property: Option<PropertyV>,
    pub result: Option<CmdResultV>,
}

impl DeepView for ManifestApiMsg {
    type V = MsgV;

    open spec fn deep_view(&self) -> MsgV {
        MsgV {
            name: self.name@,
            property: match self.property {
                Option::Some(p) => Option::Some(p.deep_view()),
                Option::None => Option::None,
            },
            result: match self.result {
                Option::Some(r) => Option::Some(r.deep_view()),
                Option::None => Option::None,
            },
        }
    }
}

/// The whole declared API of one addon.
pub struct ManifestApi {
    pub property: Option<ManifestApiProperty>,
    pub cmd_in: Option<Vec<ManifestApiMsg>>,
    pub cmd_out: Option<Vec<ManifestApiMsg>>,
    pub data_in: Option<Vec<ManifestApiMsg>>,
    pub data_out: Option<Vec<ManifestApiMsg>>,
    pub audio_frame_in: Option<Vec<ManifestApiMsg>>,
    pub audio_frame_out: Option<Vec<ManifestApiMsg>>,
    pub video_frame_in: Option<Vec<ManifestApiMsg>>,
    pub video_frame_out: Option<Vec<ManifestApiMsg>>,
}

/// What this library reads from an addon's manifest: its name, its version,
/// and its declared API.
pub struct Manifest {
    pub name: String,
    pub version: String,
    pub api: Option<ManifestApi>,
}

} // verus!
