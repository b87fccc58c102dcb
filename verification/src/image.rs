//! The container image of the store: how it is run and how a run describes it.

use crate::json::{json_of, null_value, object_value, text_value, Json, Members};
use crate::text::{from_utf8_lossy, optional_text, trimmed, utf8_lossy};
use vstd::prelude::*;

verus! {

/// The name of the image.
pub const NAME: &'static str = "boomerang";

/// The tag of the image.
pub const TAG: &'static str = "local";

/// The port of the container on which the store serves gRPC without TLS.
pub const BOOMERANG_PORT: u16 = 50051;

/// What the container prints when the store is up.
pub const READY_MESSAGE: &'static str = "Boomerang started";

/// Where the container keeps its data.
pub const DATA_PATH: &'static str = "/data";

/// A mount of the container.
#[derive(Debug, Clone, PartialEq, Eq)]
pub enum Mount {
    /// A directory of the host.
    Bind { source: String, target: String },
    /// A volume, without a name where the name is empty.
    Volume { name: String, target: String },
}

/// What a [`Mount`] holds.
pub enum MountModel {
    Bind { source: Seq<char>, target: Seq<char> },
    Volume { name: Seq<char>, target: Seq<char> },
}

impl View for Mount {
    type V = MountModel;

    open spec fn view(&self) -> MountModel {
        match self {
            Mount::Bind { source, target } => MountModel::Bind { source: source@, target: target@ },
            Mount::Volume { name, target } => MountModel::Volume { name: name@, target: target@ },
        }
    }
}

/// The image, with the environment and the mounts of a run.
#[derive(Debug, Clone, PartialEq, Eq)]
pub struct Boomerang {
    pub env_vars: Vec<(&'static str, String)>,
    pub mounts: Vec<Mount>,
}

/// What a [`Boomerang`] holds.
pub struct ImageModel {
    pub env_vars: Seq<(Seq<char>, Seq<char>)>,
    pub mounts: Seq<MountModel>,
}

impl View for Boomerang {
    type V = ImageModel;

    open spec fn view(&self) -> ImageModel {
        ImageModel {
            env_vars: self.env_vars@.map_values(|var: (&'static str, String)| (var.0@, var.1@)),
            mounts: self.mounts@.map_values(|mount: Mount| mount@),
        }
    }
}

/// The size of a segment that was asked for: an empty setting asks for none.
pub open spec fn segment_override(setting: Option<Seq<char>>) -> Option<Seq<char>> {
    match setting {
        Some(bytes) => if bytes.len() > 0 {
            Some(bytes)
        } else {
            None
        },
        None => None,
    }
}

/// The environment and the mounts of a run.
pub open spec fn image_model(
    data_dir: Option<Seq<char>>,
    durability: Seq<char>,
    segment_setting: Option<Seq<char>>,
) -> ImageModel {
    let fixed = seq![
        ("BOOMERANG_DATA_DIR"@, DATA_PATH@),
        ("BOOMERANG_DURABILITY"@, durability),
        ("GRPC_PORT"@, "50051"@),
    ];
    ImageModel {
        env_vars: match segment_override(segment_setting) {
            Some(bytes) => fixed.push(("BOOMERANG_SEGMENT_MAX_BYTES"@, bytes)),
            None => fixed,
        },
        mounts: seq![
            match data_dir {
                Some(source) => MountModel::Bind { source, target: DATA_PATH@ },
                None => MountModel::Volume { name: ""@, target: DATA_PATH@ },
            },
        ],
    }
}

/// A text, or null.
pub open spec fn text_or_null(text: Option<Seq<char>>) -> Json {
    match text {
        Some(text) => Json::Text(text),
        None => Json::Null,
    }
}

/// The image with its tag.
pub open spec fn image_name() -> Seq<char> {
    NAME@ + ":"@ + TAG@
}

/// How a run describes the image.
pub open spec fn description(
    durability: Seq<char>,
    git_sha: Option<Seq<char>>,
    segment_setting: Option<Seq<char>>,
) -> Members {
    Members::empty().insert("image"@, Json::Text(image_name())).insert(
        "durability"@,
        Json::Text(durability),
    ).insert("git_sha"@, text_or_null(git_sha)).insert(
        "segment_max_bytes"@,
        text_or_null(segment_override(segment_setting)),
    )
}

/// The commit that a label names: none where the label is missing or empty.
pub open spec fn labelled_sha(label: Seq<char>) -> Option<Seq<char>> {
    let sha = trimmed(label);
    if sha.len() == 0 || sha == "<no value>"@ {
        None
    } else {
        Some(sha)
    }
}

/// The size of a segment that was asked for, given the setting `BOOMERANG_SEGMENT_MAX_BYTES`.
/// Without it the image keeps its own.
pub fn segment_max_bytes_override(setting: Option<String>) -> (bytes: Option<String>)
    ensures
        optional_text(bytes) == segment_override(optional_text(setting)),
{
    match setting {
        Some(bytes) => if bytes.as_str().is_empty() {
            None
        } else {
            Some(bytes)
        },
        None => None,
    }
}

/// The image with its tag.
pub fn image_reference() -> (name: String)
    ensures
        name@ == image_name(),
{
    NAME.to_string().concat(":").concat(TAG)
}

/// The commit in the text of the image's label `git.sha`.
pub fn git_sha_in(label: &str) -> (sha: Option<String>)
    ensures
        optional_text(sha) == labelled_sha(label@),
{
    let sha = label.trim().to_string();
    if sha.as_str().is_empty() || sha == "<no value>".to_string() {
        None
    } else {
        Some(sha)
    }
}

/// The commit that the image was built from, given how the command that prints its label ended
/// and what it printed.
pub fn image_git_sha(success: bool, stdout: &[u8]) -> (sha: Option<String>)
    ensures
        optional_text(sha) == (if success {
            labelled_sha(utf8_lossy(stdout@))
        } else {
            None
        }),
        success && vstd::utf8::valid_utf8(stdout@) ==> optional_text(sha) == labelled_sha(
            vstd::utf8::decode_utf8(stdout@),
        ),
{
    if !success {
        return None;
    }
    git_sha_in(from_utf8_lossy(stdout).as_str())
}

/// A text, or null.
fn text_or_null_value(text: Option<String>) -> (value: serde_json::Value)
    ensures
        json_of(value) == text_or_null(optional_text(text)),
{
    match text {
        Some(text) => text_value(text),
        None => null_value(),
    }
}

impl Boomerang {
    /// The image as it runs on a directory of the host, or on a volume of its own.
    pub fn new(
        data_dir: Option<String>,
        durability: &str,
        segment_setting: Option<String>,
    ) -> (image: Self)
        ensures
            image@ == image_model(
                optional_text(data_dir),
                durability@,
                optional_text(segment_setting),
            ),
    {
        let ghost asked = (optional_text(data_dir), optional_text(segment_setting));
        let mount = match data_dir {
            Some(source) => Mount::Bind { source, target: DATA_PATH.to_string() },
            None => Mount::Volume { name: "".to_string(), target: DATA_PATH.to_string() },
        };
        let mut env_vars: Vec<(&'static str, String)> = Vec::new();
        env_vars.push(("BOOMERANG_DATA_DIR", DATA_PATH.to_string()));
        env_vars.push(("BOOMERANG_DURABILITY", durability.to_string()));
        env_vars.push(("GRPC_PORT", "50051".to_string()));
        if let Some(bytes) = segment_max_bytes_override(segment_setting) {
            env_vars.push(("BOOMERANG_SEGMENT_MAX_BYTES", bytes));
        }
        let mut mounts: Vec<Mount> = Vec::new();
        mounts.push(mount);
        let image = Boomerang { env_vars, mounts };
        proof {
            let model = image_model(asked.0, durability@, asked.1);
            assert(image@.env_vars =~= model.env_vars);
            assert(image@.mounts =~= model.mounts);
        }
        image
    }

    /// How a run records the image.
    pub fn describe(
        durability: &str,
        git_sha: Option<String>,
        segment_setting: Option<String>,
    ) -> (described: serde_json::Value)
        ensures
            json_of(described) == Json::Object(
                description(durability@, optional_text(git_sha), optional_text(segment_setting)),
            ),
    {
        let mut members = serde_json::Map::new();
        members.insert("image".to_string(), text_value(image_reference()));
        members.insert("durability".to_string(), text_value(durability.to_string()));
        members.insert("git_sha".to_string(), text_or_null_value(git_sha));
        members.insert(
            "segment_max_bytes".to_string(),
            text_or_null_value(segment_max_bytes_override(segment_setting)),
        );
        object_value(members)
    }

    /// The name of the image.
    pub fn name(&self) -> (name: &'static str)
        ensures
            name@ == NAME@,
    {
        NAME
    }

    /// The tag of the image.
    pub fn tag(&self) -> (tag: &'static str)
        ensures
            tag@ == TAG@,
    {
        TAG
    }

    /// What the container prints when the store is up.
    pub fn ready_conditions(&self) -> (message: &'static str)
        ensures
            message@ == READY_MESSAGE@,
    {
        READY_MESSAGE
    }

    /// The ports that the container opens.
    pub fn expose_ports(&self) -> (ports: Vec<u16>)
        ensures
            ports@ == seq![BOOMERANG_PORT],
    {
        vec![BOOMERANG_PORT]
    }
}

} // verus!
