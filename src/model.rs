//! The metadata that describes a mod's components, as the library holds it.
use vstd::prelude::*;

verus! {

/// One texture slot of an object: its label, its file extension and the
/// hash of the texture it replaces.
#[derive(Debug, Clone)]
pub struct TextureSlot {
    pub label: String,
    pub extension: String,
    pub hash: String,
}

/// One moddable object group.
#[derive(Debug, Clone)]
pub struct Component {
    pub component_name: Option<String>,
    pub draw_vb: String,
    pub position_vb: String,
    pub blend_vb: String,
    pub texcoord_vb: String,
    pub ib: String,
    pub object_indexes: Vec<usize>,
    pub object_classifications: Option<Vec<String>>,
    pub texture_hashes: Option<Vec<Vec<TextureSlot>>>,
}

/// The raw capture of one object: its vertex records and its index records.
#[derive(Debug, Clone)]
pub struct ObjectBuffers {
    pub vb: Vec<u8>,
    pub ib: Vec<u8>,
}

/// A file of the build's output: its path relative to the output folder and
/// its content.
#[derive(Debug, Clone)]
pub struct OutputFile {
    pub path: String,
    pub bytes: Vec<u8>,
}

/// What an output file holds.
pub open spec fn file_view(f: OutputFile) -> (Seq<char>, Seq<u8>) {
    (f.path@, f.bytes@)
}

pub open spec fn file_views(v: Seq<OutputFile>) -> Seq<(Seq<char>, Seq<u8>)> {
    v.map_values(|f: OutputFile| file_view(f))
}

/// Why a build could not be made.
#[derive(Debug, Clone, PartialEq, Eq)]
pub enum BuildError {
    /// The mod has no name.
    MissingName,
    /// The `assets` folder is missing.
    MissingAssets,
    /// The `temp` folder is missing.
    MissingTemp,
    /// Neither `hash.json` nor `hash_info.json` was found.
    HashesNotFound,
    /// `hash_info.json` has no entry for the mod's name.
    ComponentNotFound,
    /// The metadata of a component cannot describe its objects.
    MetadataMalformed,
    /// The stride is missing, unreadable, or too small for the split.
    BadStride,
    /// The captured buffers do not match the component's objects.
    SourcesMismatch,
}

} // verus!
