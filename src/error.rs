//! Why a document could not be compiled.
use vstd::prelude::*;

verus! {

/// The reason a document was rejected. Every failure rejects the whole
/// document: there is no partial result.
#[derive(Debug)]
pub enum LoadError {
    /// The level has no "Ground" layer.
    MissingRequiredLayer { level: String },
    /// The level's "Ground" layer refers to no tileset, or to an id that no
    /// tileset definition has.
    UnknownTileset { level: String, tileset: Option<usize> },
    /// An item of the level cannot be mapped to a cell of its grid. `subject`
    /// is the entity's name, or the name of the layer whose tile or value
    /// entry is out of place.
    InvalidPosition { level: String, subject: String },
    /// The level's grid has more cells than a `usize` can count.
    GridTooLarge { level: String },
    /// The level's "Ground" layer has cells of zero pixels.
    ZeroCellSize { level: String },
    /// A second level of the document has this name.
    DuplicateLevelName { level: String },
    /// The document itself could not be read into its schema.
    MalformedDocument { detail: String },
}

/// A `LoadError` with its strings as character sequences.
pub enum LoadErrorView {
    MissingRequiredLayer(Seq<char>),
    UnknownTileset(Seq<char>, Option<usize>),
    InvalidPosition(Seq<char>, Seq<char>),
    GridTooLarge(Seq<char>),
    ZeroCellSize(Seq<char>),
    DuplicateLevelName(Seq<char>),
    MalformedDocument(Seq<char>),
}

impl View for LoadError {
    type V = LoadErrorView;

    open spec fn view(&self) -> LoadErrorView {
        match self {
            LoadError::MissingRequiredLayer { level } => LoadErrorView::MissingRequiredLayer(level@),
            LoadError::UnknownTileset { level, tileset } => LoadErrorView::UnknownTileset(
                level@,
                *tileset,
            ),
            LoadError::InvalidPosition { level, subject } => LoadErrorView::InvalidPosition(
                level@,
                subject@,
            ),
            LoadError::GridTooLarge { level } => LoadErrorView::GridTooLarge(level@),
            LoadError::ZeroCellSize { level } => LoadErrorView::ZeroCellSize(level@),
            LoadError::DuplicateLevelName { level } => LoadErrorView::DuplicateLevelName(level@),
            LoadError::MalformedDocument { detail } => LoadErrorView::MalformedDocument(detail@),
        }
    }
}

/// The sentence that describes a failure.
pub open spec fn describe(e: LoadErrorView) -> Seq<char> {
    match e {
        LoadErrorView::MissingRequiredLayer(level) => "level has no Ground layer: "@ + level,
        LoadErrorView::UnknownTileset(level, _) => "Ground layer refers to an unknown tileset in level: "@
            + level,
        LoadErrorView::InvalidPosition(level, subject) => "position outside the grid of level "@
            + level + ": "@ + subject,
        LoadErrorView::GridTooLarge(level) => "grid too large in level: "@ + level,
        LoadErrorView::ZeroCellSize(level) => "cell size of zero pixels in level: "@ + level,
        LoadErrorView::DuplicateLevelName(level) => "level name used twice: "@ + level,
        LoadErrorView::MalformedDocument(detail) => "malformed document: "@ + detail,
    }
}

impl LoadError {
    /// A sentence that describes the failure.
    pub fn message(&self) -> (r: String)
        ensures
            r@ == describe(self@),
    {
        let mut m = String::new();
        match self {
            LoadError::MissingRequiredLayer { level } => {
                m.append("level has no Ground layer: ");
                m.append(level.as_str());
            },
            LoadError::UnknownTileset { level, tileset: _ } => {
                m.append("Ground layer refers to an unknown tileset in level: ");
                m.append(level.as_str());
            },
            LoadError::InvalidPosition { level, subject } => {
                m.append("position outside the grid of level ");
                m.append(level.as_str());
                m.append(": ");
                m.append(subject.as_str());
            },
            LoadError::GridTooLarge { level } => {
                m.append("grid too large in level: ");
                m.append(level.as_str());
            },
            LoadError::ZeroCellSize { level } => {
                m.append("cell size of zero pixels in level: ");
                m.append(level.as_str());
            },
            LoadError::DuplicateLevelName { level } => {
                m.append("level name used twice: ");
                m.append(level.as_str());
            },
            LoadError::MalformedDocument { detail } => {
                m.append("malformed document: ");
                m.append(detail.as_str());
            },
        }
        m
    }
}

} // verus!
