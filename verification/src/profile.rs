//! What is reported about a project.
use vstd::prelude::*;

verus! {

/// A place where a program starts or is called from outside.
#[derive(Clone, Debug, PartialEq, Eq)]
pub struct EntryPoint {
    /// Text to show.
    pub label: String,
    /// The file, relative to the project's root.
    pub path: String,
    /// Line number in the file, counted from 1.
    pub line: Option<u32>,
    /// HTTP verb or kind of entry.
    pub method: Option<String>,
    /// Name of the method or a remark.
    pub description: Option<String>,
}

/// The texts and numbers of an [`EntryPoint`].
#[verifier::ext_equal]
pub struct EntryPointView {
    pub label: Seq<char>,
    pub path: Seq<char>,
    pub line: Option<u32>,
    pub method: Option<Seq<char>>,
    pub description: Option<Seq<char>>,
}

impl View for EntryPoint {
    type V = EntryPointView;

    open spec fn view(&self) -> EntryPointView {
        EntryPointView {
            label: self.label@,
            path: self.path@,
            line: self.line,
            method: self.method.deep_view(),
            description: self.description.deep_view(),
        }
    }
}

impl DeepView for EntryPoint {
    type V = EntryPointView;

    open spec fn deep_view(&self) -> EntryPointView {
        self@
    }
}

/// What is known about a project.
#[derive(Clone, Debug, PartialEq, Eq)]
pub struct ProjectProfile {
    /// Kind of project.
    pub category: String,
    /// Platform, language and, if it was found, target framework.
    pub tags: Vec<String>,
    /// The places where the project's program starts.
    pub entry_points: Vec<EntryPoint>,
}

/// The texts of a [`ProjectProfile`].
#[verifier::ext_equal]
pub struct ProjectProfileView {
    pub category: Seq<char>,
    pub tags: Seq<Seq<char>>,
    pub entry_points: Seq<EntryPointView>,
}

impl View for ProjectProfile {
    type V = ProjectProfileView;

    open spec fn view(&self) -> ProjectProfileView {
        ProjectProfileView {
            category: self.category@,
            tags: self.tags.deep_view(),
            entry_points: self.entry_points.deep_view(),
        }
    }
}

impl DeepView for ProjectProfile {
    type V = ProjectProfileView;

    open spec fn deep_view(&self) -> ProjectProfileView {
        self@
    }
}

} // verus!
