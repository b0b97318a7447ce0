//! Recognises .NET projects and lists the places where their programs start.
//!
//! [`identify::identify_project`] takes the names of a project's files, asks
//! for the content of those that it needs, and ends with a
//! [`profile::ProjectProfile`].
pub mod identify;
pub mod laws;
pub mod outcome;
pub mod outcome_laws;
pub mod pattern;
pub mod plan;
pub mod profile;
pub mod project_file;
pub mod project_laws;
pub mod route;
pub mod scan;
pub mod scan_laws;
pub mod text;
pub mod text_laws;
