//! Failures of catalog resolution and rendering.
use vstd::prelude::*;

verus! {

/// Why resolving or rendering a template group failed.
#[derive(Debug, Clone)]
pub enum ScaffoldError {
    /// No template group is packaged for the requested context and runtime;
    /// carries the group's directory.
    CatalogNotFound(String),
    /// A template's path has no usable file name; carries the path.
    InvalidTemplateName(String),
    /// The output directory could not be created; carries the directory.
    DirectoryCreationFailed(String),
    /// A template refers to a variable the render context does not supply;
    /// carries the variable's name where the engine reports it.
    UndefinedVariable(Option<String>),
    /// A template uses more than plain variable tags; carries the name of
    /// the file it renders to.
    UnsupportedTemplate(String),
    /// The engine rejected a template for another reason; carries its message.
    RenderFailed(String),
    /// Writing a rendered file failed; carries the file's path.
    WriteFailed(String),
}

} // verus!
