//! The closed set of target runtimes a project can be scaffolded for.
use vstd::prelude::*;
use vstd::string::StringExecFns;

verus! {

/// Target language or platform of a scaffolded project.
#[derive(Debug, Clone, Copy, PartialEq, Eq, Structural)]
pub enum Runtime {
    TypeScript,
    Dotnet,
    Python,
    Terraform,
    GitHub,
}

/// Name of the template subdirectory that holds a runtime's templates.
pub open spec fn storage_key(r: Runtime) -> Seq<char> {
    match r {
        Runtime::TypeScript => "typescript"@,
        Runtime::Dotnet => "dotnet"@,
        Runtime::Python => "python"@,
        Runtime::Terraform => "terraform"@,
        Runtime::GitHub => "github"@,
    }
}

/// Human-readable name of a runtime, as templates see it.
pub open spec fn display_label(r: Runtime) -> Seq<char> {
    match r {
        Runtime::TypeScript => "TypeScript"@,
        Runtime::Dotnet => "Dotnet"@,
        Runtime::Python => "Python"@,
        Runtime::Terraform => "Terraform"@,
        Runtime::GitHub => "GitHub"@,
    }
}

impl Runtime {
    /// The lowercase storage key of this runtime.
    pub fn runtime_to_lowercase(&self) -> (r: String)
        ensures
            r@ == storage_key(*self),
    {
        match self {
            Runtime::TypeScript => String::from_str("typescript"),
            Runtime::Dotnet => String::from_str("dotnet"),
            Runtime::Python => String::from_str("python"),
            Runtime::Terraform => String::from_str("terraform"),
            Runtime::GitHub => String::from_str("github"),
        }
    }

    /// The display label of this runtime.
    pub fn to_string(&self) -> (r: String)
        ensures
            r@ == display_label(*self),
    {
        match self {
            Runtime::TypeScript => String::from_str("TypeScript"),
            Runtime::Dotnet => String::from_str("Dotnet"),
            Runtime::Python => String::from_str("Python"),
            Runtime::Terraform => String::from_str("Terraform"),
            Runtime::GitHub => String::from_str("GitHub"),
        }
    }
}

} // verus!
