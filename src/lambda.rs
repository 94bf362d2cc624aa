//! Decisions of the lambda scaffolding flow: which runtimes are offered,
//! where a project goes by default, how its files are produced and what
//! follows their creation.
use vstd::prelude::*;
use vstd::string::StringExecFns;
use crate::render::{RenderedFile, join_output_path, join_path};
use crate::runtime::Runtime;

verus! {

/// How a lambda project's files come into being.
#[derive(Debug, Clone, Copy, PartialEq, Eq, Structural)]
pub enum LambdaSource {
    /// Rendered from the `lambda` template group.
    Templates,
    /// Produced by the .NET project generator.
    DotnetGenerator,
}

/// The runtimes a lambda project can be created for, in the order offered.
pub fn lambda_runtimes() -> (r: Vec<Runtime>)
    ensures
        r@ == seq![Runtime::TypeScript, Runtime::Dotnet, Runtime::Python],
{
    let mut v: Vec<Runtime> = Vec::new();
    v.push(Runtime::TypeScript);
    v.push(Runtime::Dotnet);
    v.push(Runtime::Python);
    assert(v@ =~= seq![Runtime::TypeScript, Runtime::Dotnet, Runtime::Python]);
    v
}

/// Where a lambda project named `name` is placed unless told otherwise.
pub fn default_lambda_directory(name: &str) -> (r: String)
    ensures
        r@ == "src/"@ + name@,
{
    let mut s = String::from_str("src/");
    s.append(name);
    s
}

/// How the files of a lambda project for `runtime` are produced; `None`
/// for a runtime that no lambda project exists for.
pub fn lambda_source(runtime: Runtime) -> (r: Option<LambdaSource>)
    ensures
        r == match runtime {
            Runtime::Dotnet => Some(LambdaSource::DotnetGenerator),
            Runtime::Python | Runtime::TypeScript => Some(LambdaSource::Templates),
            _ => None::<LambdaSource>,
        },
{
    match runtime {
        Runtime::Dotnet => Some(LambdaSource::DotnetGenerator),
        Runtime::Python | Runtime::TypeScript => Some(LambdaSource::Templates),
        _ => None,
    }
}

/// Whether a freshly created project for `runtime` needs its package
/// dependencies installed (`npm install` for TypeScript).
pub fn installs_dependencies(runtime: Runtime) -> (r: bool)
    ensures
        r == (runtime == Runtime::TypeScript),
{
    match runtime {
        Runtime::TypeScript => true,
        _ => false,
    }
}

/// Ignore rules written beside a generated .NET project.
pub open spec fn dotnet_gitignore_text() -> Seq<char> {
    "bin/\nobj/\n.vs/\n*.user\n*.userosscache\n*.suo\n.vscode/\n.idea/\n*.swp\n*.*~\nproject.lock.json\n.DS_Store\n*.pyc\n"@
}

/// The `.gitignore` file of a .NET project in directory `project_dir`.
pub fn dotnet_gitignore(project_dir: &str) -> (r: RenderedFile)
    ensures
        r.path@ == join_path(project_dir@, ".gitignore"@),
        r.content@ == dotnet_gitignore_text(),
{
    RenderedFile {
        path: join_output_path(project_dir, ".gitignore"),
        content: String::from_str(
            "bin/\nobj/\n.vs/\n*.user\n*.userosscache\n*.suo\n.vscode/\n.idea/\n*.swp\n*.*~\nproject.lock.json\n.DS_Store\n*.pyc\n",
        ),
    }
}

} // verus!
