use scaffold::catalog::{load_templates, TemplateEntry, TemplateStore};
use scaffold::error::ScaffoldError;
use scaffold::lambda::{
    default_lambda_directory, dotnet_gitignore, installs_dependencies, lambda_runtimes,
    lambda_source, LambdaSource,
};
use scaffold::render::{
    join_output_path, plan_project_files, render_entries, render_entry, rendered_file,
    RenderContext,
};
use scaffold::runtime::Runtime;
use scaffold::template::is_plain_template;

fn store_of(files: &[(&str, &str)]) -> TemplateStore {
    let mut store = TemplateStore::new();
    for (path, body) in files {
        assert!(store.insert(path.to_string(), body.to_string()));
    }
    store
}

fn entry(name: &str, body: &str) -> TemplateEntry {
    TemplateEntry { key: name.to_string(), output_name: name.to_string(), body: body.to_string() }
}

#[test]
fn context_carries_name_and_label() {
    let ctx = RenderContext::new("orders-svc", Runtime::Python);
    assert_eq!(ctx.project_name, "orders-svc");
    assert_eq!(ctx.runtime_label, "Python");
    let vars = ctx.variables();
    assert_eq!(
        vars,
        vec![
            ("project_name".to_string(), "orders-svc".to_string()),
            ("runtime".to_string(), "Python".to_string())
        ]
    );
}

#[test]
fn render_substitutes_placeholders() {
    let ctx = RenderContext::new("orders-svc", Runtime::Python);
    let out = render_entry(&entry("a", "name={{project_name}} rt={{runtime}}"), &ctx).unwrap();
    assert_eq!(out, "name=orders-svc rt=Python");
}

#[test]
fn rendered_output_has_no_placeholders_left() {
    let ctx = RenderContext::new("net-mod", Runtime::Terraform);
    let body = "{{project_name}}{{runtime}} and {{project_name}}";
    let out = render_entry(&entry("a", body), &ctx).unwrap();
    assert!(!out.contains("{{"));
    assert!(!out.contains("}}"));
    assert_eq!(out, "net-modTerraform and net-mod");
}

#[test]
fn rendering_twice_gives_identical_files() {
    let ctx = RenderContext::new("svc", Runtime::TypeScript);
    let entries = vec![entry("a.ts", "{{project_name}}"), entry("b.ts", "{{runtime}}!")];
    let first = render_entries(&entries, &ctx, "out").unwrap();
    let second = render_entries(&entries, &ctx, "out").unwrap();
    assert_eq!(first.len(), second.len());
    for (x, y) in first.iter().zip(second.iter()) {
        assert_eq!(x.path, y.path);
        assert_eq!(x.content.as_bytes(), y.content.as_bytes());
    }
}

#[test]
fn undefined_variable_fails_render() {
    let ctx = RenderContext::new("svc", Runtime::Python);
    let entries = vec![entry("ok.txt", "{{project_name}}"), entry("bad.txt", "{{bucket_name}}")];
    match render_entries(&entries, &ctx, "out") {
        Err(ScaffoldError::UndefinedVariable(v)) => assert_eq!(v, Some("bucket_name".to_string())),
        other => panic!("unexpected {:?}", other),
    }
}

#[test]
fn block_template_is_unsupported() {
    let ctx = RenderContext::new("svc", Runtime::Python);
    match render_entry(&entry("a.txt", "{{#if project_name}}unclosed"), &ctx) {
        Err(ScaffoldError::UnsupportedTemplate(name)) => assert_eq!(name, "a.txt"),
        other => panic!("unexpected {:?}", other),
    }
}

#[test]
fn self_including_partial_is_refused() {
    let ctx = RenderContext::new("svc", Runtime::Python);
    let body = "{{#*inline \"a\"}}{{> a}}{{/inline}}{{> a}}";
    let r = render_entry(&entry("loop.txt", body), &ctx);
    assert!(matches!(r, Err(ScaffoldError::UnsupportedTemplate(_))));
}

#[test]
fn spaced_tag_is_unsupported() {
    let ctx = RenderContext::new("svc", Runtime::Python);
    let r = render_entry(&entry("a", "{{ project_name }}"), &ctx);
    assert!(matches!(r, Err(ScaffoldError::UnsupportedTemplate(_))));
}

#[test]
fn helper_without_arguments_fails_render() {
    let ctx = RenderContext::new("svc", Runtime::Python);
    let r = render_entry(&entry("a", "{{lookup}}"), &ctx);
    assert!(matches!(r, Err(ScaffoldError::RenderFailed(_))));
}

#[test]
fn plain_template_recognition() {
    assert!(is_plain_template(""));
    assert!(is_plain_template("text { } }} only"));
    assert!(is_plain_template("a {{project_name}} b {{runtime}}"));
    assert!(!is_plain_template("{{> a}}"));
    assert!(!is_plain_template("{{{project_name}}}"));
    assert!(!is_plain_template("{{}}"));
    assert!(!is_plain_template("{{project_name}"));
    assert!(!is_plain_template("{{!-- note --}}"));
}

#[test]
fn join_output_path_adds_one_separator() {
    assert_eq!(join_output_path("out", "a.txt"), "out/a.txt");
    assert_eq!(join_output_path("out/", "a.txt"), "out/a.txt");
    assert_eq!(join_output_path("", "a.txt"), "a.txt");
}

#[test]
fn rendered_file_places_content() {
    let f = rendered_file(&entry("main.tf", "x"), "net-mod", "rendered".to_string());
    assert_eq!(f.path, "net-mod/main.tf");
    assert_eq!(f.content, "rendered");
}

#[test]
fn python_lambda_scenario() {
    let store = store_of(&[
        ("lambda_templates/python/handler.py", "# {{project_name}} on {{runtime}}"),
        ("lambda_templates/python/README.md", "{{project_name}}"),
        ("lambda_templates/typescript/index.ts", "{{project_name}}"),
    ]);
    let dir = default_lambda_directory("orders-svc");
    assert_eq!(dir, "src/orders-svc");
    let files = plan_project_files(&store, "orders-svc", Runtime::Python, "lambda", &dir).unwrap();
    assert_eq!(files.len(), 2);
    assert_eq!(files[0].path, "src/orders-svc/handler.py");
    assert_eq!(files[0].content, "# orders-svc on Python");
    assert_eq!(files[1].path, "src/orders-svc/README.md");
    assert_eq!(files[1].content, "orders-svc");
}

#[test]
fn terraform_module_scenario() {
    let store = store_of(&[
        ("terraform_module_templates/terraform/main.tf", "module \"{{project_name}}\" {}"),
        ("terraform_module_templates/terraform/variables.tf", "# {{runtime}}"),
    ]);
    let files =
        plan_project_files(&store, "net-mod", Runtime::Terraform, "terraform_module", "net-mod")
            .unwrap();
    assert_eq!(files.len(), 2);
    assert_eq!(files[0].path, "net-mod/main.tf");
    assert_eq!(files[0].content, "module \"net-mod\" {}");
    assert_eq!(files[1].path, "net-mod/variables.tf");
    assert_eq!(files[1].content, "# Terraform");
}

#[test]
fn plan_reports_missing_group_before_rendering() {
    let store = store_of(&[("lambda_templates/python/a.py", "{{bucket_name}}")]);
    let r = plan_project_files(&store, "x", Runtime::Dotnet, "lambda", "out");
    assert!(matches!(r, Err(ScaffoldError::CatalogNotFound(_))));
}

#[test]
fn plan_reports_undefined_variable() {
    let store = store_of(&[("lambda_templates/python/a.py", "{{bucket_name}}")]);
    let r = plan_project_files(&store, "x", Runtime::Python, "lambda", "out");
    assert!(matches!(r, Err(ScaffoldError::UndefinedVariable(_))));
    let r = load_templates(&store, Runtime::Python, "lambda");
    assert!(r.is_ok());
}

#[test]
fn lambda_decisions() {
    assert_eq!(lambda_runtimes(), vec![Runtime::TypeScript, Runtime::Dotnet, Runtime::Python]);
    assert_eq!(lambda_source(Runtime::Dotnet), Some(LambdaSource::DotnetGenerator));
    assert_eq!(lambda_source(Runtime::Python), Some(LambdaSource::Templates));
    assert_eq!(lambda_source(Runtime::TypeScript), Some(LambdaSource::Templates));
    assert_eq!(lambda_source(Runtime::Terraform), None);
    assert!(installs_dependencies(Runtime::TypeScript));
    assert!(!installs_dependencies(Runtime::Python));
}

#[test]
fn dotnet_gitignore_file() {
    let f = dotnet_gitignore("orders");
    assert_eq!(f.path, "orders/.gitignore");
    assert!(f.content.starts_with("bin/\nobj/\n"));
    assert!(f.content.ends_with("*.pyc\n"));
}
