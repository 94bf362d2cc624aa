use scaffold::runtime::Runtime;

#[test]
fn test_runtime_conversions() {
    let runtime = Runtime::TypeScript;
    assert_eq!(runtime.runtime_to_lowercase(), "typescript");
    assert_eq!(runtime.to_string(), "TypeScript");

    let runtime = Runtime::Python;
    assert_eq!(runtime.runtime_to_lowercase(), "python");
    assert_eq!(runtime.to_string(), "Python");
}

#[test]
fn every_runtime_has_key_and_label() {
    let cases = vec![
        (Runtime::TypeScript, "typescript", "TypeScript"),
        (Runtime::Dotnet, "dotnet", "Dotnet"),
        (Runtime::Python, "python", "Python"),
        (Runtime::Terraform, "terraform", "Terraform"),
        (Runtime::GitHub, "github", "GitHub"),
    ];
    for (runtime, key, label) in cases {
        assert_eq!(runtime.runtime_to_lowercase(), key);
        assert_eq!(runtime.to_string(), label);
    }
}
