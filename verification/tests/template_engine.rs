use stoffel::config::{
    MpcConfig, PackageConfig, StoffelConfig, ecosystem_of_choice, get_template_description,
};
use stoffel::templates::{load_template, substitute_template_vars};

fn config_with(description: Option<&str>, authors: Option<Vec<&str>>) -> StoffelConfig {
    StoffelConfig {
        package: PackageConfig {
            name: String::from("my-app"),
            version: String::from("0.1.0"),
            description: description.map(String::from),
            authors: authors.map(|a| a.into_iter().map(String::from).collect()),
            license: Some(String::from("MIT")),
        },
        mpc: MpcConfig {
            protocol: String::from("honeybadger"),
            parties: 5,
            threshold: Some(1),
            field: String::from("bls12-381"),
        },
        dependencies: None,
        dev_dependencies: None,
    }
}

#[test]
fn substitutes_every_token() {
    let config = config_with(Some("demo"), Some(vec!["Ada"]));
    let template = "{{package_name}}|{{package_version}}|{{package_description}}|{{package_authors}}|{{package_name_underscore}}|{{mpc_protocol}}|{{mpc_parties}}|{{mpc_field}}";
    let out = substitute_template_vars(template, &config);
    assert_eq!(out, "my-app|0.1.0|demo|\"Ada\"|my_app|honeybadger|5|bls12-381");
}

#[test]
fn substitutes_defaults_for_missing_fields() {
    let config = config_with(None, None);
    let out = substitute_template_vars("{{package_description}} by {{package_authors}}", &config);
    assert_eq!(out, "Stoffel MPC application by \"Unknown\"");
}

#[test]
fn joins_multiple_authors() {
    let config = config_with(None, Some(vec!["Ada", "Grace", "Edsger"]));
    let out = substitute_template_vars("{{package_authors}}", &config);
    assert_eq!(out, "\"Ada\", \"Grace\", \"Edsger\"");
}

#[test]
fn leaves_plain_text_unchanged() {
    let config = config_with(None, None);
    let out = substitute_template_vars("no tokens here", &config);
    assert_eq!(out, "no tokens here");
}

#[test]
fn repeated_tokens_are_all_replaced() {
    let config = config_with(None, None);
    let out = substitute_template_vars("{{mpc_parties}}+{{mpc_parties}}", &config);
    assert_eq!(out, "5+5");
}

#[test]
fn known_python_templates_load() {
    let body = load_template("python", "main.py").expect("registered template");
    assert!(body.contains("{{package_name_underscore}}"));
    let body = load_template("python", "pyproject.toml").expect("registered template");
    assert!(body.contains("{{package_authors}}"));
    assert!(load_template("python", "secure_computation.stfl").is_ok());
    assert!(load_template("python", "test_main.py").is_ok());
}

#[test]
fn unknown_templates_are_rejected() {
    let err = load_template("rust", "main.py").unwrap_err();
    assert_eq!(err.template, "rust");
    assert_eq!(err.file, "main.py");
    assert_eq!(err.message(), "Template file not found: rust/main.py");
    assert!(load_template("python", "setup.py").is_err());
}

#[test]
fn template_descriptions() {
    assert_eq!(
        get_template_description("python"),
        "Python SDK integration for MPC applications"
    );
    assert_eq!(get_template_description("rust"), "Rust FFI integration with StoffelVM");
    assert_eq!(get_template_description("typescript"), "TypeScript/Node.js MPC integration");
    assert_eq!(
        get_template_description("solidity"),
        "Solidity smart contract with MPC integration"
    );
    assert_eq!(get_template_description("stoffel"), "A Stoffel MPC application");
    assert_eq!(get_template_description("basic"), "A Stoffel MPC application");
}

#[test]
fn ecosystem_menu_choices() {
    assert_eq!(ecosystem_of_choice("1"), "python");
    assert_eq!(ecosystem_of_choice("2"), "rust");
    assert_eq!(ecosystem_of_choice("3"), "typescript");
    assert_eq!(ecosystem_of_choice("4"), "solidity");
    assert_eq!(ecosystem_of_choice("5"), "stoffel");
    assert_eq!(ecosystem_of_choice("anything"), "stoffel");
}
