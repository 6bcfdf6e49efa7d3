use stoffel::config::{InitOptions, InteractiveAnswers};
use stoffel::manifest::parse_manifest;
use stoffel::scaffold::{InitError, initialize_project};
use stoffel::validate::ValidationError;

fn options(
    name: Option<&str>,
    lib: bool,
    path: Option<&str>,
    interactive: bool,
    template: Option<&str>,
) -> InitOptions {
    InitOptions {
        name: name.map(String::from),
        lib,
        path: path.map(String::from),
        interactive,
        template: template.map(String::from),
    }
}

#[test]
fn default_init_in_directory_foo() {
    let plan = initialize_project(
        options(None, false, None, false, None),
        "/work/foo",
        Some(String::from("Ada")),
        None,
    )
    .expect("default initialization succeeds");
    assert_eq!(plan.root, "/work/foo");

    let paths: Vec<&str> = plan.files.iter().map(|f| f.path.as_str()).collect();
    assert_eq!(paths, vec!["Stoffel.toml", "src/main.stfl", "tests/integration.stfl", "README.md"]);

    let manifest = &plan.files[0].content;
    let config = parse_manifest(manifest.as_str()).expect("manifest parses back");
    assert_eq!(config.package.name, "foo");
    assert_eq!(config.package.version, "0.1.0");
    assert_eq!(config.package.authors, Some(vec![String::from("Ada")]));
    assert_eq!(config.mpc.protocol, "honeybadger");
    assert_eq!(config.mpc.parties, 5);
    assert_eq!(config.mpc.threshold, Some(1));
    assert_eq!(config.mpc.field, "bls12-381");
}

#[test]
fn explicit_name_creates_subdirectory() {
    let plan = initialize_project(
        options(Some("my-proj"), false, Some("/tmp/base"), false, None),
        "/ignored",
        None,
        None,
    )
    .expect("initialization succeeds");
    assert_eq!(plan.root, "/tmp/base/my-proj");
    let config = parse_manifest(plan.files[0].content.as_str()).unwrap();
    assert_eq!(config.package.name, "my-proj");
    assert_eq!(config.package.authors, Some(vec![String::from("Unknown")]));
}

#[test]
fn library_init_writes_library_files() {
    let plan = initialize_project(
        options(Some("mylib"), true, None, false, None),
        "/work",
        None,
        None,
    )
    .expect("library initialization succeeds");
    let paths: Vec<&str> = plan.files.iter().map(|f| f.path.as_str()).collect();
    assert_eq!(paths, vec!["Stoffel.toml", "src/lib.stfl", "README.md"]);
    assert!(plan.files[1].content.contains("secure_add"));
    assert!(plan.files[2].content.contains("# mylib"));
    assert!(plan.files[2].content.contains("stoffel add mylib"));
}

#[test]
fn python_template_init_substitutes_config() {
    let plan = initialize_project(
        options(Some("py-app"), false, None, false, Some("python")),
        "/work",
        Some(String::from("Ada")),
        None,
    )
    .expect("python initialization succeeds");
    let paths: Vec<&str> = plan.files.iter().map(|f| f.path.as_str()).collect();
    assert_eq!(
        paths,
        vec![
            "Stoffel.toml",
            "pyproject.toml",
            "src/main.py",
            "src/secure_computation.stfl",
            "tests/test_main.py",
            "README.md"
        ]
    );
    let pyproject = &plan.files[1].content;
    assert!(pyproject.contains("name = \"py-app\""));
    assert!(pyproject.contains("authors = [\"Ada\"]"));
    assert!(!pyproject.contains("{{"));
    let main_py = &plan.files[2].content;
    assert!(main_py.contains("\"client_id\": \"py_app\""));
    assert!(main_py.contains("\"parties\": 5"));
    let config = parse_manifest(plan.files[0].content.as_str()).unwrap();
    assert_eq!(
        config.package.description,
        Some(String::from("Python SDK integration for MPC applications"))
    );
}

#[test]
fn rust_template_init_bakes_parameters() {
    let plan = initialize_project(
        options(Some("rs-app"), false, None, false, Some("rust")),
        "/work",
        None,
        None,
    )
    .expect("rust initialization succeeds");
    let paths: Vec<&str> = plan.files.iter().map(|f| f.path.as_str()).collect();
    assert_eq!(paths, vec!["Stoffel.toml", "Cargo.toml", "src/main.rs", "README.md"]);
    let cargo = &plan.files[1].content;
    assert!(cargo.contains("name = \"rs-app\""));
    assert!(cargo.contains("version = \"0.1.0\""));
    let readme = &plan.files[3].content;
    assert!(readme.contains("- **Parties**: 5 (minimum 5 for HoneyBadger)"));
    assert!(readme.contains("**rust** ecosystem"));
}

#[test]
fn typescript_and_solidity_file_sets() {
    let ts = initialize_project(
        options(Some("ts-app"), false, None, false, Some("typescript")),
        "/w",
        None,
        None,
    )
    .unwrap();
    let ts_paths: Vec<&str> = ts.files.iter().map(|f| f.path.as_str()).collect();
    assert_eq!(
        ts_paths,
        vec!["Stoffel.toml", "package.json", "tsconfig.json", "src/main.ts", "README.md"]
    );
    assert!(ts.files[3].content.contains("clientId: \"ts_app\""));

    let sol = initialize_project(
        options(Some("sol-app"), false, None, false, Some("solidity")),
        "/w",
        None,
        None,
    )
    .unwrap();
    let sol_paths: Vec<&str> = sol.files.iter().map(|f| f.path.as_str()).collect();
    assert_eq!(
        sol_paths,
        vec![
            "Stoffel.toml",
            "hardhat.config.js",
            "package.json",
            "contracts/StoffelMPC.sol",
            "scripts/deploy.js",
            "README.md"
        ]
    );
    let contract = &sol.files[3].content;
    assert!(contract.contains("parties: 5"));
    assert!(contract.contains("threshold: 1"));
}

#[test]
fn unknown_template_falls_back_to_stoffel_files() {
    let plan = initialize_project(
        options(Some("x"), false, None, false, Some("basic")),
        "/w",
        None,
        None,
    )
    .unwrap();
    let paths: Vec<&str> = plan.files.iter().map(|f| f.path.as_str()).collect();
    assert_eq!(paths, vec!["Stoffel.toml", "src/main.stfl", "tests/integration.stfl", "README.md"]);
}

#[test]
fn trailing_separators_are_ignored_for_the_name() {
    let plan =
        initialize_project(options(None, false, None, false, None), "/work/foo/", None, None)
            .expect("trailing separator is ignored");
    let config = parse_manifest(plan.files[0].content.as_str()).unwrap();
    assert_eq!(config.package.name, "foo");
}

#[test]
fn name_missing_when_path_gives_none() {
    let r = initialize_project(options(None, false, None, false, None), "/", None, None);
    assert_eq!(r.unwrap_err(), InitError::NameMissing);
    let r = initialize_project(
        options(None, false, Some("/work/.."), false, None),
        "/ignored",
        None,
        None,
    );
    let e = r.unwrap_err();
    assert_eq!(e, InitError::NameMissing);
    assert_eq!(e.message(), "Could not determine project name");
}

fn answers(parties: u8) -> InteractiveAnswers {
    InteractiveAnswers {
        project_name: String::from("interactive-app"),
        description: String::from(""),
        author: String::from("Ada"),
        parties,
        field: String::from("bls12-381"),
        ecosystem_choice: String::from("5"),
    }
}

#[test]
fn interactive_with_four_parties_rejects_and_plans_nothing() {
    let r = initialize_project(
        options(Some("interactive-app"), false, None, true, None),
        "/work",
        None,
        Some(answers(4)),
    );
    let e = r.unwrap_err();
    assert_eq!(
        e,
        InitError::Validation(ValidationError::InvalidPartyCount { parties: 4 })
    );
    assert_eq!(e.message(), "HoneyBadger protocol requires at least 5 parties");
}

#[test]
fn interactive_with_seven_parties_computes_threshold() {
    let plan = initialize_project(
        options(Some("interactive-app"), false, None, true, None),
        "/work",
        None,
        Some(answers(7)),
    )
    .expect("interactive initialization succeeds");
    let config = parse_manifest(plan.files[0].content.as_str()).unwrap();
    assert_eq!(config.package.name, "interactive-app");
    assert_eq!(config.package.description, None);
    assert_eq!(config.package.authors, Some(vec![String::from("Ada")]));
    assert_eq!(config.mpc.parties, 7);
    assert_eq!(config.mpc.threshold, Some(2));
    let paths: Vec<&str> = plan.files.iter().map(|f| f.path.as_str()).collect();
    assert_eq!(paths, vec!["Stoffel.toml", "src/main.stfl", "tests/integration.stfl", "README.md"]);
}

#[test]
fn interactive_python_choice_uses_python_files() {
    let mut a = answers(5);
    a.ecosystem_choice = String::from("1");
    let plan = initialize_project(
        options(Some("interactive-app"), false, None, true, None),
        "/work",
        None,
        Some(a),
    )
    .unwrap();
    let paths: Vec<&str> = plan.files.iter().map(|f| f.path.as_str()).collect();
    assert!(paths.contains(&"pyproject.toml"));
    assert!(paths.contains(&"src/main.py"));
}
