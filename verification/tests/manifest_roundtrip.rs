use stoffel::config::{MpcConfig, PackageConfig, StoffelConfig};
use stoffel::manifest::{emit_manifest, parse_manifest};

fn sample_config() -> StoffelConfig {
    StoffelConfig {
        package: PackageConfig {
            name: String::from("secure-stats"),
            version: String::from("0.1.0"),
            description: Some(String::from("A Stoffel MPC application")),
            authors: Some(vec![String::from("Ada"), String::from("Grace")]),
            license: Some(String::from("MIT")),
        },
        mpc: MpcConfig {
            protocol: String::from("honeybadger"),
            parties: 7,
            threshold: Some(2),
            field: String::from("bls12-381"),
        },
        dependencies: None,
        dev_dependencies: None,
    }
}

#[test]
fn manifest_text_layout() {
    let config = sample_config();
    let text = emit_manifest(&config);
    let expected = "[package]\n\
                    name = \"secure-stats\"\n\
                    version = \"0.1.0\"\n\
                    description = \"A Stoffel MPC application\"\n\
                    authors = [\"Ada\", \"Grace\"]\n\
                    license = \"MIT\"\n\
                    \n\
                    [mpc]\n\
                    protocol = \"honeybadger\"\n\
                    parties = 7\n\
                    threshold = 2\n\
                    field = \"bls12-381\"\n";
    assert_eq!(text, expected);
}

#[test]
fn round_trip_full_config() {
    let config = sample_config();
    let text = emit_manifest(&config);
    let parsed = parse_manifest(text.as_str()).expect("manifest must parse back");
    assert_eq!(parsed, config);
}

#[test]
fn round_trip_minimal_config() {
    let config = StoffelConfig {
        package: PackageConfig {
            name: String::from("m"),
            version: String::from("2.0.0"),
            description: None,
            authors: None,
            license: None,
        },
        mpc: MpcConfig {
            protocol: String::from("honeybadger"),
            parties: 5,
            threshold: None,
            field: String::from("bn254"),
        },
        dependencies: None,
        dev_dependencies: None,
    };
    let text = emit_manifest(&config);
    let parsed = parse_manifest(text.as_str()).expect("manifest must parse back");
    assert_eq!(parsed, config);
}

#[test]
fn round_trip_with_dependencies() {
    let config = StoffelConfig {
        package: PackageConfig {
            name: String::from("dep-heavy"),
            version: String::from("0.3.1"),
            description: None,
            authors: Some(vec![]),
            license: Some(String::from("MIT")),
        },
        mpc: MpcConfig {
            protocol: String::from("honeybadger"),
            parties: 10,
            threshold: Some(3),
            field: String::from("secp256k1"),
        },
        dependencies: Some(vec![
            (String::from("mpc-utils"), String::from("1.2.3")),
            (String::from("shares"), String::from("0.9")),
        ]),
        dev_dependencies: Some(vec![(String::from("testkit"), String::from("2.0"))]),
    };
    let text = emit_manifest(&config);
    let parsed = parse_manifest(text.as_str()).expect("manifest must parse back");
    assert_eq!(parsed, config);
}

#[test]
fn emitted_manifest_is_real_toml() {
    let config = sample_config();
    let text = emit_manifest(&config);
    let value: toml::Value = toml::from_str(text.as_str()).expect("toml must accept the manifest");
    let package = value.get("package").expect("package table");
    assert_eq!(package.get("name").unwrap().as_str(), Some("secure-stats"));
    assert_eq!(package.get("version").unwrap().as_str(), Some("0.1.0"));
    assert_eq!(package.get("license").unwrap().as_str(), Some("MIT"));
    let authors = package.get("authors").unwrap().as_array().unwrap();
    assert_eq!(authors.len(), 2);
    assert_eq!(authors[0].as_str(), Some("Ada"));
    assert_eq!(authors[1].as_str(), Some("Grace"));
    let mpc = value.get("mpc").expect("mpc table");
    assert_eq!(mpc.get("protocol").unwrap().as_str(), Some("honeybadger"));
    assert_eq!(mpc.get("parties").unwrap().as_integer(), Some(7));
    assert_eq!(mpc.get("threshold").unwrap().as_integer(), Some(2));
    assert_eq!(mpc.get("field").unwrap().as_str(), Some("bls12-381"));
}

#[test]
fn parse_rejects_malformed_line() {
    assert!(parse_manifest("[package]\nname\n").is_none());
    assert!(parse_manifest("[package\nname = \"x\"\n").is_none());
}

#[test]
fn parse_rejects_missing_required_fields() {
    // no parties
    let text = "[package]\nname = \"x\"\nversion = \"0.1.0\"\n\n[mpc]\nprotocol = \"honeybadger\"\nfield = \"bls12-381\"\n";
    assert!(parse_manifest(text).is_none());
}

#[test]
fn parse_rejects_oversized_party_count() {
    let text = "[package]\nname = \"x\"\nversion = \"0.1.0\"\n\n[mpc]\nprotocol = \"honeybadger\"\nparties = 300\nfield = \"bls12-381\"\n";
    assert!(parse_manifest(text).is_none());
}

#[test]
fn parse_ignores_unknown_keys_and_sections() {
    let text = "[package]\nname = \"x\"\nversion = \"0.1.0\"\nhomepage = \"https://example.org\"\n\n[mpc]\nprotocol = \"honeybadger\"\nparties = 5\nfield = \"bls12-381\"\n\n[future]\nflag = \"on\"\n";
    let parsed = parse_manifest(text).expect("unknown keys are ignored");
    assert_eq!(parsed.package.name, "x");
    assert_eq!(parsed.mpc.parties, 5);
    assert_eq!(parsed.mpc.threshold, None);
}
