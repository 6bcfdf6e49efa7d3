//! The in-memory configuration model: package metadata and MPC protocol
//! parameters, together with the three ways a configuration is built
//! (unconditional default, ecosystem template, interactive answers).

use vstd::prelude::*;
use vstd::string::StrSliceExecFns;
use vstd::string::StringExecFns;
use crate::text::str_eq;
use crate::validate::{MpcProtocol, ValidationError, calculate_threshold, spec_auto_threshold};

verus! {

/// Package metadata persisted in the manifest's `package` section.
#[derive(Debug, PartialEq)]
pub struct PackageConfig {
    pub name: String,
    pub version: String,
    pub description: Option<String>,
    pub authors: Option<Vec<String>>,
    pub license: Option<String>,
}

/// MPC protocol parameters persisted in the manifest's `mpc` section.
#[derive(Debug, PartialEq)]
pub struct MpcConfig {
    pub protocol: String,
    pub parties: u8,
    pub threshold: Option<u8>,
    pub field: String,
}

/// A project's full configuration.
///
/// Dependency mappings are kept as ordered key/value pairs so that the
/// manifest rendering is deterministic; well-formed configurations keep the
/// keys unique.
#[derive(Debug, PartialEq)]
pub struct StoffelConfig {
    pub package: PackageConfig,
    pub mpc: MpcConfig,
    pub dependencies: Option<Vec<(String, String)>>,
    pub dev_dependencies: Option<Vec<(String, String)>>,
}

/// Command-line options that drive project initialization.
#[derive(Debug, PartialEq)]
pub struct InitOptions {
    pub name: Option<String>,
    pub lib: bool,
    pub path: Option<String>,
    pub interactive: bool,
    pub template: Option<String>,
}

/// The answers collected by an interactive setup session.
#[derive(Debug, PartialEq)]
pub struct InteractiveAnswers {
    pub project_name: String,
    pub description: String,
    pub author: String,
    pub parties: u8,
    pub field: String,
    /// The ecosystem menu choice, `"1"` through `"5"`.
    pub ecosystem_choice: String,
}

/// The mathematical image of a `PackageConfig`.
#[verifier::ext_equal]
pub struct PackageView {
    pub name: Seq<char>,
    pub version: Seq<char>,
    pub description: Option<Seq<char>>,
    pub authors: Option<Seq<Seq<char>>>,
    pub license: Option<Seq<char>>,
}

/// The mathematical image of an `MpcConfig`.
#[verifier::ext_equal]
pub struct MpcView {
    pub protocol: Seq<char>,
    pub parties: u8,
    pub threshold: Option<u8>,
    pub field: Seq<char>,
}

/// The mathematical image of a `StoffelConfig`.
#[verifier::ext_equal]
pub struct ConfigView {
    pub package: PackageView,
    pub mpc: MpcView,
    pub dependencies: Option<Seq<(Seq<char>, Seq<char>)>>,
    pub dev_dependencies: Option<Seq<(Seq<char>, Seq<char>)>>,
}

/// The view of a dependency list: both key and version as character
/// sequences.
pub open spec fn pairs_view(v: Seq<(String, String)>) -> Seq<(Seq<char>, Seq<char>)> {
    v.map_values(|p: (String, String)| (p.0@, p.1@))
}

impl View for PackageConfig {
    type V = PackageView;

    open spec fn view(&self) -> PackageView {
        PackageView {
            name: self.name@,
            version: self.version@,
            description: match self.description {
                Some(d) => Some(d@),
                None => None,
            },
            authors: match self.authors {
                Some(a) => Some(a.deep_view()),
                None => None,
            },
            license: match self.license {
                Some(l) => Some(l@),
                None => None,
            },
        }
    }
}

impl View for MpcConfig {
    type V = MpcView;

    open spec fn view(&self) -> MpcView {
        MpcView {
            protocol: self.protocol@,
            parties: self.parties,
            threshold: self.threshold,
            field: self.field@,
        }
    }
}

impl View for StoffelConfig {
    type V = ConfigView;

    open spec fn view(&self) -> ConfigView {
        ConfigView {
            package: self.package@,
            mpc: self.mpc@,
            dependencies: match self.dependencies {
                Some(d) => Some(pairs_view(d@)),
                None => None,
            },
            dev_dependencies: match self.dev_dependencies {
                Some(d) => Some(pairs_view(d@)),
                None => None,
            },
        }
    }
}

/// The author name used when none could be discovered.
pub open spec fn author_or_unknown(author: Option<Seq<char>>) -> Seq<char> {
    match author {
        Some(a) => a,
        None => "Unknown"@,
    }
}

/// The configuration every non-interactive initialization builds: version
/// `0.1.0` and an MIT license around the given name, description and
/// author, with the HoneyBadger protocol at five parties, threshold one,
/// over BLS12-381.
pub open spec fn spec_generated_config(
    name: Seq<char>,
    description: Option<Seq<char>>,
    author: Option<Seq<char>>,
) -> ConfigView {
    ConfigView {
        package: PackageView {
            name,
            version: "0.1.0"@,
            description,
            authors: Some(seq![author_or_unknown(author)]),
            license: Some("MIT"@),
        },
        mpc: MpcView {
            protocol: "honeybadger"@,
            parties: 5,
            threshold: Some(1u8),
            field: "bls12-381"@,
        },
        dependencies: None,
        dev_dependencies: None,
    }
}

/// The configuration an interactive session builds: the answered fields,
/// an empty description treated as absent, and the automatically computed
/// threshold.
pub open spec fn spec_interactive_config(
    project_name: Seq<char>,
    description: Seq<char>,
    author: Seq<char>,
    parties: u8,
    field: Seq<char>,
) -> ConfigView {
    ConfigView {
        package: PackageView {
            name: project_name,
            version: "0.1.0"@,
            description: if description.len() == 0 {
                None
            } else {
                Some(description)
            },
            authors: Some(seq![author]),
            license: Some("MIT"@),
        },
        mpc: MpcView {
            protocol: "honeybadger"@,
            parties,
            threshold: Some(crate::validate::spec_auto_threshold(parties as int) as u8),
            field,
        },
        dependencies: None,
        dev_dependencies: None,
    }
}

/// The canonical description for an ecosystem template.
pub open spec fn spec_template_description(template: Seq<char>) -> Seq<char> {
    if template == "python"@ {
        "Python SDK integration for MPC applications"@
    } else if template == "rust"@ {
        "Rust FFI integration with StoffelVM"@
    } else if template == "typescript"@ {
        "TypeScript/Node.js MPC integration"@
    } else if template == "solidity"@ {
        "Solidity smart contract with MPC integration"@
    } else {
        "A Stoffel MPC application"@
    }
}

/// Describe an ecosystem template in one line.
pub fn get_template_description(template: &str) -> (r: String)
    ensures
        r@ == spec_template_description(template@),
{
    if str_eq(template, "python") {
        String::from_str("Python SDK integration for MPC applications")
    } else if str_eq(template, "rust") {
        String::from_str("Rust FFI integration with StoffelVM")
    } else if str_eq(template, "typescript") {
        String::from_str("TypeScript/Node.js MPC integration")
    } else if str_eq(template, "solidity") {
        String::from_str("Solidity smart contract with MPC integration")
    } else {
        String::from_str("A Stoffel MPC application")
    }
}

/// The ecosystem template name for an interactive menu choice.
pub open spec fn spec_ecosystem_of_choice(choice: Seq<char>) -> Seq<char> {
    if choice == "1"@ {
        "python"@
    } else if choice == "2"@ {
        "rust"@
    } else if choice == "3"@ {
        "typescript"@
    } else if choice == "4"@ {
        "solidity"@
    } else {
        "stoffel"@
    }
}

/// Map an interactive menu choice to its ecosystem template name.
pub fn ecosystem_of_choice(choice: &str) -> (r: &'static str)
    ensures
        r@ == spec_ecosystem_of_choice(choice@),
{
    if str_eq(choice, "1") {
        "python"
    } else if str_eq(choice, "2") {
        "rust"
    } else if str_eq(choice, "3") {
        "typescript"
    } else if str_eq(choice, "4") {
        "solidity"
    } else {
        "stoffel"
    }
}

/// Build the unconditional default configuration.
pub fn default_config(name: String, author: Option<String>) -> (r: StoffelConfig)
    ensures
        r@ == spec_generated_config(
            name@,
            Some("A Stoffel MPC application"@),
            match author {
                Some(a) => Some(a@),
                None => None,
            },
        ),
{
    let author_name = match author {
        Some(a) => a,
        None => String::from_str("Unknown"),
    };
    let mut authors: Vec<String> = Vec::new();
    authors.push(author_name);
    let r = StoffelConfig {
        package: PackageConfig {
            name,
            version: String::from_str("0.1.0"),
            description: Some(String::from_str("A Stoffel MPC application")),
            authors: Some(authors),
            license: Some(String::from_str("MIT")),
        },
        mpc: MpcConfig {
            protocol: String::from_str("honeybadger"),
            parties: 5,
            threshold: Some(1),
            field: String::from_str("bls12-381"),
        },
        dependencies: None,
        dev_dependencies: None,
    };
    assert(r@ =~~= spec_generated_config(
        name@,
        Some("A Stoffel MPC application"@),
        match author {
            Some(a) => Some(a@),
            None => None,
        },
    ));
    r
}

/// Build the configuration for a named ecosystem template.
pub fn template_config(name: String, template: &str, author: Option<String>) -> (r: StoffelConfig)
    ensures
        r@ == spec_generated_config(
            name@,
            Some(spec_template_description(template@)),
            match author {
                Some(a) => Some(a@),
                None => None,
            },
        ),
{
    let author_name = match author {
        Some(a) => a,
        None => String::from_str("Unknown"),
    };
    let mut authors: Vec<String> = Vec::new();
    authors.push(author_name);
    let r = StoffelConfig {
        package: PackageConfig {
            name,
            version: String::from_str("0.1.0"),
            description: Some(get_template_description(template)),
            authors: Some(authors),
            license: Some(String::from_str("MIT")),
        },
        mpc: MpcConfig {
            protocol: String::from_str("honeybadger"),
            parties: 5,
            threshold: Some(1),
            field: String::from_str("bls12-381"),
        },
        dependencies: None,
        dev_dependencies: None,
    };
    assert(r@ =~~= spec_generated_config(
        name@,
        Some(spec_template_description(template@)),
        match author {
            Some(a) => Some(a@),
            None => None,
        },
    ));
    r
}

/// Build a configuration from interactive answers.
///
/// Rejects a party count below the HoneyBadger minimum before anything else
/// happens; on success the threshold is the automatically computed one and
/// an empty description is treated as absent.
pub fn interactive_config(answers: InteractiveAnswers) -> (r: Result<StoffelConfig, ValidationError>)
    ensures
        r is Ok <==> answers.parties >= 5,
        answers.parties < 5 ==> r == Result::<StoffelConfig, ValidationError>::Err(
            ValidationError::InvalidPartyCount { parties: answers.parties },
        ),
        r is Ok ==> r->Ok_0@ == spec_interactive_config(
            answers.project_name@,
            answers.description@,
            answers.author@,
            answers.parties,
            answers.field@,
        ),
{
    let InteractiveAnswers { project_name, description, author, parties, field, ecosystem_choice } =
        answers;
    if parties < 5 {
        return Err(ValidationError::InvalidPartyCount { parties });
    }
    let threshold = calculate_threshold(parties, &MpcProtocol::Honeybadger);
    let description_field = if description.as_str().unicode_len() == 0 {
        None
    } else {
        Some(description)
    };
    let mut authors: Vec<String> = Vec::new();
    authors.push(author);
    let r = StoffelConfig {
        package: PackageConfig {
            name: project_name,
            version: String::from_str("0.1.0"),
            description: description_field,
            authors: Some(authors),
            license: Some(String::from_str("MIT")),
        },
        mpc: MpcConfig {
            protocol: String::from_str("honeybadger"),
            parties,
            threshold: Some(threshold),
            field,
        },
        dependencies: None,
        dev_dependencies: None,
    };
    assert(r@ =~~= spec_interactive_config(
        answers.project_name@,
        answers.description@,
        answers.author@,
        answers.parties,
        answers.field@,
    ));
    Ok(r)
}

} // verus!
