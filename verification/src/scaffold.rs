//! Scaffold planning: the exact directory-relative file set that project
//! initialization writes, as (path, content) pairs.
//!
//! Everything here is pure planning — the caller creates directories and
//! writes the planned files, surfacing the first failed path and leaving
//! any already-written files in place.

use vstd::prelude::*;
use vstd::string::StringExecFns;
use crate::config::{
    ConfigView, InitOptions, InteractiveAnswers, StoffelConfig, default_config, ecosystem_of_choice,
    interactive_config, spec_ecosystem_of_choice, spec_generated_config, spec_interactive_config,
    spec_template_description, template_config,
};
use crate::manifest::{emit_manifest, spec_manifest_text};
use crate::numbers::{dec_rep, u8_to_string};
use crate::templates::{
    load_template, spec_authors_value, spec_description_or, spec_substitute, authors_value,
    description_or, python_main_text, python_pyproject_text, python_stfl_text, python_test_text,
    substitute_template_vars,
};
use crate::text::{chars_to_string, replace_chars, spec_replace, str_eq, str_to_chars};
use crate::validate::ValidationError;

verus! {

/// The decimal rendering of a threshold, defaulting to one when unset.
pub open spec fn spec_threshold_or_default(threshold: Option<u8>) -> Seq<char> {
    dec_rep(
        (match threshold {
            Some(t) => t,
            None => 1u8,
        }) as nat,
    )
}

/// Render a threshold, defaulting to one when unset.
pub fn threshold_or_default(threshold: &Option<u8>) -> (r: String)
    ensures
        r@ == spec_threshold_or_default(*threshold),
{
    match threshold {
        Some(t) => u8_to_string(*t),
        None => u8_to_string(1),
    }
}

/// The first listed author, or `Unknown` when there is none.
pub open spec fn spec_first_author(authors: Option<Seq<Seq<char>>>) -> Seq<char> {
    match authors {
        Some(a) => if a.len() > 0 {
            a[0]
        } else {
            "Unknown"@
        },
        None => "Unknown"@,
    }
}

/// Pick the first listed author, or `Unknown` when there is none.
pub fn first_author(authors: &Option<Vec<String>>) -> (r: String)
    ensures
        r@ == spec_first_author(
            match authors {
                Some(a) => Some(a.deep_view()),
                None => None,
            },
        ),
{
    match authors {
        Some(a) => {
            if a.len() > 0 {
                a[0].clone()
            } else {
                String::from_str("Unknown")
            }
        },
        None => String::from_str("Unknown"),
    }
}

/// Render a package name with hyphens turned into underscores.
pub fn underscored_name(name: &str) -> (r: String)
    ensures
        r@ == spec_replace(name@, "-"@, "_"@),
{
    proof {
        reveal_strlit("-");
    }
    let chars = str_to_chars(name);
    let pat = str_to_chars("-");
    let rep = str_to_chars("_");
    let replaced = replace_chars(&chars, &pat, &rep);
    chars_to_string(&replaced)
}

/// The library entry point's source text.
pub open spec fn spec_library_source() -> Seq<char> {
    "// Stoffel Library\n// This library provides privacy-preserving computation functions\n\n// Example function for secure computation\nfn secure_add(a: SecretInt, b: SecretInt) -> SecretInt {\n    return a + b;\n}\n\n// Export main functions\nexport { secure_add };\n"@
}

/// The library README's text.
pub open spec fn spec_library_readme(c: ConfigView) -> Seq<char> {
    "# "@ + c.package.name
        + "\n\nA Stoffel MPC library for privacy-preserving computation.\n\n## Installation\n\n```bash\nstoffel add "@
        + c.package.name + "\n```\n\n## Usage\n\n```stoffel\nimport { secure_add } from \""@
        + c.package.name
        + "\";\n\nlet result = secure_add(secret_a, secret_b);\n```\n\n## Configuration\n\n- Protocol: "@
        + c.mpc.protocol + "\n- Parties: "@ + dec_rep(c.mpc.parties as nat) + "\n- Field: "@
        + c.mpc.field + "\n"@
}

/// Render the library README.
pub fn library_readme(config: &StoffelConfig) -> (r: String)
    ensures
        r@ == spec_library_readme(config@),
{
    let mut s = String::from_str("# ");
    s.append(config.package.name.as_str());
    s.append(
        "\n\nA Stoffel MPC library for privacy-preserving computation.\n\n## Installation\n\n```bash\nstoffel add ",
    );
    s.append(config.package.name.as_str());
    s.append("\n```\n\n## Usage\n\n```stoffel\nimport { secure_add } from \"");
    s.append(config.package.name.as_str());
    s.append("\";\n\nlet result = secure_add(secret_a, secret_b);\n```\n\n## Configuration\n\n- Protocol: ");
    s.append(config.mpc.protocol.as_str());
    s.append("\n- Parties: ");
    let parties = u8_to_string(config.mpc.parties);
    s.append(parties.as_str());
    s.append("\n- Field: ");
    s.append(config.mpc.field.as_str());
    s.append("\n");
    assert(s@ =~= spec_library_readme(config@));
    s
}

/// The generated Rust project's build manifest.
pub open spec fn spec_rust_cargo(c: ConfigView) -> Seq<char> {
    "[package]\nname = \""@ + c.package.name + "\"\nversion = \""@ + c.package.version
        + "\"\nedition = \"2021\"\nauthors = ["@ + spec_authors_value(c.package.authors)
        + "]\ndescription = \""@ + spec_description_or(
        c.package.description,
        "Stoffel MPC application"@,
    ) + "\"\n\n[dependencies]\n# FFI bindings to StoffelVM\nlibc = \"0.2\"\n\n[dev-dependencies]\ntokio = { version = \"1.0\", features = [\"full\"] }\n"@
}

/// Render the generated Rust project's build manifest.
pub fn rust_cargo(config: &StoffelConfig) -> (r: String)
    ensures
        r@ == spec_rust_cargo(config@),
{
    let mut s = String::from_str("[package]\nname = \"");
    s.append(config.package.name.as_str());
    s.append("\"\nversion = \"");
    s.append(config.package.version.as_str());
    s.append("\"\nedition = \"2021\"\nauthors = [");
    let authors = authors_value(&config.package.authors);
    s.append(authors.as_str());
    s.append("]\ndescription = \"");
    let description = description_or(&config.package.description, "Stoffel MPC application");
    s.append(description.as_str());
    s.append(
        "\"\n\n[dependencies]\n# FFI bindings to StoffelVM\nlibc = \"0.2\"\n\n[dev-dependencies]\ntokio = { version = \"1.0\", features = [\"full\"] }\n",
    );
    assert(s@ =~= spec_rust_cargo(config@));
    s
}

/// The generated Rust project's entry-point source.
pub open spec fn spec_rust_main(c: ConfigView) -> Seq<char> {
    "//! "@ + c.package.name + " - "@ + spec_description_or(
        c.package.description,
        "Stoffel MPC application"@,
    ) + "\n//!\n//! Rust FFI integration with StoffelVM for MPC computation\n//! Protocol: "@
        + c.mpc.protocol + ", Parties: "@ + dec_rep(c.mpc.parties as nat) + ", Field: "@
        + c.mpc.field
        + "\n\nfn main() -> Result<(), String> {\n    println!(\"=== Stoffel Rust MPC Demo ===\");\n    println!(\"Protocol: honeybadger\");\n    println!(\"Parties: {}\", "@
        + dec_rep(c.mpc.parties as nat)
        + ");\n    println!(\"Field: bls12-381\");\n\n    Ok(())\n}\n\n#[cfg(test)]\nmod tests {\n    use super::*;\n\n    #[test]\n    fn test_basic() {\n        assert!(main().is_ok());\n    }\n}\n"@
}

/// Render the generated Rust project's entry-point source.
pub fn rust_main(config: &StoffelConfig) -> (r: String)
    ensures
        r@ == spec_rust_main(config@),
{
    let mut s = String::from_str("//! ");
    s.append(config.package.name.as_str());
    s.append(" - ");
    let description = description_or(&config.package.description, "Stoffel MPC application");
    s.append(description.as_str());
    s.append("\n//!\n//! Rust FFI integration with StoffelVM for MPC computation\n//! Protocol: ");
    s.append(config.mpc.protocol.as_str());
    s.append(", Parties: ");
    let parties = u8_to_string(config.mpc.parties);
    s.append(parties.as_str());
    s.append(", Field: ");
    s.append(config.mpc.field.as_str());
    s.append(
        "\n\nfn main() -> Result<(), String> {\n    println!(\"=== Stoffel Rust MPC Demo ===\");\n    println!(\"Protocol: honeybadger\");\n    println!(\"Parties: {}\", ",
    );
    s.append(parties.as_str());
    s.append(
        ");\n    println!(\"Field: bls12-381\");\n\n    Ok(())\n}\n\n#[cfg(test)]\nmod tests {\n    use super::*;\n\n    #[test]\n    fn test_basic() {\n        assert!(main().is_ok());\n    }\n}\n",
    );
    assert(s@ =~= spec_rust_main(config@));
    s
}

/// The generated TypeScript project's package manifest.
pub open spec fn spec_ts_package(c: ConfigView) -> Seq<char> {
    "{\n  \"name\": \""@ + c.package.name + "\",\n  \"version\": \""@ + c.package.version
        + "\",\n  \"description\": \""@ + spec_description_or(
        c.package.description,
        "Stoffel MPC application"@,
    )
        + "\",\n  \"main\": \"dist/main.js\",\n  \"scripts\": {\n    \"build\": \"tsc\",\n    \"start\": \"node dist/main.js\",\n    \"dev\": \"ts-node src/main.ts\",\n    \"test\": \"jest\"\n  },\n  \"keywords\": [\"mpc\", \"privacy\", \"secure-computation\", \"stoffel\"],\n  \"author\": \""@
        + spec_first_author(c.package.authors) + "\",\n  \"license\": \"MIT\"\n}\n"@
}

/// Render the generated TypeScript project's package manifest.
pub fn ts_package(config: &StoffelConfig) -> (r: String)
    ensures
        r@ == spec_ts_package(config@),
{
    let mut s = String::from_str("{\n  \"name\": \"");
    s.append(config.package.name.as_str());
    s.append("\",\n  \"version\": \"");
    s.append(config.package.version.as_str());
    s.append("\",\n  \"description\": \"");
    let description = description_or(&config.package.description, "Stoffel MPC application");
    s.append(description.as_str());
    s.append(
        "\",\n  \"main\": \"dist/main.js\",\n  \"scripts\": {\n    \"build\": \"tsc\",\n    \"start\": \"node dist/main.js\",\n    \"dev\": \"ts-node src/main.ts\",\n    \"test\": \"jest\"\n  },\n  \"keywords\": [\"mpc\", \"privacy\", \"secure-computation\", \"stoffel\"],\n  \"author\": \"",
    );
    let author = first_author(&config.package.authors);
    s.append(author.as_str());
    s.append("\",\n  \"license\": \"MIT\"\n}\n");
    assert(s@ =~= spec_ts_package(config@));
    s
}

/// The generated TypeScript compiler configuration.
pub open spec fn spec_ts_config() -> Seq<char> {
    "{\n  \"compilerOptions\": {\n    \"target\": \"ES2020\",\n    \"module\": \"commonjs\",\n    \"outDir\": \"./dist\",\n    \"rootDir\": \"./src\",\n    \"strict\": true,\n    \"esModuleInterop\": true,\n    \"skipLibCheck\": true,\n    \"forceConsistentCasingInFileNames\": true\n  }\n}\n"@
}

/// The generated TypeScript project's entry-point source.
pub open spec fn spec_ts_main(c: ConfigView) -> Seq<char> {
    "/**\n * "@ + c.package.name + " - "@ + spec_description_or(
        c.package.description,
        "Stoffel MPC application"@,
    ) + "\n *\n * TypeScript/Node.js integration with the Stoffel MPC framework\n * Protocol: "@
        + c.mpc.protocol + ", Parties: "@ + dec_rep(c.mpc.parties as nat) + ", Field: "@
        + c.mpc.field + "\n */\n\nconst config = {\n  clientId: \""@ + spec_replace(
        c.package.name,
        "-"@,
        "_"@,
    ) + "\",\n  programId: \"secure_computation\",\n  protocol: \""@ + c.mpc.protocol
        + "\",\n  parties: "@ + dec_rep(c.mpc.parties as nat) + ",\n  field: \""@ + c.mpc.field
        + "\"\n};\n\nasync function main(): Promise<void> {\n  console.log(\"=== Stoffel TypeScript MPC Demo ===\");\n  console.log(`Protocol: ${config.protocol}`);\n  console.log(`Parties: ${config.parties}`);\n  console.log(`Field: ${config.field}`);\n}\n\nmain().catch(console.error);\n"@
}

/// Render the generated TypeScript project's entry-point source.
pub fn ts_main(config: &StoffelConfig) -> (r: String)
    ensures
        r@ == spec_ts_main(config@),
{
    let mut s = String::from_str("/**\n * ");
    s.append(config.package.name.as_str());
    s.append(" - ");
    let description = description_or(&config.package.description, "Stoffel MPC application");
    s.append(description.as_str());
    s.append("\n *\n * TypeScript/Node.js integration with the Stoffel MPC framework\n * Protocol: ");
    s.append(config.mpc.protocol.as_str());
    s.append(", Parties: ");
    let parties = u8_to_string(config.mpc.parties);
    s.append(parties.as_str());
    s.append(", Field: ");
    s.append(config.mpc.field.as_str());
    s.append("\n */\n\nconst config = {\n  clientId: \"");
    let client_id = underscored_name(config.package.name.as_str());
    s.append(client_id.as_str());
    s.append("\",\n  programId: \"secure_computation\",\n  protocol: \"");
    s.append(config.mpc.protocol.as_str());
    s.append("\",\n  parties: ");
    s.append(parties.as_str());
    s.append(",\n  field: \"");
    s.append(config.mpc.field.as_str());
    s.append(
        "\"\n};\n\nasync function main(): Promise<void> {\n  console.log(\"=== Stoffel TypeScript MPC Demo ===\");\n  console.log(`Protocol: ${config.protocol}`);\n  console.log(`Parties: ${config.parties}`);\n  console.log(`Field: ${config.field}`);\n}\n\nmain().catch(console.error);\n",
    );
    assert(s@ =~= spec_ts_main(config@));
    s
}

/// The generated Hardhat configuration.
pub open spec fn spec_sol_hardhat() -> Seq<char> {
    "require(\"@nomicfoundation/hardhat-toolbox\");\n\n/** @type import('hardhat/config').HardhatUserConfig */\nmodule.exports = {\n  solidity: \"0.8.20\",\n  networks: {\n    hardhat: {},\n    stoffel: {\n      url: \"http://localhost:8545\",\n      accounts: []\n    }\n  }\n};\n"@
}

/// The generated Solidity project's package manifest.
pub open spec fn spec_sol_package(c: ConfigView) -> Seq<char> {
    "{\n  \"name\": \""@ + c.package.name + "\",\n  \"version\": \""@ + c.package.version
        + "\",\n  \"description\": \""@ + spec_description_or(
        c.package.description,
        "Stoffel MPC smart contract"@,
    )
        + "\",\n  \"scripts\": {\n    \"compile\": \"hardhat compile\",\n    \"test\": \"hardhat test\",\n    \"deploy\": \"hardhat run scripts/deploy.js\"\n  },\n  \"devDependencies\": {\n    \"@nomicfoundation/hardhat-toolbox\": \"^3.0.0\",\n    \"hardhat\": \"^2.17.0\"\n  },\n  \"keywords\": [\"solidity\", \"mpc\", \"privacy\", \"smart-contracts\", \"stoffel\"]\n}\n"@
}

/// Render the generated Solidity project's package manifest.
pub fn sol_package(config: &StoffelConfig) -> (r: String)
    ensures
        r@ == spec_sol_package(config@),
{
    let mut s = String::from_str("{\n  \"name\": \"");
    s.append(config.package.name.as_str());
    s.append("\",\n  \"version\": \"");
    s.append(config.package.version.as_str());
    s.append("\",\n  \"description\": \"");
    let description = description_or(&config.package.description, "Stoffel MPC smart contract");
    s.append(description.as_str());
    s.append(
        "\",\n  \"scripts\": {\n    \"compile\": \"hardhat compile\",\n    \"test\": \"hardhat test\",\n    \"deploy\": \"hardhat run scripts/deploy.js\"\n  },\n  \"devDependencies\": {\n    \"@nomicfoundation/hardhat-toolbox\": \"^3.0.0\",\n    \"hardhat\": \"^2.17.0\"\n  },\n  \"keywords\": [\"solidity\", \"mpc\", \"privacy\", \"smart-contracts\", \"stoffel\"]\n}\n",
    );
    assert(s@ =~= spec_sol_package(config@));
    s
}

/// The generated Solidity contract with the protocol parameters baked in.
pub open spec fn spec_sol_contract(c: ConfigView) -> Seq<char> {
    "// SPDX-License-Identifier: MIT\npragma solidity ^0.8.20;\n\n/**\n * "@ + c.package.name
        + " - "@ + spec_description_or(c.package.description, "Stoffel MPC smart contract"@)
        + "\n *\n * Solidity smart contract with MPC integration\n * Protocol: "@ + c.mpc.protocol
        + ", Parties: "@ + dec_rep(c.mpc.parties as nat) + ", Field: "@ + c.mpc.field
        + "\n */\n\n/// @title StoffelMPC\n/// @dev Smart contract interface for Stoffel MPC computations\ncontract StoffelMPC {\n\n    struct MPCConfig {\n        string protocol;\n        uint8 parties;\n        uint8 threshold;\n        string field;\n    }\n\n    MPCConfig public mpcConfig;\n    mapping(bytes32 => uint256) public computationResults;\n\n    event ComputationSubmitted(bytes32 indexed computationId, uint256 result);\n\n    constructor() {\n        mpcConfig = MPCConfig({\n            protocol: \""@
        + c.mpc.protocol + "\",\n            parties: "@ + dec_rep(c.mpc.parties as nat)
        + ",\n            threshold: "@ + spec_threshold_or_default(c.mpc.threshold)
        + ",\n            field: \""@ + c.mpc.field
        + "\"\n        });\n    }\n\n    /// @notice Submit an MPC computation result\n    function submitMPCResult(bytes32 computationId, uint256 result) external {\n        computationResults[computationId] = result;\n        emit ComputationSubmitted(computationId, result);\n    }\n}\n"@
}

/// Render the generated Solidity contract.
pub fn sol_contract(config: &StoffelConfig) -> (r: String)
    ensures
        r@ == spec_sol_contract(config@),
{
    let mut s = String::from_str("// SPDX-License-Identifier: MIT\npragma solidity ^0.8.20;\n\n/**\n * ");
    s.append(config.package.name.as_str());
    s.append(" - ");
    let description = description_or(&config.package.description, "Stoffel MPC smart contract");
    s.append(description.as_str());
    s.append("\n *\n * Solidity smart contract with MPC integration\n * Protocol: ");
    s.append(config.mpc.protocol.as_str());
    s.append(", Parties: ");
    let parties = u8_to_string(config.mpc.parties);
    s.append(parties.as_str());
    s.append(", Field: ");
    s.append(config.mpc.field.as_str());
    s.append(
        "\n */\n\n/// @title StoffelMPC\n/// @dev Smart contract interface for Stoffel MPC computations\ncontract StoffelMPC {\n\n    struct MPCConfig {\n        string protocol;\n        uint8 parties;\n        uint8 threshold;\n        string field;\n    }\n\n    MPCConfig public mpcConfig;\n    mapping(bytes32 => uint256) public computationResults;\n\n    event ComputationSubmitted(bytes32 indexed computationId, uint256 result);\n\n    constructor() {\n        mpcConfig = MPCConfig({\n            protocol: \"",
    );
    s.append(config.mpc.protocol.as_str());
    s.append("\",\n            parties: ");
    s.append(parties.as_str());
    s.append(",\n            threshold: ");
    let threshold = threshold_or_default(&config.mpc.threshold);
    s.append(threshold.as_str());
    s.append(",\n            field: \"");
    s.append(config.mpc.field.as_str());
    s.append(
        "\"\n        });\n    }\n\n    /// @notice Submit an MPC computation result\n    function submitMPCResult(bytes32 computationId, uint256 result) external {\n        computationResults[computationId] = result;\n        emit ComputationSubmitted(computationId, result);\n    }\n}\n",
    );
    assert(s@ =~= spec_sol_contract(config@));
    s
}

/// The generated contract deployment script.
pub open spec fn spec_sol_deploy() -> Seq<char> {
    "// Deploy script for Stoffel MPC contracts\nconst hre = require(\"hardhat\");\n\nasync function main() {\n  console.log(\"Deploying Stoffel MPC contracts...\");\n\n  const StoffelMPC = await hre.ethers.getContractFactory(\"StoffelMPC\");\n  const stoffelMPC = await StoffelMPC.deploy();\n\n  await stoffelMPC.deployed();\n  console.log(\"StoffelMPC deployed to:\", stoffelMPC.address);\n}\n\nmain()\n  .then(() => process.exit(0))\n  .catch((error) => {\n    console.error(error);\n    process.exit(1);\n  });\n"@
}

/// The generated StoffelLang entry-point program.
pub open spec fn spec_stoffel_main(c: ConfigView) -> Seq<char> {
    "# "@ + c.package.name + " - "@ + spec_description_or(
        c.package.description,
        "Stoffel MPC application"@,
    ) + "\n# Generated by Stoffel CLI\n# Protocol: "@ + c.mpc.protocol + ", Parties: "@ + dec_rep(
        c.mpc.parties as nat,
    ) + ", Field: "@ + c.mpc.field
        + "\n\n# Demonstration of StoffelLang MPC features\nproc secure_computation(x: secret int64, y: secret int64): secret int64 =\n  # Secret arithmetic operations\n  let sum = x + y\n  let product = x * y\n\n  # Mix of public and secret computations\n  let public_factor: int64 = 3\n  let scaled_sum = sum * public_factor\n\n  # Return a combination result\n  return scaled_sum + product\n\n# Main entry point\nproc main() =\n  print(\"StoffelLang MPC Demo\")\n\n  # Get secret inputs from parties\n  let input_a: secret int64 = get_input(0)\n  let input_b: secret int64 = get_input(1)\n\n  # Perform secure computation\n  let result = secure_computation(input_a, input_b)\n\n  print(\"Computation finished\")\n  return result\n"@
}

/// Render the generated StoffelLang entry-point program.
pub fn stoffel_main(config: &StoffelConfig) -> (r: String)
    ensures
        r@ == spec_stoffel_main(config@),
{
    let mut s = String::from_str("# ");
    s.append(config.package.name.as_str());
    s.append(" - ");
    let description = description_or(&config.package.description, "Stoffel MPC application");
    s.append(description.as_str());
    s.append("\n# Generated by Stoffel CLI\n# Protocol: ");
    s.append(config.mpc.protocol.as_str());
    s.append(", Parties: ");
    let parties = u8_to_string(config.mpc.parties);
    s.append(parties.as_str());
    s.append(", Field: ");
    s.append(config.mpc.field.as_str());
    s.append(
        "\n\n# Demonstration of StoffelLang MPC features\nproc secure_computation(x: secret int64, y: secret int64): secret int64 =\n  # Secret arithmetic operations\n  let sum = x + y\n  let product = x * y\n\n  # Mix of public and secret computations\n  let public_factor: int64 = 3\n  let scaled_sum = sum * public_factor\n\n  # Return a combination result\n  return scaled_sum + product\n\n# Main entry point\nproc main() =\n  print(\"StoffelLang MPC Demo\")\n\n  # Get secret inputs from parties\n  let input_a: secret int64 = get_input(0)\n  let input_b: secret int64 = get_input(1)\n\n  # Perform secure computation\n  let result = secure_computation(input_a, input_b)\n\n  print(\"Computation finished\")\n  return result\n",
    );
    assert(s@ =~= spec_stoffel_main(config@));
    s
}

/// The generated StoffelLang integration-test file.
pub open spec fn spec_stoffel_test() -> Seq<char> {
    "# Integration tests for StoffelLang MPC\n\n# Test the secure computation function\nproc test_secure_computation() =\n  let x: secret int64 = 10\n  let y: secret int64 = 5\n  let result = secure_computation(x, y)\n  print(\"Secure computation test completed\")\n\n# Test with different values\nproc test_computation_variants() =\n  let a: secret int64 = 20\n  let b: secret int64 = 3\n  let output = secure_computation(a, b)\n  print(\"Computation variant test completed\")\n\n# Run all tests\nproc run_tests() =\n  print(\"Starting StoffelLang tests\")\n  test_secure_computation()\n  test_computation_variants()\n  print(\"All tests completed\")\n"@
}

/// The per-ecosystem quick-start commands of the generated README.
pub open spec fn spec_readme_quickstart(template: Seq<char>) -> Seq<char> {
    if template == "python"@ {
        "```bash\n# Install dependencies\npoetry install\n\n# Run the MPC demo\npoetry run python src/main.py\n\n# Run tests\npoetry run pytest\n```"@
    } else if template == "rust"@ {
        "```bash\n# Build the project\ncargo build\n\n# Run the MPC demo\ncargo run\n\n# Run tests\ncargo test\n```"@
    } else if template == "typescript"@ {
        "```bash\n# Install dependencies\nnpm install\n\n# Build the project\nnpm run build\n\n# Run the MPC demo\nnpm run start\n\n# Run tests\nnpm test\n```"@
    } else if template == "solidity"@ {
        "```bash\n# Install dependencies\nnpm install\n\n# Compile contracts\nnpm run compile\n\n# Deploy contracts\nnpm run deploy\n\n# Run tests\nnpm test\n```"@
    } else {
        "```bash\n# Run the application\nstoffel run\n\n# Development mode with hot reloading\nstoffel dev\n\n# Run tests\nstoffel test\n\n# Build optimized version\nstoffel build --release\n```"@
    }
}

/// Pick the quick-start commands for an ecosystem.
pub fn readme_quickstart(template: &str) -> (r: &'static str)
    ensures
        r@ == spec_readme_quickstart(template@),
{
    if str_eq(template, "python") {
        "```bash\n# Install dependencies\npoetry install\n\n# Run the MPC demo\npoetry run python src/main.py\n\n# Run tests\npoetry run pytest\n```"
    } else if str_eq(template, "rust") {
        "```bash\n# Build the project\ncargo build\n\n# Run the MPC demo\ncargo run\n\n# Run tests\ncargo test\n```"
    } else if str_eq(template, "typescript") {
        "```bash\n# Install dependencies\nnpm install\n\n# Build the project\nnpm run build\n\n# Run the MPC demo\nnpm run start\n\n# Run tests\nnpm test\n```"
    } else if str_eq(template, "solidity") {
        "```bash\n# Install dependencies\nnpm install\n\n# Compile contracts\nnpm run compile\n\n# Deploy contracts\nnpm run deploy\n\n# Run tests\nnpm test\n```"
    } else {
        "```bash\n# Run the application\nstoffel run\n\n# Development mode with hot reloading\nstoffel dev\n\n# Run tests\nstoffel test\n\n# Build optimized version\nstoffel build --release\n```"
    }
}

/// The per-ecosystem feature notes of the generated README.
pub open spec fn spec_readme_info(template: Seq<char>) -> Seq<char> {
    if template == "python"@ {
        "## Python SDK Integration\n\nThis project uses the Stoffel Python SDK for MPC operations:\n\n- **StoffelProgram**: Handles StoffelLang compilation and VM operations\n- **StoffelClient**: Manages MPC network communication and secret sharing"@
    } else if template == "rust"@ {
        "## Rust FFI Integration\n\nThis project uses direct FFI integration with StoffelVM:\n\n- **Direct VM Access**: Low-level control over StoffelVM operations\n- **Performance**: Minimal overhead for MPC computations"@
    } else if template == "typescript"@ {
        "## TypeScript SDK Integration\n\nThis project provides a TypeScript interface to Stoffel MPC:\n\n- **Type Safety**: Full TypeScript definitions for MPC operations\n- **Node.js**: Server-side MPC client implementation"@
    } else if template == "solidity"@ {
        "## Solidity Smart Contract Integration\n\nThis project provides on-chain verification of MPC computations:\n\n- **MPC Result Verification**: Smart contracts verify MPC computation results\n- **Private Auctions**: Example implementation of private auction mechanisms"@
    } else {
        "## StoffelLang Implementation\n\nThis project uses pure StoffelLang for MPC computations:\n\n- **Native MPC**: Built-in secret sharing and secure computation\n- **Type Safety**: Strong typing with SecretInt and PublicInt"@
    }
}

/// Pick the feature notes for an ecosystem.
pub fn readme_info(template: &str) -> (r: &'static str)
    ensures
        r@ == spec_readme_info(template@),
{
    if str_eq(template, "python") {
        "## Python SDK Integration\n\nThis project uses the Stoffel Python SDK for MPC operations:\n\n- **StoffelProgram**: Handles StoffelLang compilation and VM operations\n- **StoffelClient**: Manages MPC network communication and secret sharing"
    } else if str_eq(template, "rust") {
        "## Rust FFI Integration\n\nThis project uses direct FFI integration with StoffelVM:\n\n- **Direct VM Access**: Low-level control over StoffelVM operations\n- **Performance**: Minimal overhead for MPC computations"
    } else if str_eq(template, "typescript") {
        "## TypeScript SDK Integration\n\nThis project provides a TypeScript interface to Stoffel MPC:\n\n- **Type Safety**: Full TypeScript definitions for MPC operations\n- **Node.js**: Server-side MPC client implementation"
    } else if str_eq(template, "solidity") {
        "## Solidity Smart Contract Integration\n\nThis project provides on-chain verification of MPC computations:\n\n- **MPC Result Verification**: Smart contracts verify MPC computation results\n- **Private Auctions**: Example implementation of private auction mechanisms"
    } else {
        "## StoffelLang Implementation\n\nThis project uses pure StoffelLang for MPC computations:\n\n- **Native MPC**: Built-in secret sharing and secure computation\n- **Type Safety**: Strong typing with SecretInt and PublicInt"
    }
}

/// The generated README for an application project: description, quick
/// start, the exact protocol parameters, and the ecosystem's notes.
pub open spec fn spec_template_readme(c: ConfigView, template: Seq<char>) -> Seq<char> {
    "# "@ + c.package.name + "\n\n"@ + spec_description_or(
        c.package.description,
        "A Stoffel MPC application"@,
    ) + "\n\n## Quick Start\n\n"@ + spec_readme_quickstart(template)
        + "\n\n## Configuration\n\n- **Protocol**: "@ + c.mpc.protocol
        + " (HoneyBadger MPC)\n- **Parties**: "@ + dec_rep(c.mpc.parties as nat)
        + " (minimum 5 for HoneyBadger)\n- **Field**: "@ + c.mpc.field
        + " (cryptographic field)\n- **Threshold**: "@ + spec_threshold_or_default(c.mpc.threshold)
        + " (max corrupted parties)\n\n## Language Ecosystem\n\nThis project was generated for the **"@
        + template + "** ecosystem.\n\n"@ + spec_readme_info(template)
        + "\n\n## Learn More\n\n- [Stoffel Documentation](https://docs.stoffel.dev)\n- [HoneyBadger Protocol](https://docs.stoffel.dev/honeybadger)\n"@
}

/// Render the README for an application project.
pub fn get_template_readme(config: &StoffelConfig, template: &str) -> (r: String)
    ensures
        r@ == spec_template_readme(config@, template@),
{
    let mut s = String::from_str("# ");
    s.append(config.package.name.as_str());
    s.append("\n\n");
    let description = description_or(&config.package.description, "A Stoffel MPC application");
    s.append(description.as_str());
    s.append("\n\n## Quick Start\n\n");
    s.append(readme_quickstart(template));
    s.append("\n\n## Configuration\n\n- **Protocol**: ");
    s.append(config.mpc.protocol.as_str());
    s.append(" (HoneyBadger MPC)\n- **Parties**: ");
    let parties = u8_to_string(config.mpc.parties);
    s.append(parties.as_str());
    s.append(" (minimum 5 for HoneyBadger)\n- **Field**: ");
    s.append(config.mpc.field.as_str());
    s.append(" (cryptographic field)\n- **Threshold**: ");
    let threshold = threshold_or_default(&config.mpc.threshold);
    s.append(threshold.as_str());
    s.append(" (max corrupted parties)\n\n## Language Ecosystem\n\nThis project was generated for the **");
    s.append(template);
    s.append("** ecosystem.\n\n");
    s.append(readme_info(template));
    s.append(
        "\n\n## Learn More\n\n- [Stoffel Documentation](https://docs.stoffel.dev)\n- [HoneyBadger Protocol](https://docs.stoffel.dev/honeybadger)\n",
    );
    assert(s@ =~= spec_template_readme(config@, template@));
    s
}

/// One planned file: where it goes, relative to the project root, and
/// what it holds.
#[derive(Debug)]
pub struct ScaffoldFile {
    pub path: String,
    pub content: String,
}

/// The mathematical image of a planned file.
#[verifier::ext_equal]
pub struct FileView {
    pub path: Seq<char>,
    pub content: Seq<char>,
}

impl View for ScaffoldFile {
    type V = FileView;

    open spec fn view(&self) -> FileView {
        FileView { path: self.path@, content: self.content@ }
    }
}

impl DeepView for ScaffoldFile {
    type V = FileView;

    open spec fn deep_view(&self) -> FileView {
        self.view()
    }
}

/// The file set of a library project: the entry point and a README.
pub open spec fn spec_library_files(c: ConfigView) -> Seq<FileView> {
    seq![
        FileView { path: "src/lib.stfl"@, content: spec_library_source() },
        FileView { path: "README.md"@, content: spec_library_readme(c) },
    ]
}

/// Plan the file set of a library project.
pub fn library_structure_files(config: &StoffelConfig) -> (r: Vec<ScaffoldFile>)
    ensures
        r.deep_view() == spec_library_files(config@),
{
    let mut r: Vec<ScaffoldFile> = Vec::new();
    r.push(
        ScaffoldFile {
            path: String::from_str("src/lib.stfl"),
            content: String::from_str(
                "// Stoffel Library\n// This library provides privacy-preserving computation functions\n\n// Example function for secure computation\nfn secure_add(a: SecretInt, b: SecretInt) -> SecretInt {\n    return a + b;\n}\n\n// Export main functions\nexport { secure_add };\n",
            ),
        },
    );
    r.push(
        ScaffoldFile { path: String::from_str("README.md"), content: library_readme(config) },
    );
    assert(r.deep_view() =~~= spec_library_files(config@));
    r
}

/// The file set of a Python project: the build configuration, the SDK
/// entry point, the StoffelLang program, and a test file, each with every
/// placeholder substituted.
pub open spec fn spec_python_files(c: ConfigView) -> Seq<FileView> {
    seq![
        FileView { path: "pyproject.toml"@, content: spec_substitute(python_pyproject_text(), c) },
        FileView { path: "src/main.py"@, content: spec_substitute(python_main_text(), c) },
        FileView {
            path: "src/secure_computation.stfl"@,
            content: spec_substitute(python_stfl_text(), c),
        },
        FileView { path: "tests/test_main.py"@, content: spec_substitute(python_test_text(), c) },
    ]
}

/// Load a registered Python template body; the registry lookup cannot
/// fail for a file the caller knows is registered.
fn load_python_template(file_name: &str) -> (r: String)
    requires
        crate::templates::spec_embedded_template("python"@, file_name@) is Some,
    ensures
        Some(r@) == crate::templates::spec_embedded_template("python"@, file_name@),
{
    match load_template("python", file_name) {
        Ok(t) => t,
        Err(_) => {
            assert(false);
            String::new()
        },
    }
}

/// Plan the file set of a Python project.
pub fn python_project_files(config: &StoffelConfig) -> (r: Vec<ScaffoldFile>)
    ensures
        r.deep_view() == spec_python_files(config@),
{
    proof {
        crate::templates::lemma_python_template_table();
    }
    let mut r: Vec<ScaffoldFile> = Vec::new();
    let pyproject = load_python_template("pyproject.toml");
    r.push(
        ScaffoldFile {
            path: String::from_str("pyproject.toml"),
            content: substitute_template_vars(pyproject.as_str(), config),
        },
    );
    let main_py = load_python_template("main.py");
    r.push(
        ScaffoldFile {
            path: String::from_str("src/main.py"),
            content: substitute_template_vars(main_py.as_str(), config),
        },
    );
    let stfl = load_python_template("secure_computation.stfl");
    r.push(
        ScaffoldFile {
            path: String::from_str("src/secure_computation.stfl"),
            content: substitute_template_vars(stfl.as_str(), config),
        },
    );
    let test_py = load_python_template("test_main.py");
    r.push(
        ScaffoldFile {
            path: String::from_str("tests/test_main.py"),
            content: substitute_template_vars(test_py.as_str(), config),
        },
    );
    assert(r.deep_view() =~~= spec_python_files(config@));
    r
}

/// The file set of a Rust project.
pub open spec fn spec_rust_files(c: ConfigView) -> Seq<FileView> {
    seq![
        FileView { path: "Cargo.toml"@, content: spec_rust_cargo(c) },
        FileView { path: "src/main.rs"@, content: spec_rust_main(c) },
    ]
}

/// Plan the file set of a Rust project.
pub fn rust_project_files(config: &StoffelConfig) -> (r: Vec<ScaffoldFile>)
    ensures
        r.deep_view() == spec_rust_files(config@),
{
    let mut r: Vec<ScaffoldFile> = Vec::new();
    r.push(ScaffoldFile { path: String::from_str("Cargo.toml"), content: rust_cargo(config) });
    r.push(ScaffoldFile { path: String::from_str("src/main.rs"), content: rust_main(config) });
    assert(r.deep_view() =~~= spec_rust_files(config@));
    r
}

/// The file set of a TypeScript project.
pub open spec fn spec_typescript_files(c: ConfigView) -> Seq<FileView> {
    seq![
        FileView { path: "package.json"@, content: spec_ts_package(c) },
        FileView { path: "tsconfig.json"@, content: spec_ts_config() },
        FileView { path: "src/main.ts"@, content: spec_ts_main(c) },
    ]
}

/// Plan the file set of a TypeScript project.
pub fn typescript_project_files(config: &StoffelConfig) -> (r: Vec<ScaffoldFile>)
    ensures
        r.deep_view() == spec_typescript_files(config@),
{
    let mut r: Vec<ScaffoldFile> = Vec::new();
    r.push(ScaffoldFile { path: String::from_str("package.json"), content: ts_package(config) });
    r.push(
        ScaffoldFile {
            path: String::from_str("tsconfig.json"),
            content: String::from_str(
                "{\n  \"compilerOptions\": {\n    \"target\": \"ES2020\",\n    \"module\": \"commonjs\",\n    \"outDir\": \"./dist\",\n    \"rootDir\": \"./src\",\n    \"strict\": true,\n    \"esModuleInterop\": true,\n    \"skipLibCheck\": true,\n    \"forceConsistentCasingInFileNames\": true\n  }\n}\n",
            ),
        },
    );
    r.push(ScaffoldFile { path: String::from_str("src/main.ts"), content: ts_main(config) });
    assert(r.deep_view() =~~= spec_typescript_files(config@));
    r
}

/// The file set of a Solidity project.
pub open spec fn spec_solidity_files(c: ConfigView) -> Seq<FileView> {
    seq![
        FileView { path: "hardhat.config.js"@, content: spec_sol_hardhat() },
        FileView { path: "package.json"@, content: spec_sol_package(c) },
        FileView { path: "contracts/StoffelMPC.sol"@, content: spec_sol_contract(c) },
        FileView { path: "scripts/deploy.js"@, content: spec_sol_deploy() },
    ]
}

/// Plan the file set of a Solidity project.
pub fn solidity_project_files(config: &StoffelConfig) -> (r: Vec<ScaffoldFile>)
    ensures
        r.deep_view() == spec_solidity_files(config@),
{
    let mut r: Vec<ScaffoldFile> = Vec::new();
    r.push(
        ScaffoldFile {
            path: String::from_str("hardhat.config.js"),
            content: String::from_str(
                "require(\"@nomicfoundation/hardhat-toolbox\");\n\n/** @type import('hardhat/config').HardhatUserConfig */\nmodule.exports = {\n  solidity: \"0.8.20\",\n  networks: {\n    hardhat: {},\n    stoffel: {\n      url: \"http://localhost:8545\",\n      accounts: []\n    }\n  }\n};\n",
            ),
        },
    );
    r.push(ScaffoldFile { path: String::from_str("package.json"), content: sol_package(config) });
    r.push(
        ScaffoldFile {
            path: String::from_str("contracts/StoffelMPC.sol"),
            content: sol_contract(config),
        },
    );
    r.push(
        ScaffoldFile {
            path: String::from_str("scripts/deploy.js"),
            content: String::from_str(
                "// Deploy script for Stoffel MPC contracts\nconst hre = require(\"hardhat\");\n\nasync function main() {\n  console.log(\"Deploying Stoffel MPC contracts...\");\n\n  const StoffelMPC = await hre.ethers.getContractFactory(\"StoffelMPC\");\n  const stoffelMPC = await StoffelMPC.deploy();\n\n  await stoffelMPC.deployed();\n  console.log(\"StoffelMPC deployed to:\", stoffelMPC.address);\n}\n\nmain()\n  .then(() => process.exit(0))\n  .catch((error) => {\n    console.error(error);\n    process.exit(1);\n  });\n",
            ),
        },
    );
    assert(r.deep_view() =~~= spec_solidity_files(config@));
    r
}

/// The file set of a pure StoffelLang project.
pub open spec fn spec_stoffel_files(c: ConfigView) -> Seq<FileView> {
    seq![
        FileView { path: "src/main.stfl"@, content: spec_stoffel_main(c) },
        FileView { path: "tests/integration.stfl"@, content: spec_stoffel_test() },
    ]
}

/// Plan the file set of a pure StoffelLang project.
pub fn stoffel_project_files(config: &StoffelConfig) -> (r: Vec<ScaffoldFile>)
    ensures
        r.deep_view() == spec_stoffel_files(config@),
{
    let mut r: Vec<ScaffoldFile> = Vec::new();
    r.push(ScaffoldFile { path: String::from_str("src/main.stfl"), content: stoffel_main(config) });
    r.push(
        ScaffoldFile {
            path: String::from_str("tests/integration.stfl"),
            content: String::from_str(
                "# Integration tests for StoffelLang MPC\n\n# Test the secure computation function\nproc test_secure_computation() =\n  let x: secret int64 = 10\n  let y: secret int64 = 5\n  let result = secure_computation(x, y)\n  print(\"Secure computation test completed\")\n\n# Test with different values\nproc test_computation_variants() =\n  let a: secret int64 = 20\n  let b: secret int64 = 3\n  let output = secure_computation(a, b)\n  print(\"Computation variant test completed\")\n\n# Run all tests\nproc run_tests() =\n  print(\"Starting StoffelLang tests\")\n  test_secure_computation()\n  test_computation_variants()\n  print(\"All tests completed\")\n",
            ),
        },
    );
    assert(r.deep_view() =~~= spec_stoffel_files(config@));
    r
}

/// The ecosystem-specific file set for an application project; any
/// unrecognized template name falls back to pure StoffelLang.
pub open spec fn spec_ecosystem_files(c: ConfigView, template: Seq<char>) -> Seq<FileView> {
    if template == "python"@ {
        spec_python_files(c)
    } else if template == "rust"@ {
        spec_rust_files(c)
    } else if template == "typescript"@ {
        spec_typescript_files(c)
    } else if template == "solidity"@ {
        spec_solidity_files(c)
    } else {
        spec_stoffel_files(c)
    }
}

/// The full file set of an application project: the ecosystem's files
/// followed by the generated README.
pub open spec fn spec_application_files(c: ConfigView, template: Seq<char>) -> Seq<FileView> {
    spec_ecosystem_files(c, template).push(
        FileView { path: "README.md"@, content: spec_template_readme(c, template) },
    )
}

/// Plan the full file set of an application project.
pub fn project_structure_files(config: &StoffelConfig, template: &str) -> (r: Vec<ScaffoldFile>)
    ensures
        r.deep_view() == spec_application_files(config@, template@),
{
    let mut r: Vec<ScaffoldFile>;
    if str_eq(template, "python") {
        r = python_project_files(config);
    } else if str_eq(template, "rust") {
        r = rust_project_files(config);
    } else if str_eq(template, "typescript") {
        r = typescript_project_files(config);
    } else if str_eq(template, "solidity") {
        r = solidity_project_files(config);
    } else {
        r = stoffel_project_files(config);
    }
    r.push(
        ScaffoldFile {
            path: String::from_str("README.md"),
            content: get_template_readme(config, template),
        },
    );
    assert(r.deep_view() =~~= spec_application_files(config@, template@));
    r
}

/// The complete planned file set: the manifest first, then the library or
/// application files; a missing template name means pure StoffelLang.
pub open spec fn spec_scaffold_files(
    c: ConfigView,
    is_lib: bool,
    template: Option<Seq<char>>,
) -> Seq<FileView> {
    seq![FileView { path: "Stoffel.toml"@, content: spec_manifest_text(c) }] + (if is_lib {
        spec_library_files(c)
    } else {
        spec_application_files(
            c,
            match template {
                Some(t) => t,
                None => "stoffel"@,
            },
        )
    })
}

/// Plan the complete file set for a project: the manifest always comes
/// first, so the project root is recognizable even if a later write fails.
pub fn create_project_structure(config: &StoffelConfig, is_lib: bool, template: Option<&str>) -> (r:
    Vec<ScaffoldFile>)
    ensures
        r.deep_view() == spec_scaffold_files(
            config@,
            is_lib,
            match template {
                Some(t) => Some(t@),
                None => None,
            },
        ),
{
    let mut r: Vec<ScaffoldFile> = Vec::new();
    r.push(
        ScaffoldFile { path: String::from_str("Stoffel.toml"), content: emit_manifest(config) },
    );
    let mut rest: Vec<ScaffoldFile>;
    if is_lib {
        rest = library_structure_files(config);
    } else {
        let template_name = match template {
            Some(t) => t,
            None => "stoffel",
        };
        rest = project_structure_files(config, template_name);
    }
    let ghost rest_view = rest.deep_view();
    r.append(&mut rest);
    proof {
        if !is_lib && template is None {
            assert(spec_application_files(config@, "stoffel"@) == rest_view);
        }
        assert(r.deep_view() =~~= spec_scaffold_files(
            config@,
            is_lib,
            match template {
                Some(t) => Some(t@),
                None => None,
            },
        ));
    }
    r
}

/// Why project initialization failed before any file was planned.
#[derive(Debug, PartialEq)]
pub enum InitError {
    /// The protocol parameters were rejected.
    Validation(ValidationError),
    /// No project name was given and none could be read off the path.
    NameMissing,
}

impl InitError {
    /// The human-readable description of the failure.
    pub fn message(&self) -> (r: String)
        ensures
            self is NameMissing ==> r@ == "Could not determine project name"@,
            self matches InitError::Validation(e) ==> (e is InvalidPartyCount ==> r@
                == "HoneyBadger protocol requires at least 5 parties"@),
            self matches InitError::Validation(e) ==> (e matches ValidationError::InvalidThreshold {
                parties,
                max_threshold,
                ..
            } ==> r@ == "HoneyBadger protocol requires threshold < n/3. For "@
                + crate::numbers::dec_rep(parties as nat) + " parties, max threshold is "@
                + crate::numbers::dec_rep(max_threshold as nat)),
    {
        match self {
            InitError::NameMissing => String::from_str("Could not determine project name"),
            InitError::Validation(e) => e.message(),
        }
    }
}

/// The characters after the last path separator, the whole text when it
/// has none, and empty when the text ends with a separator.
pub open spec fn spec_after_last_slash(p: Seq<char>) -> Seq<char>
    decreases p.len(),
{
    if p.len() == 0 {
        p
    } else if p.last() == '/' {
        Seq::<char>::empty()
    } else {
        spec_after_last_slash(p.drop_last()).push(p.last())
    }
}

/// When no separator occurs, the whole text is its own last component.
pub proof fn lemma_after_last_slash_none(p: Seq<char>)
    requires
        forall|i: int| 0 <= i < p.len() ==> p[i] != '/',
    ensures
        spec_after_last_slash(p) == p,
    decreases p.len(),
{
    if p.len() > 0 {
        assert(forall|i: int| 0 <= i < p.drop_last().len() ==> p.drop_last()[i] != '/');
        lemma_after_last_slash_none(p.drop_last());
        assert(p.drop_last().push(p.last()) =~= p);
    }
}

/// The last component is what follows the final separator.
pub proof fn lemma_after_last_slash_at(p: Seq<char>, k: int)
    requires
        0 <= k < p.len(),
        p[k] == '/',
        forall|j: int| k < j < p.len() ==> p[j] != '/',
    ensures
        spec_after_last_slash(p) == p.skip(k + 1),
    decreases p.len(),
{
    if k == p.len() - 1 {
        assert(p.last() == '/');
        assert(p.skip(k + 1) =~= Seq::<char>::empty());
    } else {
        assert(p.last() != '/');
        assert(p.drop_last()[k] == '/');
        assert(forall|j: int| k < j < p.drop_last().len() ==> p.drop_last()[j] == p[j]);
        lemma_after_last_slash_at(p.drop_last(), k);
        assert(p.drop_last().skip(k + 1).push(p.last()) =~= p.skip(k + 1));
    }
}

/// The directory the project is created in: an explicit path or the
/// current directory, with an explicit project name appended as a
/// subdirectory.
pub open spec fn spec_project_path(
    name: Option<Seq<char>>,
    path: Option<Seq<char>>,
    current_dir: Seq<char>,
) -> Seq<char> {
    let base = match path {
        Some(p) => p,
        None => current_dir,
    };
    match name {
        Some(n) => base + "/"@ + n,
        None => base,
    }
}

/// Resolve the project directory from the options and the caller's
/// current directory.
pub fn determine_project_path(options: &InitOptions, current_dir: &str) -> (r: String)
    ensures
        r@ == spec_project_path(
            match options.name {
                Some(n) => Some(n@),
                None => None,
            },
            match options.path {
                Some(p) => Some(p@),
                None => None,
            },
            current_dir@,
        ),
{
    let mut base = match &options.path {
        Some(p) => p.clone(),
        None => String::from_str(current_dir),
    };
    match &options.name {
        Some(n) => {
            base.append("/");
            base.append(n.as_str());
            assert(base@ =~= spec_project_path(
                Some(n@),
                match options.path {
                    Some(p) => Some(p@),
                    None => None,
                },
                current_dir@,
            ));
        },
        None => {},
    }
    base
}

/// The path with any trailing separators removed, as `Path::file_name`
/// ignores them.
pub open spec fn spec_trim_trailing_slashes(p: Seq<char>) -> Seq<char>
    decreases p.len(),
{
    if p.len() > 0 && p.last() == '/' {
        spec_trim_trailing_slashes(p.drop_last())
    } else {
        p
    }
}

/// Trimming removes exactly the run of separators at the end.
pub proof fn lemma_trim_trailing_slashes_at(p: Seq<char>, e: int)
    requires
        0 <= e <= p.len(),
        forall|j: int| e <= j < p.len() ==> p[j] == '/',
        e > 0 ==> p[e - 1] != '/',
    ensures
        spec_trim_trailing_slashes(p) == p.subrange(0, e),
    decreases p.len(),
{
    if e == p.len() {
        assert(p.subrange(0, e) =~= p);
    } else {
        assert(p.last() == '/');
        assert(forall|j: int| e <= j < p.drop_last().len() ==> p.drop_last()[j] == p[j]);
        lemma_trim_trailing_slashes_at(p.drop_last(), e);
        assert(p.drop_last().subrange(0, e) =~= p.subrange(0, e));
    }
}

/// The project name that initialization will use, when one can be
/// determined: the explicit name, else the project path's last component
/// (trailing separators ignored) unless that is empty or a parent
/// reference.
pub open spec fn spec_determined_name(name: Option<Seq<char>>, path: Seq<char>) -> Option<
    Seq<char>,
> {
    match name {
        Some(n) => Some(n),
        None => {
            let component = spec_after_last_slash(spec_trim_trailing_slashes(path));
            if component.len() > 0 && component != ".."@ {
                Some(component)
            } else {
                None
            }
        },
    }
}

/// Resolve the project name from the options or the project path.
pub fn determine_project_name(options: &InitOptions, project_path: &str) -> (r: Result<
    String,
    InitError,
>)
    ensures
        match spec_determined_name(
            match options.name {
                Some(n) => Some(n@),
                None => None,
            },
            project_path@,
        ) {
            Some(n) => r is Ok && r->Ok_0@ == n,
            None => r == Result::<String, InitError>::Err(InitError::NameMissing),
        },
{
    match &options.name {
        Some(n) => Ok(n.clone()),
        None => {
            let chars = str_to_chars(project_path);
            let mut n = chars.len();
            while n > 0 && chars[n - 1] == '/'
                invariant
                    n <= chars@.len(),
                    forall|j: int| n <= j < chars@.len() ==> chars@[j] == '/',
                decreases n,
            {
                n = n - 1;
            }
            proof {
                lemma_trim_trailing_slashes_at(chars@, n as int);
            }
            let ghost trimmed = chars@.subrange(0, n as int);
            let mut last_slash: Option<usize> = None;
            let mut i: usize = 0;
            while i < n
                invariant
                    n <= chars@.len(),
                    i <= n,
                    match last_slash {
                        Some(k) => k < i && chars@[k as int] == '/' && (forall|j: int|
                            k < j < i ==> chars@[j] != '/'),
                        None => forall|j: int| 0 <= j < i ==> chars@[j] != '/',
                    },
                decreases n - i,
            {
                if chars[i] == '/' {
                    last_slash = Some(i);
                }
                i = i + 1;
            }
            let component = match last_slash {
                Some(k) => {
                    proof {
                        assert(forall|j: int| 0 <= j < n ==> trimmed[j] == chars@[j]);
                        assert(forall|j: int| (k as int) < j < n ==> trimmed[j] != '/');
                        lemma_after_last_slash_at(trimmed, k as int);
                        assert(trimmed.skip(k + 1) =~= chars@.subrange(k + 1, n as int));
                    }
                    crate::text::subvec(&chars, k + 1, n)
                },
                None => {
                    proof {
                        assert(forall|j: int| 0 <= j < n ==> trimmed[j] == chars@[j]);
                        assert(forall|j: int| 0 <= j < trimmed.len() ==> trimmed[j] != '/');
                        lemma_after_last_slash_none(trimmed);
                        assert(trimmed =~= chars@.subrange(0, n as int));
                    }
                    crate::text::subvec(&chars, 0, n)
                },
            };
            proof {
                assert(component@ =~= spec_after_last_slash(
                    spec_trim_trailing_slashes(project_path@),
                ));
            }
            if component.len() == 0 || crate::text::chars_eq_str(&component, "..") {
                Err(InitError::NameMissing)
            } else {
                Ok(chars_to_string(&component))
            }
        },
    }
}

/// A planned project: where it goes and every file to write there.
#[derive(Debug)]
pub struct ScaffoldPlan {
    pub root: String,
    pub files: Vec<ScaffoldFile>,
}

/// Plan a whole project initialization without touching the filesystem.
///
/// The caller resolves the current directory, the author name (for
/// instance from version-control configuration), and — in interactive
/// mode — the prompt answers; it then creates the returned files under the
/// returned root, in order. Validation failures and a missing project
/// name are reported before any file is planned.
pub fn initialize_project(
    options: InitOptions,
    current_dir: &str,
    author: Option<String>,
    answers: Option<InteractiveAnswers>,
) -> (r: Result<ScaffoldPlan, InitError>)
    requires
        options.interactive ==> answers is Some,
    ensures
        ({
            let path = spec_project_path(
                match options.name {
                    Some(n) => Some(n@),
                    None => None,
                },
                match options.path {
                    Some(p) => Some(p@),
                    None => None,
                },
                current_dir@,
            );
            let nm = spec_determined_name(
                match options.name {
                    Some(n) => Some(n@),
                    None => None,
                },
                path,
            );
            let author_view = match author {
                Some(a) => Some(a@),
                None => None,
            };
            &&& (nm is None ==> r == Result::<ScaffoldPlan, InitError>::Err(
                InitError::NameMissing,
            ))
            &&& (nm is Some && options.interactive && answers->0.parties < 5 ==> r == Result::<
                ScaffoldPlan,
                InitError,
            >::Err(
                InitError::Validation(
                    ValidationError::InvalidPartyCount { parties: answers->0.parties },
                ),
            ))
            &&& (nm is Some && options.interactive && answers->0.parties >= 5 ==> r is Ok
                && r->Ok_0.root@ == path && r->Ok_0.files.deep_view() == spec_scaffold_files(
                spec_interactive_config(
                    answers->0.project_name@,
                    answers->0.description@,
                    answers->0.author@,
                    answers->0.parties,
                    answers->0.field@,
                ),
                options.lib,
                if options.lib {
                    None
                } else {
                    Some(spec_ecosystem_of_choice(answers->0.ecosystem_choice@))
                },
            ))
            &&& (nm is Some && !options.interactive && options.template is Some ==> r is Ok
                && r->Ok_0.root@ == path && r->Ok_0.files.deep_view() == spec_scaffold_files(
                spec_generated_config(
                    nm->0,
                    Some(spec_template_description(options.template->0@)),
                    author_view,
                ),
                options.lib,
                Some(options.template->0@),
            ))
            &&& (nm is Some && !options.interactive && options.template is None ==> r is Ok
                && r->Ok_0.root@ == path && r->Ok_0.files.deep_view() == spec_scaffold_files(
                spec_generated_config(nm->0, Some("A Stoffel MPC application"@), author_view),
                options.lib,
                Some("basic"@),
            ))
        }),
{
    let project_path = determine_project_path(&options, current_dir);
    let project_name = match determine_project_name(&options, project_path.as_str()) {
        Ok(n) => n,
        Err(e) => {
            return Err(e);
        },
    };
    if options.interactive {
        let a = match answers {
            Some(a) => a,
            None => {
                assert(false);
                return Err(InitError::NameMissing);
            },
        };
        let template: Option<String> = if options.lib {
            None
        } else {
            Some(String::from_str(ecosystem_of_choice(a.ecosystem_choice.as_str())))
        };
        let config = match interactive_config(a) {
            Ok(c) => c,
            Err(e) => {
                return Err(InitError::Validation(e));
            },
        };
        let files = match &template {
            Some(t) => create_project_structure(&config, options.lib, Some(t.as_str())),
            None => create_project_structure(&config, options.lib, None),
        };
        Ok(ScaffoldPlan { root: project_path, files })
    } else if options.template.is_some() {
        let template = match &options.template {
            Some(t) => t.clone(),
            None => {
                assert(false);
                String::new()
            },
        };
        let config = template_config(project_name, template.as_str(), author);
        let files = create_project_structure(&config, options.lib, Some(template.as_str()));
        Ok(ScaffoldPlan { root: project_path, files })
    } else {
        let config = default_config(project_name, author);
        let files = create_project_structure(&config, options.lib, Some("basic"));
        Ok(ScaffoldPlan { root: project_path, files })
    }
}

} // verus!
