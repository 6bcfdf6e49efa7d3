//! Template resolution and placeholder substitution.
//!
//! Pre-authored template bodies carry a fixed set of placeholder tokens
//! (package name, version, description, authors, underscored name, protocol,
//! party count, field) that are textually replaced from a configuration.

use vstd::prelude::*;
use vstd::string::StringExecFns;
use crate::config::{ConfigView, StoffelConfig};
use crate::numbers::{dec_rep, u8_to_chars};
use crate::text::{
    chars_to_string, push_str_chars, replace_chars, spec_replace, str_eq, str_to_chars,
};

verus! {

/// A logical template file that does not exist for the requested ecosystem.
#[derive(Debug, PartialEq)]
pub struct TemplateError {
    pub template: String,
    pub file: String,
}

impl TemplateError {
    /// The human-readable description of the missing template file.
    pub fn message(&self) -> (r: String)
        ensures
            r@ == "Template file not found: "@ + self.template@ + "/"@ + self.file@,
    {
        let mut s = String::from_str("Template file not found: ");
        s.append(self.template.as_str());
        s.append("/");
        s.append(self.file.as_str());
        assert(s@ =~= "Template file not found: "@ + self.template@ + "/"@ + self.file@);
        s
    }
}

/// A string wrapped in double quotes.
pub open spec fn spec_quote(s: Seq<char>) -> Seq<char> {
    "\""@ + s + "\""@
}

/// A list of strings, each double quoted, joined by a comma and a space.
pub open spec fn spec_quoted_join(a: Seq<Seq<char>>) -> Seq<char>
    decreases a.len(),
{
    if a.len() == 0 {
        Seq::<char>::empty()
    } else if a.len() == 1 {
        spec_quote(a[0])
    } else {
        spec_quote(a[0]) + ", "@ + spec_quoted_join(a.drop_first())
    }
}

/// Adding one string to a quoted join appends it, with a separator when the
/// list was non-empty.
pub proof fn lemma_quoted_join_push(a: Seq<Seq<char>>, x: Seq<char>)
    ensures
        a.len() == 0 ==> spec_quoted_join(a.push(x)) == spec_quote(x),
        a.len() > 0 ==> spec_quoted_join(a.push(x)) =~= spec_quoted_join(a) + ", "@ + spec_quote(
            x,
        ),
    decreases a.len(),
{
    if a.len() == 0 {
        assert(a.push(x).len() == 1);
        assert(a.push(x)[0] == x);
    } else if a.len() == 1 {
        assert(a.push(x).len() == 2);
        assert(a.push(x)[0] == a[0]);
        assert(a.push(x).drop_first() =~= seq![x]);
        assert(spec_quoted_join(seq![x]) == spec_quote(x));
    } else {
        assert(a.push(x).drop_first() =~= a.drop_first().push(x));
        lemma_quoted_join_push(a.drop_first(), x);
        assert(a.push(x)[0] == a[0]);
    }
}

/// The substituted value of the authors token: the quoted, comma-joined
/// author list, or a quoted `Unknown` when no list is present.
pub open spec fn spec_authors_value(authors: Option<Seq<Seq<char>>>) -> Seq<char> {
    match authors {
        Some(a) => spec_quoted_join(a),
        None => "\"Unknown\""@,
    }
}

/// The substituted value of the description token, with a caller-chosen
/// fallback phrase for an absent description.
pub open spec fn spec_description_or(description: Option<Seq<char>>, default: Seq<char>) -> Seq<
    char,
> {
    match description {
        Some(d) => d,
        None => default,
    }
}

/// Join a list of strings, each double quoted, with comma separators.
pub fn quoted_join(authors: &Vec<String>) -> (r: String)
    ensures
        r@ == spec_quoted_join(authors.deep_view()),
{
    let mut out: Vec<char> = Vec::new();
    let mut i: usize = 0;
    proof {
        assert(authors.deep_view().subrange(0, 0) =~= Seq::<Seq<char>>::empty());
    }
    while i < authors.len()
        invariant
            i <= authors@.len(),
            authors.deep_view().len() == authors@.len(),
            forall|j: int|
                0 <= j < authors@.len() ==> authors.deep_view()[j] == authors@[j]@,
            out@ == spec_quoted_join(authors.deep_view().subrange(0, i as int)),
        decreases authors@.len() - i,
    {
        let ghost prefix = authors.deep_view().subrange(0, i as int);
        if i > 0 {
            push_str_chars(&mut out, ", ");
        }
        push_str_chars(&mut out, "\"");
        push_str_chars(&mut out, authors[i].as_str());
        push_str_chars(&mut out, "\"");
        proof {
            lemma_quoted_join_push(prefix, authors.deep_view()[i as int]);
            assert(prefix.push(authors.deep_view()[i as int]) =~= authors.deep_view().subrange(
                0,
                i + 1,
            ));
            if i == 0 {
                assert(out@ =~= spec_quote(authors.deep_view()[0]));
            } else {
                assert(out@ =~= spec_quoted_join(prefix) + ", "@ + spec_quote(
                    authors.deep_view()[i as int],
                ));
            }
        }
        i = i + 1;
    }
    proof {
        assert(authors.deep_view().subrange(0, authors@.len() as int) =~= authors.deep_view());
    }
    chars_to_string(&out)
}

/// Render the authors token value for an optional author list.
pub fn authors_value(authors: &Option<Vec<String>>) -> (r: String)
    ensures
        r@ == spec_authors_value(
            match authors {
                Some(a) => Some(a.deep_view()),
                None => None,
            },
        ),
{
    match authors {
        Some(a) => quoted_join(a),
        None => String::from_str("\"Unknown\""),
    }
}

/// Render the description token value with the given fallback.
pub fn description_or<'a>(description: &Option<String>, default: &str) -> (r: String)
    ensures
        r@ == spec_description_or(
            match description {
                Some(d) => Some(d@),
                None => None,
            },
            default@,
        ),
{
    match description {
        Some(d) => d.clone(),
        None => String::from_str(default),
    }
}

/// The pre-authored `pyproject.toml` template for the Python ecosystem.
pub open spec fn python_pyproject_text() -> Seq<char> {
    "[tool.poetry]\nname = \"{{package_name}}\"\nversion = \"{{package_version}}\"\ndescription = \"{{package_description}}\"\nauthors = [{{package_authors}}]\nlicense = \"MIT\"\n\n[tool.poetry.dependencies]\npython = \"^3.8\"\nstoffel-python-sdk = { path = \"../stoffel-python-sdk\", develop = true }\n\n[tool.poetry.group.dev.dependencies]\npytest = \"^7.0\"\n\n[build-system]\nrequires = [\"poetry-core\"]\nbuild-backend = \"poetry.core.masonry.api\"\n"@
}

/// The pre-authored `main.py` template for the Python ecosystem.
pub open spec fn python_main_text() -> Seq<char> {
    "\"\"\"{{package_name}} - {{package_description}}\n\nPython SDK integration with the Stoffel MPC framework.\nProtocol: {{mpc_protocol}}, Parties: {{mpc_parties}}, Field: {{mpc_field}}\n\"\"\"\n\nimport asyncio\n\nfrom stoffel import StoffelClient, StoffelProgram\n\n\nasync def main():\n    print(\"=== Stoffel Python MPC Demo ===\")\n\n    program = StoffelProgram(\"src/secure_computation.stfl\")\n    program.compile()\n\n    client = StoffelClient({\n        \"nodes\": [\n            \"http://localhost:9001\",\n            \"http://localhost:9002\",\n            \"http://localhost:9003\",\n            \"http://localhost:9004\",\n            \"http://localhost:9005\",\n        ],\n        \"client_id\": \"{{package_name_underscore}}\",\n        \"program_id\": \"secure_computation\",\n        \"protocol\": \"{{mpc_protocol}}\",\n        \"parties\": {{mpc_parties}},\n        \"field\": \"{{mpc_field}}\",\n    })\n\n    await client.connect()\n    result = await client.execute_with_inputs(\n        {\"secret_value1\": 42, \"secret_value2\": 25},\n        {\"operation\": \"add\"},\n    )\n    print(f\"Computation result: {result}\")\n    await client.disconnect()\n\n\nif __name__ == \"__main__\":\n    asyncio.run(main())\n"@
}

/// The pre-authored StoffelLang program template for the Python ecosystem.
pub open spec fn python_stfl_text() -> Seq<char> {
    "# {{package_name}} - {{package_description}}\n# Protocol: {{mpc_protocol}}, Parties: {{mpc_parties}}, Field: {{mpc_field}}\n\nproc secure_computation(x: secret int64, y: secret int64): secret int64 =\n  let sum = x + y\n  return sum\n\nproc main() =\n  let input_a: secret int64 = get_input(0)\n  let input_b: secret int64 = get_input(1)\n  let result = secure_computation(input_a, input_b)\n  return result\n"@
}

/// The pre-authored test-file template for the Python ecosystem.
pub open spec fn python_test_text() -> Seq<char> {
    "\"\"\"Tests for {{package_name}}.\"\"\"\n\nfrom stoffel import StoffelProgram\n\n\ndef test_program_compiles():\n    program = StoffelProgram(\"src/secure_computation.stfl\")\n    program.compile()\n\n\ndef test_configuration():\n    parties = {{mpc_parties}}\n    assert parties >= 5\n"@
}

/// The template body registered for an (ecosystem, logical file) pair.
pub open spec fn spec_embedded_template(template: Seq<char>, file: Seq<char>) -> Option<Seq<char>> {
    if template == "python"@ && file == "main.py"@ {
        Some(python_main_text())
    } else if template == "python"@ && file == "pyproject.toml"@ {
        Some(python_pyproject_text())
    } else if template == "python"@ && file == "secure_computation.stfl"@ {
        Some(python_stfl_text())
    } else if template == "python"@ && file == "test_main.py"@ {
        Some(python_test_text())
    } else {
        None
    }
}

/// The four Python template bodies are registered under their names.
pub proof fn lemma_python_template_table()
    ensures
        spec_embedded_template("python"@, "main.py"@) == Some(python_main_text()),
        spec_embedded_template("python"@, "pyproject.toml"@) == Some(python_pyproject_text()),
        spec_embedded_template("python"@, "secure_computation.stfl"@) == Some(python_stfl_text()),
        spec_embedded_template("python"@, "test_main.py"@) == Some(python_test_text()),
{
    reveal_strlit("main.py");
    reveal_strlit("pyproject.toml");
    reveal_strlit("secure_computation.stfl");
    reveal_strlit("test_main.py");
    assert("main.py"@.len() == 7);
    assert("pyproject.toml"@.len() == 14);
    assert("secure_computation.stfl"@.len() == 23);
    assert("test_main.py"@.len() == 12);
}

/// Look up the pre-authored template body for an (ecosystem, logical file)
/// pair; fails for any pair without a registered body.
pub fn load_template(template_name: &str, file_name: &str) -> (r: Result<String, TemplateError>)
    ensures
        r is Ok <==> spec_embedded_template(template_name@, file_name@) is Some,
        r is Ok ==> Some(r->Ok_0@) == spec_embedded_template(template_name@, file_name@),
        r is Err ==> r->Err_0.template@ == template_name@ && r->Err_0.file@ == file_name@,
{
    if str_eq(template_name, "python") {
        if str_eq(file_name, "main.py") {
            return Ok(
                String::from_str(
                    "\"\"\"{{package_name}} - {{package_description}}\n\nPython SDK integration with the Stoffel MPC framework.\nProtocol: {{mpc_protocol}}, Parties: {{mpc_parties}}, Field: {{mpc_field}}\n\"\"\"\n\nimport asyncio\n\nfrom stoffel import StoffelClient, StoffelProgram\n\n\nasync def main():\n    print(\"=== Stoffel Python MPC Demo ===\")\n\n    program = StoffelProgram(\"src/secure_computation.stfl\")\n    program.compile()\n\n    client = StoffelClient({\n        \"nodes\": [\n            \"http://localhost:9001\",\n            \"http://localhost:9002\",\n            \"http://localhost:9003\",\n            \"http://localhost:9004\",\n            \"http://localhost:9005\",\n        ],\n        \"client_id\": \"{{package_name_underscore}}\",\n        \"program_id\": \"secure_computation\",\n        \"protocol\": \"{{mpc_protocol}}\",\n        \"parties\": {{mpc_parties}},\n        \"field\": \"{{mpc_field}}\",\n    })\n\n    await client.connect()\n    result = await client.execute_with_inputs(\n        {\"secret_value1\": 42, \"secret_value2\": 25},\n        {\"operation\": \"add\"},\n    )\n    print(f\"Computation result: {result}\")\n    await client.disconnect()\n\n\nif __name__ == \"__main__\":\n    asyncio.run(main())\n",
                ),
            );
        }
        if str_eq(file_name, "pyproject.toml") {
            return Ok(
                String::from_str(
                    "[tool.poetry]\nname = \"{{package_name}}\"\nversion = \"{{package_version}}\"\ndescription = \"{{package_description}}\"\nauthors = [{{package_authors}}]\nlicense = \"MIT\"\n\n[tool.poetry.dependencies]\npython = \"^3.8\"\nstoffel-python-sdk = { path = \"../stoffel-python-sdk\", develop = true }\n\n[tool.poetry.group.dev.dependencies]\npytest = \"^7.0\"\n\n[build-system]\nrequires = [\"poetry-core\"]\nbuild-backend = \"poetry.core.masonry.api\"\n",
                ),
            );
        }
        if str_eq(file_name, "secure_computation.stfl") {
            return Ok(
                String::from_str(
                    "# {{package_name}} - {{package_description}}\n# Protocol: {{mpc_protocol}}, Parties: {{mpc_parties}}, Field: {{mpc_field}}\n\nproc secure_computation(x: secret int64, y: secret int64): secret int64 =\n  let sum = x + y\n  return sum\n\nproc main() =\n  let input_a: secret int64 = get_input(0)\n  let input_b: secret int64 = get_input(1)\n  let result = secure_computation(input_a, input_b)\n  return result\n",
                ),
            );
        }
        if str_eq(file_name, "test_main.py") {
            return Ok(
                String::from_str(
                    "\"\"\"Tests for {{package_name}}.\"\"\"\n\nfrom stoffel import StoffelProgram\n\n\ndef test_program_compiles():\n    program = StoffelProgram(\"src/secure_computation.stfl\")\n    program.compile()\n\n\ndef test_configuration():\n    parties = {{mpc_parties}}\n    assert parties >= 5\n",
                ),
            );
        }
    }
    Err(
        TemplateError {
            template: String::from_str(template_name),
            file: String::from_str(file_name),
        },
    )
}

/// The text after replacing every placeholder token with its value from the
/// configuration, in a fixed order.
pub open spec fn spec_substitute(template: Seq<char>, c: ConfigView) -> Seq<char> {
    let s1 = spec_replace(template, "{{package_name}}"@, c.package.name);
    let s2 = spec_replace(s1, "{{package_version}}"@, c.package.version);
    let s3 = spec_replace(
        s2,
        "{{package_description}}"@,
        spec_description_or(c.package.description, "Stoffel MPC application"@),
    );
    let s4 = spec_replace(s3, "{{package_authors}}"@, spec_authors_value(c.package.authors));
    let s5 = spec_replace(
        s4,
        "{{package_name_underscore}}"@,
        spec_replace(c.package.name, "-"@, "_"@),
    );
    let s6 = spec_replace(s5, "{{mpc_protocol}}"@, c.mpc.protocol);
    let s7 = spec_replace(s6, "{{mpc_parties}}"@, dec_rep(c.mpc.parties as nat));
    spec_replace(s7, "{{mpc_field}}"@, c.mpc.field)
}

/// Substitute every placeholder token in a template body from the
/// configuration.
pub fn substitute_template_vars(template_content: &str, config: &StoffelConfig) -> (r: String)
    ensures
        r@ == spec_substitute(template_content@, config@),
{
    proof {
        reveal_strlit("{{package_name}}");
        reveal_strlit("{{package_version}}");
        reveal_strlit("{{package_description}}");
        reveal_strlit("{{package_authors}}");
        reveal_strlit("{{package_name_underscore}}");
        reveal_strlit("{{mpc_protocol}}");
        reveal_strlit("{{mpc_parties}}");
        reveal_strlit("{{mpc_field}}");
        reveal_strlit("-");
    }
    let s0 = str_to_chars(template_content);
    let name = str_to_chars(config.package.name.as_str());
    let version = str_to_chars(config.package.version.as_str());
    let description = str_to_chars(
        description_or(&config.package.description, "Stoffel MPC application").as_str(),
    );
    let authors = str_to_chars(authors_value(&config.package.authors).as_str());
    let underscore_name = replace_chars(&name, &str_to_chars("-"), &str_to_chars("_"));
    let protocol = str_to_chars(config.mpc.protocol.as_str());
    let parties = u8_to_chars(config.mpc.parties);
    let field = str_to_chars(config.mpc.field.as_str());

    let s1 = replace_chars(&s0, &str_to_chars("{{package_name}}"), &name);
    let s2 = replace_chars(&s1, &str_to_chars("{{package_version}}"), &version);
    let s3 = replace_chars(&s2, &str_to_chars("{{package_description}}"), &description);
    let s4 = replace_chars(&s3, &str_to_chars("{{package_authors}}"), &authors);
    let s5 = replace_chars(&s4, &str_to_chars("{{package_name_underscore}}"), &underscore_name);
    let s6 = replace_chars(&s5, &str_to_chars("{{mpc_protocol}}"), &protocol);
    let s7 = replace_chars(&s6, &str_to_chars("{{mpc_parties}}"), &parties);
    let s8 = replace_chars(&s7, &str_to_chars("{{mpc_field}}"), &field);
    chars_to_string(&s8)
}

} // verus!
