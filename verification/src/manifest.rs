//! The persisted project manifest.
//!
//! The manifest is a small structured text document with `[package]` and
//! `[mpc]` sections plus optional dependency sections. It is the single
//! source of truth that later commands re-read, so this module renders a
//! configuration to manifest text, parses manifest text back, and proves
//! that the two are inverse on well-formed configurations.

use vstd::prelude::*;
use crate::config::{ConfigView, MpcConfig, MpcView, PackageConfig, PackageView, StoffelConfig};
use crate::numbers::{dec_rep, dec_val, is_digit_char, is_digit_seq, parse_u8_chars, u8_to_chars};
use crate::templates::{spec_quote, spec_quoted_join, quoted_join};
use crate::text::{
    append_chars, chars_to_string, chars_eq_str, find_char, first_index_of,
    lemma_first_index_of_append, lemma_first_index_of_props, push_str_chars, str_to_chars, subvec,
};

verus! {

/// A `key = value` line with an already rendered value.
pub open spec fn pair_line(key: Seq<char>, rendered: Seq<char>) -> Seq<char> {
    key + " = "@ + rendered
}

/// A `key = "value"` line.
pub open spec fn quoted_line(key: Seq<char>, value: Seq<char>) -> Seq<char> {
    pair_line(key, spec_quote(value))
}

/// A `key = number` line.
pub open spec fn num_line(key: Seq<char>, n: u8) -> Seq<char> {
    pair_line(key, dec_rep(n as nat))
}

/// A `key = ["a", "b"]` line.
pub open spec fn list_line(key: Seq<char>, items: Seq<Seq<char>>) -> Seq<char> {
    pair_line(key, "["@ + spec_quoted_join(items) + "]"@)
}

/// A `[section]` header line.
pub open spec fn header_line(name: Seq<char>) -> Seq<char> {
    "["@ + name + "]"@
}

/// An empty separator line.
pub open spec fn blank_line() -> Seq<char> {
    Seq::<char>::empty()
}

/// The `key = "value"` lines of a dependency section body.
pub open spec fn dep_lines(pairs: Seq<(Seq<char>, Seq<char>)>) -> Seq<Seq<char>> {
    pairs.map_values(|p: (Seq<char>, Seq<char>)| quoted_line(p.0, p.1))
}

/// The lines of the `[package]` section, optional fields omitted when
/// absent.
pub open spec fn spec_package_lines(p: PackageView) -> Seq<Seq<char>> {
    seq![header_line("package"@), quoted_line("name"@, p.name), quoted_line("version"@, p.version)]
        + (match p.description {
        Some(d) => seq![quoted_line("description"@, d)],
        None => Seq::<Seq<char>>::empty(),
    }) + (match p.authors {
        Some(a) => seq![list_line("authors"@, a)],
        None => Seq::<Seq<char>>::empty(),
    }) + (match p.license {
        Some(l) => seq![quoted_line("license"@, l)],
        None => Seq::<Seq<char>>::empty(),
    })
}

/// The lines of the `[mpc]` section, preceded by a separating blank line.
pub open spec fn spec_mpc_lines(m: MpcView) -> Seq<Seq<char>> {
    seq![
        blank_line(),
        header_line("mpc"@),
        quoted_line("protocol"@, m.protocol),
        num_line("parties"@, m.parties),
    ] + (match m.threshold {
        Some(t) => seq![num_line("threshold"@, t)],
        None => Seq::<Seq<char>>::empty(),
    }) + seq![quoted_line("field"@, m.field)]
}

/// The lines of one optional dependency section.
pub open spec fn spec_dep_section_lines(name: Seq<char>, pairs: Option<Seq<(Seq<char>, Seq<char>)>>)
    -> Seq<Seq<char>> {
    match pairs {
        Some(ps) => seq![blank_line(), header_line(name)] + dep_lines(ps),
        None => Seq::<Seq<char>>::empty(),
    }
}

/// Every line of the rendered manifest, in order.
pub open spec fn spec_manifest_lines(c: ConfigView) -> Seq<Seq<char>> {
    spec_package_lines(c.package) + spec_mpc_lines(c.mpc) + spec_dep_section_lines(
        "dependencies"@,
        c.dependencies,
    ) + spec_dep_section_lines("dev_dependencies"@, c.dev_dependencies)
}

/// Lines joined into one text, each line followed by a newline.
pub open spec fn join_lines(ls: Seq<Seq<char>>) -> Seq<char>
    decreases ls.len(),
{
    if ls.len() == 0 {
        Seq::<char>::empty()
    } else {
        ls[0].push('\n') + join_lines(ls.drop_first())
    }
}

/// Appending one line to a joined text.
pub proof fn lemma_join_lines_push(ls: Seq<Seq<char>>, l: Seq<char>)
    ensures
        join_lines(ls.push(l)) =~= join_lines(ls) + l.push('\n'),
    decreases ls.len(),
{
    if ls.len() == 0 {
        assert(ls.push(l)[0] == l);
        assert(ls.push(l).drop_first() =~= Seq::<Seq<char>>::empty());
        assert(join_lines(Seq::<Seq<char>>::empty()) == Seq::<char>::empty());
        assert(join_lines(ls.push(l)) =~= l.push('\n') + Seq::<char>::empty());
        assert(l.push('\n') + Seq::<char>::empty() =~= l.push('\n'));
        assert(join_lines(ls) + l.push('\n') =~= l.push('\n'));
    } else {
        assert(ls.push(l)[0] == ls[0]);
        assert(ls.push(l).drop_first() =~= ls.drop_first().push(l));
        lemma_join_lines_push(ls.drop_first(), l);
        assert(join_lines(ls.push(l)) =~= ls[0].push('\n') + (join_lines(ls.drop_first())
            + l.push('\n')));
        assert(join_lines(ls) + l.push('\n') =~= ls[0].push('\n') + (join_lines(ls.drop_first())
            + l.push('\n')));
    }
}

/// Joining a concatenation of line lists concatenates the joined texts.
pub proof fn lemma_join_lines_append(a: Seq<Seq<char>>, b: Seq<Seq<char>>)
    ensures
        join_lines(a + b) =~= join_lines(a) + join_lines(b),
    decreases a.len(),
{
    if a.len() == 0 {
        assert(a + b =~= b);
        assert(join_lines(a) + join_lines(b) =~= join_lines(b));
    } else {
        assert((a + b)[0] == a[0]);
        assert((a + b).len() > 0);
        assert((a + b).drop_first() =~= a.drop_first() + b);
        lemma_join_lines_append(a.drop_first(), b);
        assert(join_lines(a + b) =~= a[0].push('\n') + (join_lines(a.drop_first())
            + join_lines(b)));
        assert(join_lines(a) + join_lines(b) =~= a[0].push('\n') + (join_lines(a.drop_first())
            + join_lines(b)));
    }
}

/// The text split at newlines; a trailing newline yields no extra line.
pub open spec fn split_lines(s: Seq<char>) -> Seq<Seq<char>>
    decreases s.len(),
{
    if s.len() == 0 {
        Seq::<Seq<char>>::empty()
    } else {
        match first_index_of(s, '\n') {
            None => seq![s],
            Some(i) => if 0 <= i < s.len() {
                seq![s.subrange(0, i)] + split_lines(s.skip(i + 1))
            } else {
                seq![s]
            },
        }
    }
}

/// Whether a line may stand in a joined text: it holds no newline.
pub open spec fn line_wf(l: Seq<char>) -> bool {
    !l.contains('\n')
}

/// Splitting a joined text recovers exactly the lines that were joined,
/// provided no line holds a newline itself.
pub proof fn lemma_split_join_lines(ls: Seq<Seq<char>>)
    requires
        forall|i: int| 0 <= i < ls.len() ==> line_wf(#[trigger] ls[i]),
    ensures
        split_lines(join_lines(ls)) =~= ls,
    decreases ls.len(),
{
    if ls.len() > 0 {
        let l = ls[0];
        let rest = join_lines(ls.drop_first());
        let s = join_lines(ls);
        assert(s =~= l + (seq!['\n'] + rest));
        assert(l.push('\n') + rest =~= l + (seq!['\n'] + rest));
        assert(forall|i: int| 0 <= i < l.len() ==> l[i] != '\n') by {
            assert(line_wf(l));
            assert(forall|i: int| 0 <= i < l.len() ==> l[i] != '\n' || l.contains(l[i]));
        }
        lemma_first_index_of_append(l, seq!['\n'] + rest, '\n');
        assert(first_index_of(seq!['\n'] + rest, '\n') == Some(0int));
        assert(first_index_of(s, '\n') == Some(l.len() as int));
        assert(s.subrange(0, l.len() as int) =~= l);
        assert(s.skip(l.len() as int + 1) =~= rest);
        assert(forall|i: int|
            0 <= i < ls.drop_first().len() ==> line_wf(#[trigger] ls.drop_first()[i]));
        lemma_split_join_lines(ls.drop_first());
        assert(split_lines(s) =~= seq![l] + ls.drop_first());
        assert(seq![l] + ls.drop_first() =~= ls);
    }
}

/// The full rendered manifest text for a configuration.
pub open spec fn spec_manifest_text(c: ConfigView) -> Seq<char> {
    join_lines(spec_manifest_lines(c))
}

/// Which manifest section the parser is inside.
#[derive(Clone, Copy, Debug, PartialEq, Eq, Structural)]
pub enum Section {
    /// Before any section header.
    Top,
    Package,
    Mpc,
    Dependencies,
    DevDependencies,
    /// An unrecognized section, whose entries are ignored.
    Other,
}

/// The shape of one manifest line.
pub enum LineShape {
    Blank,
    Header(Seq<char>),
    Pair(Seq<char>, Seq<char>),
    Bad,
}

/// The shape of one rendered value.
pub enum ValueShape {
    VStr(Seq<char>),
    VNum(nat),
    VList(Seq<Seq<char>>),
    VBad,
}

/// Classify one line: blank, a `[section]` header, or a `key = value`
/// pair whose key is non-empty and holds no space.
pub open spec fn classify_line(l: Seq<char>) -> LineShape {
    if l.len() == 0 {
        LineShape::Blank
    } else if l[0] == '[' {
        if l.len() >= 2 && l.last() == ']' {
            LineShape::Header(l.subrange(1, l.len() - 1))
        } else {
            LineShape::Bad
        }
    } else {
        match first_index_of(l, ' ') {
            None => LineShape::Bad,
            Some(k) => if 0 < k && k + 3 <= l.len() && l[k + 1] == '=' && l[k + 2] == ' ' {
                LineShape::Pair(l.subrange(0, k), l.skip(k + 3))
            } else {
                LineShape::Bad
            },
        }
    }
}

/// Parse a bracketed list body: double-quoted strings joined by `", "`.
pub open spec fn parse_str_list(s: Seq<char>) -> Option<Seq<Seq<char>>>
    decreases s.len(),
{
    if s.len() == 0 {
        Some(Seq::<Seq<char>>::empty())
    } else if s[0] != '"' {
        None
    } else {
        match first_index_of(s.skip(1), '"') {
            None => None,
            Some(j) => if 0 <= j < s.len() - 1 {
                let item = s.skip(1).subrange(0, j);
                let rest = s.skip(1).skip(j + 1);
                if rest.len() == 0 {
                    Some(seq![item])
                } else if rest.len() >= 2 && rest[0] == ',' && rest[1] == ' ' {
                    match parse_str_list(rest.skip(2)) {
                        Some(more) => Some(seq![item] + more),
                        None => None,
                    }
                } else {
                    None
                }
            } else {
                None
            },
        }
    }
}

/// Parse a rendered value: a quoted string, a decimal number, or a
/// bracketed list of quoted strings.
pub open spec fn parse_value(v: Seq<char>) -> ValueShape {
    if v.len() >= 2 && v[0] == '"' && v.last() == '"' && !v.subrange(1, v.len() - 1).contains(
        '"',
    ) {
        ValueShape::VStr(v.subrange(1, v.len() - 1))
    } else if v.len() >= 1 && is_digit_seq(v) {
        ValueShape::VNum(dec_val(v))
    } else if v.len() >= 2 && v[0] == '[' && v.last() == ']' {
        match parse_str_list(v.subrange(1, v.len() - 1)) {
            Some(items) => ValueShape::VList(items),
            None => ValueShape::VBad,
        }
    } else {
        ValueShape::VBad
    }
}

/// The parser's accumulated fields.
#[verifier::ext_equal]
pub struct ParseFields {
    pub section: Section,
    pub name: Option<Seq<char>>,
    pub version: Option<Seq<char>>,
    pub description: Option<Seq<char>>,
    pub authors: Option<Seq<Seq<char>>>,
    pub license: Option<Seq<char>>,
    pub protocol: Option<Seq<char>>,
    pub parties: Option<u8>,
    pub threshold: Option<u8>,
    pub field: Option<Seq<char>>,
    pub deps: Option<Seq<(Seq<char>, Seq<char>)>>,
    pub dev_deps: Option<Seq<(Seq<char>, Seq<char>)>>,
}

/// The parser's starting state.
pub open spec fn init_fields() -> ParseFields {
    ParseFields {
        section: Section::Top,
        name: None,
        version: None,
        description: None,
        authors: None,
        license: None,
        protocol: None,
        parties: None,
        threshold: None,
        field: None,
        deps: None,
        dev_deps: None,
    }
}

/// The state after a section header: recognized names switch the section
/// (creating an empty dependency mapping on first sight), anything else is
/// carried as unrecognized.
pub open spec fn enter_section(st: ParseFields, h: Seq<char>) -> ParseFields {
    if h == "package"@ {
        ParseFields { section: Section::Package, ..st }
    } else if h == "mpc"@ {
        ParseFields { section: Section::Mpc, ..st }
    } else if h == "dependencies"@ {
        ParseFields {
            section: Section::Dependencies,
            deps: Some(
                match st.deps {
                    Some(d) => d,
                    None => Seq::<(Seq<char>, Seq<char>)>::empty(),
                },
            ),
            ..st
        }
    } else if h == "dev_dependencies"@ {
        ParseFields {
            section: Section::DevDependencies,
            dev_deps: Some(
                match st.dev_deps {
                    Some(d) => d,
                    None => Seq::<(Seq<char>, Seq<char>)>::empty(),
                },
            ),
            ..st
        }
    } else {
        ParseFields { section: Section::Other, ..st }
    }
}

/// The state after a `key = value` pair, by section. Recognized keys
/// demand the right value shape; unrecognized keys outside the dependency
/// sections are ignored; inside them every pair must be a quoted string.
pub open spec fn apply_pair(st: ParseFields, k: Seq<char>, v: Seq<char>) -> Option<ParseFields> {
    match st.section {
        Section::Package => {
            if k == "name"@ {
                match parse_value(v) {
                    ValueShape::VStr(s) => Some(ParseFields { name: Some(s), ..st }),
                    _ => None,
                }
            } else if k == "version"@ {
                match parse_value(v) {
                    ValueShape::VStr(s) => Some(ParseFields { version: Some(s), ..st }),
                    _ => None,
                }
            } else if k == "description"@ {
                match parse_value(v) {
                    ValueShape::VStr(s) => Some(ParseFields { description: Some(s), ..st }),
                    _ => None,
                }
            } else if k == "license"@ {
                match parse_value(v) {
                    ValueShape::VStr(s) => Some(ParseFields { license: Some(s), ..st }),
                    _ => None,
                }
            } else if k == "authors"@ {
                match parse_value(v) {
                    ValueShape::VList(items) => Some(ParseFields { authors: Some(items), ..st }),
                    _ => None,
                }
            } else {
                Some(st)
            }
        },
        Section::Mpc => {
            if k == "protocol"@ {
                match parse_value(v) {
                    ValueShape::VStr(s) => Some(ParseFields { protocol: Some(s), ..st }),
                    _ => None,
                }
            } else if k == "field"@ {
                match parse_value(v) {
                    ValueShape::VStr(s) => Some(ParseFields { field: Some(s), ..st }),
                    _ => None,
                }
            } else if k == "parties"@ {
                match parse_value(v) {
                    ValueShape::VNum(n) => if n <= 255 {
                        Some(ParseFields { parties: Some(n as u8), ..st })
                    } else {
                        None
                    },
                    _ => None,
                }
            } else if k == "threshold"@ {
                match parse_value(v) {
                    ValueShape::VNum(n) => if n <= 255 {
                        Some(ParseFields { threshold: Some(n as u8), ..st })
                    } else {
                        None
                    },
                    _ => None,
                }
            } else {
                Some(st)
            }
        },
        Section::Dependencies => {
            match parse_value(v) {
                ValueShape::VStr(s) => Some(
                    ParseFields {
                        deps: Some(
                            match st.deps {
                                Some(d) => d.push((k, s)),
                                None => seq![(k, s)],
                            },
                        ),
                        ..st
                    },
                ),
                _ => None,
            }
        },
        Section::DevDependencies => {
            match parse_value(v) {
                ValueShape::VStr(s) => Some(
                    ParseFields {
                        dev_deps: Some(
                            match st.dev_deps {
                                Some(d) => d.push((k, s)),
                                None => seq![(k, s)],
                            },
                        ),
                        ..st
                    },
                ),
                _ => None,
            }
        },
        _ => Some(st),
    }
}

/// The state after one line, or `None` on a malformed line.
pub open spec fn step_line(st: ParseFields, l: Seq<char>) -> Option<ParseFields> {
    match classify_line(l) {
        LineShape::Blank => Some(st),
        LineShape::Header(h) => Some(enter_section(st, h)),
        LineShape::Pair(k, v) => apply_pair(st, k, v),
        LineShape::Bad => None,
    }
}

/// The state after a list of lines, or `None` once any line is malformed.
pub open spec fn interp_lines(st: ParseFields, ls: Seq<Seq<char>>) -> Option<ParseFields>
    decreases ls.len(),
{
    if ls.len() == 0 {
        Some(st)
    } else {
        match step_line(st, ls[0]) {
            None => None,
            Some(st2) => interp_lines(st2, ls.drop_first()),
        }
    }
}

/// Interpreting a concatenation of line lists chains the interpretations.
pub proof fn lemma_interp_lines_append(st: ParseFields, a: Seq<Seq<char>>, b: Seq<Seq<char>>)
    ensures
        interp_lines(st, a + b) == match interp_lines(st, a) {
            Some(m) => interp_lines(m, b),
            None => None::<ParseFields>,
        },
    decreases a.len(),
{
    if a.len() == 0 {
        assert(a + b =~= b);
    } else {
        assert((a + b)[0] == a[0]);
        assert((a + b).len() > 0);
        assert((a + b).drop_first() =~= a.drop_first() + b);
        match step_line(st, a[0]) {
            None => {},
            Some(st2) => {
                lemma_interp_lines_append(st2, a.drop_first(), b);
            },
        }
    }
}

/// Turn a completed parse into a configuration; the required fields are
/// the package name and version and the protocol, party count, and field.
pub open spec fn finalize_fields(st: ParseFields) -> Option<ConfigView> {
    if st.name is Some && st.version is Some && st.protocol is Some && st.parties is Some
        && st.field is Some {
        Some(
            ConfigView {
                package: PackageView {
                    name: st.name->0,
                    version: st.version->0,
                    description: st.description,
                    authors: st.authors,
                    license: st.license,
                },
                mpc: MpcView {
                    protocol: st.protocol->0,
                    parties: st.parties->0,
                    threshold: st.threshold,
                    field: st.field->0,
                },
                dependencies: st.deps,
                dev_dependencies: st.dev_deps,
            },
        )
    } else {
        None
    }
}

/// The configuration a manifest text parses to, if it is well formed.
pub open spec fn spec_parse_manifest(s: Seq<char>) -> Option<ConfigView> {
    match interp_lines(init_fields(), split_lines(s)) {
        Some(st) => finalize_fields(st),
        None => None,
    }
}

/// Split a character vector into its lines.
fn split_lines_exec(v: &Vec<char>) -> (r: Vec<Vec<char>>)
    ensures
        r.deep_view() == split_lines(v@),
{
    let mut lines: Vec<Vec<char>> = Vec::new();
    let mut buf: Vec<char> = Vec::new();
    let mut i: usize = 0;
    proof {
        assert(v@.skip(0) =~= v@);
        assert(lines.deep_view() =~= Seq::<Seq<char>>::empty());
        assert(Seq::<Seq<char>>::empty() + split_lines(v@) =~= split_lines(v@));
    }
    while i < v.len()
        invariant
            i <= v@.len(),
            buf@.len() <= i,
            buf@ == v@.subrange(i - buf@.len(), i as int),
            forall|j: int| i - buf@.len() <= j < i ==> v@[j] != '\n',
            split_lines(v@) == lines.deep_view() + split_lines(v@.skip(i - buf@.len())),
        decreases v@.len() - i,
    {
        let ghost start = i - buf@.len();
        let ghost s = v@.skip(start);
        if v[i] == '\n' {
            proof {
                assert(s =~= buf@ + v@.skip(i as int));
                assert(v@.skip(i as int)[0] == '\n');
                assert(first_index_of(v@.skip(i as int), '\n') == Some(0int));
                assert(forall|j: int| 0 <= j < buf@.len() ==> buf@[j] != '\n');
                lemma_first_index_of_append(buf@, v@.skip(i as int), '\n');
                assert(first_index_of(s, '\n') == Some(buf@.len() as int));
                assert(s.subrange(0, buf@.len() as int) =~= buf@);
                assert(s.skip(buf@.len() as int + 1) =~= v@.skip(i + 1));
                assert(split_lines(s) == seq![buf@] + split_lines(v@.skip(i + 1)));
            }
            let ghost lines0 = lines.deep_view();
            let ghost buf_view = buf@;
            lines.push(buf);
            buf = Vec::new();
            proof {
                assert(lines.deep_view() =~~= lines0.push(buf_view));
                assert(lines0.push(buf_view) =~= lines0 + seq![buf_view]);
                assert(lines.deep_view() + split_lines(v@.skip(i + 1)) =~= lines0 + split_lines(
                    s,
                ));
            }
            i = i + 1;
            proof {
                assert(buf@ =~= v@.subrange(i - buf@.len(), i as int));
            }
        } else {
            buf.push(v[i]);
            i = i + 1;
            proof {
                assert(buf@ =~= v@.subrange(i - buf@.len(), i as int));
            }
        }
    }
    let ghost start = i - buf@.len();
    let ghost s = v@.skip(start);
    if buf.len() > 0 {
        proof {
            assert(s =~= buf@);
            lemma_first_index_of_props(s, '\n');
            if first_index_of(s, '\n') is Some {
                let k = first_index_of(s, '\n')->0;
                assert(s[k] == '\n');
                assert(false);
            }
            assert(split_lines(s) == seq![s]);
        }
        let ghost lines0 = lines.deep_view();
        let ghost buf_view = buf@;
        lines.push(buf);
        proof {
            assert(lines.deep_view() =~~= lines0.push(buf_view));
            assert(lines0 + split_lines(s) =~= lines0.push(buf_view));
        }
    } else {
        proof {
            assert(s =~= Seq::<char>::empty());
            assert(split_lines(s) =~= Seq::<Seq<char>>::empty());
            assert(lines.deep_view() + Seq::<Seq<char>>::empty() =~= lines.deep_view());
        }
    }
    lines
}

/// The shape of one line, carried with its pieces.
pub enum LineClass {
    Blank,
    Header(Vec<char>),
    Pair(Vec<char>, Vec<char>),
    Bad,
}

impl View for LineClass {
    type V = LineShape;

    open spec fn view(&self) -> LineShape {
        match self {
            LineClass::Blank => LineShape::Blank,
            LineClass::Header(h) => LineShape::Header(h@),
            LineClass::Pair(k, v) => LineShape::Pair(k@, v@),
            LineClass::Bad => LineShape::Bad,
        }
    }
}

/// Classify one line.
fn classify_exec(l: &Vec<char>) -> (c: LineClass)
    ensures
        c@ == classify_line(l@),
{
    let n = l.len();
    if n == 0 {
        return LineClass::Blank;
    }
    if l[0] == '[' {
        if n >= 2 && l[n - 1] == ']' {
            let inner = subvec(l, 1, n - 1);
            proof {
                assert(l@.last() == l@[n - 1]);
            }
            return LineClass::Header(inner);
        }
        return LineClass::Bad;
    }
    match find_char(l, ' ') {
        None => LineClass::Bad,
        Some(k) => {
            proof {
                lemma_first_index_of_props(l@, ' ');
            }
            if 0 < k && n - k >= 3 && l[k + 1] == '=' && l[k + 2] == ' ' {
                let key = subvec(l, 0, k);
                let value = subvec(l, k + 3, n);
                proof {
                    assert(value@ =~= l@.skip(k + 3));
                }
                LineClass::Pair(key, value)
            } else {
                LineClass::Bad
            }
        },
    }
}

/// The shape of one value, carried with its pieces; numbers too large for
/// a `u8` are kept only as a fact.
pub enum ValueClass {
    VStr(Vec<char>),
    VNumSmall(u8),
    VNumBig,
    VList(Vec<String>),
    VBad,
}

/// Whether an executable value classification agrees with the parsed
/// shape of a value.
pub open spec fn value_class_matches(c: ValueClass, s: ValueShape) -> bool {
    match c {
        ValueClass::VStr(x) => s == ValueShape::VStr(x@),
        ValueClass::VNumSmall(n) => s == ValueShape::VNum(n as nat),
        ValueClass::VNumBig => s matches ValueShape::VNum(n) && n > 255,
        ValueClass::VList(items) => s == ValueShape::VList(items.deep_view()),
        ValueClass::VBad => s == ValueShape::VBad,
    }
}

/// Whether every character of `v` is a decimal digit.
fn all_digits(v: &Vec<char>) -> (r: bool)
    ensures
        r == is_digit_seq(v@),
{
    let mut i: usize = 0;
    while i < v.len()
        invariant
            i <= v@.len(),
            forall|j: int| 0 <= j < i ==> is_digit_char(v@[j]),
        decreases v@.len() - i,
    {
        if crate::numbers::digit_value(v[i]).is_none() {
            assert(!is_digit_char(v@[i as int]));
            return false;
        }
        i = i + 1;
    }
    true
}

/// Parse a bracketed list body into its quoted items.
fn parse_str_list_exec(s: Vec<char>) -> (r: Option<Vec<String>>)
    ensures
        match parse_str_list(s@) {
            Some(items) => r is Some && r->0.deep_view() == items,
            None => r is None,
        },
    decreases s@.len(),
{
    if s.len() == 0 {
        let empty: Vec<String> = Vec::new();
        assert(empty.deep_view() =~= Seq::<Seq<char>>::empty());
        return Some(empty);
    }
    if s[0] != '"' {
        return None;
    }
    let tail = subvec(&s, 1, s.len());
    proof {
        assert(tail@ =~= s@.skip(1));
    }
    match find_char(&tail, '"') {
        None => None,
        Some(j) => {
            proof {
                lemma_first_index_of_props(tail@, '"');
            }
            let item = subvec(&tail, 0, j);
            let rest = subvec(&tail, j + 1, tail.len());
            proof {
                assert(item@ =~= s@.skip(1).subrange(0, j as int));
                assert(rest@ =~= s@.skip(1).skip(j + 1));
            }
            if rest.len() == 0 {
                let mut out: Vec<String> = Vec::new();
                out.push(chars_to_string(&item));
                assert(out.deep_view() =~= seq![item@]);
                Some(out)
            } else if rest.len() >= 2 && rest[0] == ',' && rest[1] == ' ' {
                let rest_tail = subvec(&rest, 2, rest.len());
                proof {
                    assert(rest_tail@ =~= rest@.skip(2));
                }
                match parse_str_list_exec(rest_tail) {
                    Some(mut more) => {
                        let ghost more_view = more.deep_view();
                        let mut out: Vec<String> = Vec::new();
                        out.push(chars_to_string(&item));
                        out.append(&mut more);
                        assert(out.deep_view() =~= seq![item@] + more_view);
                        Some(out)
                    },
                    None => None,
                }
            } else {
                None
            }
        },
    }
}

/// Classify one rendered value.
fn parse_value_exec(v: Vec<char>) -> (c: ValueClass)
    ensures
        value_class_matches(c, parse_value(v@)),
{
    let n = v.len();
    if n >= 2 && v[0] == '"' && v[n - 1] == '"' {
        let inner = subvec(&v, 1, n - 1);
        proof {
            assert(inner@ =~= v@.subrange(1, n - 1));
            assert(v@.last() == v@[n - 1]);
        }
        match find_char(&inner, '"') {
            None => {
                proof {
                    lemma_first_index_of_props(inner@, '"');
                    assert(!inner@.contains('"')) by {
                        if inner@.contains('"') {
                            let k = choose|k: int|
                                0 <= k < inner@.len() && inner@[k] == '"';
                            assert(inner@[k] == '"');
                        }
                    }
                }
                return ValueClass::VStr(inner);
            },
            Some(k) => {
                proof {
                    lemma_first_index_of_props(inner@, '"');
                    assert(inner@[k as int] == '"');
                    assert(inner@.contains(inner@[k as int]));
                }
                return ValueClass::VBad;
            },
        }
    }
    if n >= 1 && all_digits(&v) {
        match parse_u8_chars(&v) {
            Some(x) => {
                return ValueClass::VNumSmall(x);
            },
            None => {
                return ValueClass::VNumBig;
            },
        }
    }
    if n >= 2 && v[0] == '[' && v[n - 1] == ']' {
        proof {
            assert(v@.last() == v@[n - 1]);
        }
        let inner = subvec(&v, 1, n - 1);
        proof {
            assert(inner@ =~= v@.subrange(1, n - 1));
        }
        match parse_str_list_exec(inner) {
            Some(items) => {
                return ValueClass::VList(items);
            },
            None => {
                return ValueClass::VBad;
            },
        }
    }
    ValueClass::VBad
}

/// The parser's accumulated fields, as executable values.
struct ParseState {
    section: Section,
    name: Option<String>,
    version: Option<String>,
    description: Option<String>,
    authors: Option<Vec<String>>,
    license: Option<String>,
    protocol: Option<String>,
    parties: Option<u8>,
    threshold: Option<u8>,
    field: Option<String>,
    deps: Option<Vec<(String, String)>>,
    dev_deps: Option<Vec<(String, String)>>,
}

impl View for ParseState {
    type V = ParseFields;

    closed spec fn view(&self) -> ParseFields {
        ParseFields {
            section: self.section,
            name: match self.name {
                Some(s) => Some(s@),
                None => None,
            },
            version: match self.version {
                Some(s) => Some(s@),
                None => None,
            },
            description: match self.description {
                Some(s) => Some(s@),
                None => None,
            },
            authors: match self.authors {
                Some(a) => Some(a.deep_view()),
                None => None,
            },
            license: match self.license {
                Some(s) => Some(s@),
                None => None,
            },
            protocol: match self.protocol {
                Some(s) => Some(s@),
                None => None,
            },
            parties: self.parties,
            threshold: self.threshold,
            field: match self.field {
                Some(s) => Some(s@),
                None => None,
            },
            deps: match self.deps {
                Some(d) => Some(crate::config::pairs_view(d@)),
                None => None,
            },
            dev_deps: match self.dev_deps {
                Some(d) => Some(crate::config::pairs_view(d@)),
                None => None,
            },
        }
    }
}

/// Apply one `key = value` pair of a dependency section to the mapping.
fn push_dep_pair(deps: Option<Vec<(String, String)>>, key: String, value: String) -> (r: Vec<
    (String, String),
>)
    ensures
        crate::config::pairs_view(r@) =~= match deps {
            Some(d) => crate::config::pairs_view(d@).push((key@, value@)),
            None => seq![(key@, value@)],
        },
{
    let mut d = match deps {
        Some(d) => d,
        None => Vec::new(),
    };
    d.push((key, value));
    d
}

/// Apply one line to the parser state.
#[verifier::rlimit(60)]
fn apply_line(st: ParseState, l: &Vec<char>) -> (r: Option<ParseState>)
    ensures
        match step_line(st@, l@) {
            Some(f) => r is Some && r->0@ == f,
            None => r is None,
        },
{
    let ghost pre = st@;
    match classify_exec(l) {
        LineClass::Blank => Some(st),
        LineClass::Bad => None,
        LineClass::Header(h) => {
            if chars_eq_str(&h, "package") {
                Some(ParseState { section: Section::Package, ..st })
            } else if chars_eq_str(&h, "mpc") {
                Some(ParseState { section: Section::Mpc, ..st })
            } else if chars_eq_str(&h, "dependencies") {
                let deps = match st.deps {
                    Some(d) => Some(d),
                    None => Some(Vec::new()),
                };
                proof {
                    assert(crate::config::pairs_view(Seq::<(String, String)>::empty())
                        =~= Seq::<(Seq<char>, Seq<char>)>::empty());
                }
                Some(ParseState { section: Section::Dependencies, deps, ..st })
            } else if chars_eq_str(&h, "dev_dependencies") {
                let dev_deps = match st.dev_deps {
                    Some(d) => Some(d),
                    None => Some(Vec::new()),
                };
                proof {
                    assert(crate::config::pairs_view(Seq::<(String, String)>::empty())
                        =~= Seq::<(Seq<char>, Seq<char>)>::empty());
                }
                Some(ParseState { section: Section::DevDependencies, dev_deps, ..st })
            } else {
                Some(ParseState { section: Section::Other, ..st })
            }
        },
        LineClass::Pair(k, v) => {
            match st.section {
                Section::Top => Some(st),
                Section::Other => Some(st),
                Section::Package => {
                    if chars_eq_str(&k, "name") {
                        match parse_value_exec(v) {
                            ValueClass::VStr(s) => Some(
                                ParseState { name: Some(chars_to_string(&s)), ..st },
                            ),
                            _ => None,
                        }
                    } else if chars_eq_str(&k, "version") {
                        match parse_value_exec(v) {
                            ValueClass::VStr(s) => Some(
                                ParseState { version: Some(chars_to_string(&s)), ..st },
                            ),
                            _ => None,
                        }
                    } else if chars_eq_str(&k, "description") {
                        match parse_value_exec(v) {
                            ValueClass::VStr(s) => Some(
                                ParseState { description: Some(chars_to_string(&s)), ..st },
                            ),
                            _ => None,
                        }
                    } else if chars_eq_str(&k, "license") {
                        match parse_value_exec(v) {
                            ValueClass::VStr(s) => Some(
                                ParseState { license: Some(chars_to_string(&s)), ..st },
                            ),
                            _ => None,
                        }
                    } else if chars_eq_str(&k, "authors") {
                        match parse_value_exec(v) {
                            ValueClass::VList(items) => Some(
                                ParseState { authors: Some(items), ..st },
                            ),
                            _ => None,
                        }
                    } else {
                        Some(st)
                    }
                },
                Section::Mpc => {
                    if chars_eq_str(&k, "protocol") {
                        match parse_value_exec(v) {
                            ValueClass::VStr(s) => Some(
                                ParseState { protocol: Some(chars_to_string(&s)), ..st },
                            ),
                            _ => None,
                        }
                    } else if chars_eq_str(&k, "field") {
                        match parse_value_exec(v) {
                            ValueClass::VStr(s) => Some(
                                ParseState { field: Some(chars_to_string(&s)), ..st },
                            ),
                            _ => None,
                        }
                    } else if chars_eq_str(&k, "parties") {
                        match parse_value_exec(v) {
                            ValueClass::VNumSmall(n) => Some(
                                ParseState { parties: Some(n), ..st },
                            ),
                            _ => None,
                        }
                    } else if chars_eq_str(&k, "threshold") {
                        match parse_value_exec(v) {
                            ValueClass::VNumSmall(n) => Some(
                                ParseState { threshold: Some(n), ..st },
                            ),
                            _ => None,
                        }
                    } else {
                        Some(st)
                    }
                },
                Section::Dependencies => {
                    match parse_value_exec(v) {
                        ValueClass::VStr(s) => {
                            let key = chars_to_string(&k);
                            let value = chars_to_string(&s);
                            let ParseState {
                                section,
                                name,
                                version,
                                description,
                                authors,
                                license,
                                protocol,
                                parties,
                                threshold,
                                field,
                                deps,
                                dev_deps,
                            } = st;
                            let new_deps = push_dep_pair(deps, key, value);
                            Some(
                                ParseState {
                                    section,
                                    name,
                                    version,
                                    description,
                                    authors,
                                    license,
                                    protocol,
                                    parties,
                                    threshold,
                                    field,
                                    deps: Some(new_deps),
                                    dev_deps,
                                },
                            )
                        },
                        _ => None,
                    }
                },
                Section::DevDependencies => {
                    match parse_value_exec(v) {
                        ValueClass::VStr(s) => {
                            let key = chars_to_string(&k);
                            let value = chars_to_string(&s);
                            let ParseState {
                                section,
                                name,
                                version,
                                description,
                                authors,
                                license,
                                protocol,
                                parties,
                                threshold,
                                field,
                                deps,
                                dev_deps,
                            } = st;
                            let new_deps = push_dep_pair(dev_deps, key, value);
                            Some(
                                ParseState {
                                    section,
                                    name,
                                    version,
                                    description,
                                    authors,
                                    license,
                                    protocol,
                                    parties,
                                    threshold,
                                    field,
                                    deps,
                                    dev_deps: Some(new_deps),
                                },
                            )
                        },
                        _ => None,
                    }
                },
            }
        },
    }
}

/// Parse manifest text back into a configuration.
///
/// Returns `Some` exactly when every line is well formed and the required
/// fields (package name and version; protocol, parties, field) are all
/// present.
pub fn parse_manifest(s: &str) -> (r: Option<StoffelConfig>)
    ensures
        match spec_parse_manifest(s@) {
            Some(c) => r is Some && r->0@ == c,
            None => r is None,
        },
{
    let chars = str_to_chars(s);
    let lines = split_lines_exec(&chars);
    let ghost all_lines = lines.deep_view();
    let mut st = ParseState {
        section: Section::Top,
        name: None,
        version: None,
        description: None,
        authors: None,
        license: None,
        protocol: None,
        parties: None,
        threshold: None,
        field: None,
        deps: None,
        dev_deps: None,
    };
    assert(st@ =~~= init_fields());
    let mut i: usize = 0;
    proof {
        assert(all_lines.subrange(0, 0) =~= Seq::<Seq<char>>::empty());
    }
    while i < lines.len()
        invariant
            i <= lines@.len(),
            all_lines == lines.deep_view(),
            all_lines == split_lines(s@),
            all_lines.len() == lines@.len(),
            forall|j: int| 0 <= j < lines@.len() ==> all_lines[j] == lines@[j]@,
            interp_lines(init_fields(), all_lines.subrange(0, i as int)) == Some(st@),
        decreases lines@.len() - i,
    {
        let ghost prefix = all_lines.subrange(0, i as int);
        let ghost line = all_lines[i as int];
        let ghost st0 = st@;
        let stepped = apply_line(st, &lines[i]);
        proof {
            lemma_interp_lines_append(init_fields(), prefix, seq![line]);
            assert(prefix + seq![line] =~= all_lines.subrange(0, i + 1));
            assert(seq![line][0] == line);
            assert(seq![line].drop_first() =~= Seq::<Seq<char>>::empty());
            match step_line(st0, line) {
                Some(st2) => {
                    assert(interp_lines(st2, Seq::<Seq<char>>::empty()) == Some(st2));
                    assert(interp_lines(st0, seq![line]) == Some(st2));
                },
                None => {
                    assert(interp_lines(st0, seq![line]) is None);
                },
            }
            assert(interp_lines(init_fields(), all_lines.subrange(0, i + 1)) == interp_lines(
                st0,
                seq![line],
            ));
        }
        match stepped {
            Some(next) => {
                st = next;
                proof {
                    assert(interp_lines(init_fields(), all_lines.subrange(0, i + 1)) == Some(
                        st@,
                    ));
                }
                i = i + 1;
            },
            None => {
                proof {
                    assert(interp_lines(init_fields(), all_lines.subrange(0, i + 1)) is None);
                    lemma_interp_lines_append(
                        init_fields(),
                        all_lines.subrange(0, i + 1),
                        all_lines.skip(i + 1),
                    );
                    assert(all_lines.subrange(0, i + 1) + all_lines.skip(i + 1) =~= all_lines);
                    assert(interp_lines(init_fields(), all_lines) is None);
                }
                return None;
            },
        }
    }
    proof {
        assert(all_lines.subrange(0, lines@.len() as int) =~= all_lines);
    }
    let ghost final_fields = st@;
    let ParseState {
        section: _,
        name,
        version,
        description,
        authors,
        license,
        protocol,
        parties,
        threshold,
        field,
        deps,
        dev_deps,
    } = st;
    match (name, version, protocol, parties, field) {
        (Some(name), Some(version), Some(protocol), Some(parties), Some(field)) => {
            let config = StoffelConfig {
                package: PackageConfig { name, version, description, authors, license },
                mpc: MpcConfig { protocol, parties, threshold, field },
                dependencies: deps,
                dev_dependencies: dev_deps,
            };
            assert(Some(config@) =~~= finalize_fields(final_fields));
            Some(config)
        },
        _ => None,
    }
}

/// Append `key = "value"` and a newline.
fn push_quoted_line(out: &mut Vec<char>, key: &str, value: &str)
    ensures
        final(out)@ == old(out)@ + quoted_line(key@, value@).push('\n'),
{
    proof {
        reveal_strlit(" = \"");
        reveal_strlit(" = ");
        reveal_strlit("\"");
    }
    push_str_chars(out, key);
    push_str_chars(out, " = \"");
    push_str_chars(out, value);
    push_str_chars(out, "\"");
    out.push('\n');
    assert(out@ =~= old(out)@ + quoted_line(key@, value@).push('\n'));
}

/// Append `key = number` and a newline.
fn push_num_line(out: &mut Vec<char>, key: &str, n: u8)
    ensures
        final(out)@ == old(out)@ + num_line(key@, n).push('\n'),
{
    push_str_chars(out, key);
    push_str_chars(out, " = ");
    let digits = u8_to_chars(n);
    append_chars(out, &digits);
    out.push('\n');
    assert(out@ =~= old(out)@ + num_line(key@, n).push('\n'));
}

/// Append `key = ["a", "b"]` and a newline.
fn push_list_line(out: &mut Vec<char>, key: &str, items: &Vec<String>)
    ensures
        final(out)@ == old(out)@ + list_line(key@, items.deep_view()).push('\n'),
{
    proof {
        reveal_strlit(" = [");
        reveal_strlit(" = ");
        reveal_strlit("[");
    }
    push_str_chars(out, key);
    push_str_chars(out, " = [");
    let joined = quoted_join(items);
    push_str_chars(out, joined.as_str());
    push_str_chars(out, "]");
    out.push('\n');
    assert(out@ =~= old(out)@ + list_line(key@, items.deep_view()).push('\n'));
}

/// Append `[section]` and a newline.
fn push_header_line(out: &mut Vec<char>, name: &str)
    ensures
        final(out)@ == old(out)@ + header_line(name@).push('\n'),
{
    push_str_chars(out, "[");
    push_str_chars(out, name);
    push_str_chars(out, "]");
    out.push('\n');
    assert(out@ =~= old(out)@ + header_line(name@).push('\n'));
}

/// Render a configuration as manifest text.
///
/// The layout is fixed: the `[package]` section, a blank line, the `[mpc]`
/// section, then one optional section per present dependency mapping, with
/// absent optional fields omitted entirely.
#[verifier::rlimit(60)]
pub fn emit_manifest(config: &StoffelConfig) -> (s: String)
    ensures
        s@ == spec_manifest_text(config@),
{
    let mut out: Vec<char> = Vec::new();
    let ghost mut lines: Seq<Seq<char>> = Seq::<Seq<char>>::empty();

    push_header_line(&mut out, "package");
    proof {
        lemma_join_lines_push(lines, header_line("package"@));
        lines = lines.push(header_line("package"@));
        assert(out@ =~= join_lines(lines));
    }
    push_quoted_line(&mut out, "name", config.package.name.as_str());
    proof {
        lemma_join_lines_push(lines, quoted_line("name"@, config.package@.name));
        lines = lines.push(quoted_line("name"@, config.package@.name));
        assert(out@ =~= join_lines(lines));
    }
    push_quoted_line(&mut out, "version", config.package.version.as_str());
    proof {
        lemma_join_lines_push(lines, quoted_line("version"@, config.package@.version));
        lines = lines.push(quoted_line("version"@, config.package@.version));
        assert(out@ =~= join_lines(lines));
    }
    match &config.package.description {
        Some(d) => {
            push_quoted_line(&mut out, "description", d.as_str());
            proof {
                lemma_join_lines_push(lines, quoted_line("description"@, d@));
                lines = lines.push(quoted_line("description"@, d@));
                assert(out@ =~= join_lines(lines));
            }
        },
        None => {},
    }
    match &config.package.authors {
        Some(a) => {
            push_list_line(&mut out, "authors", a);
            proof {
                lemma_join_lines_push(lines, list_line("authors"@, a.deep_view()));
                lines = lines.push(list_line("authors"@, a.deep_view()));
                assert(out@ =~= join_lines(lines));
            }
        },
        None => {},
    }
    match &config.package.license {
        Some(l) => {
            push_quoted_line(&mut out, "license", l.as_str());
            proof {
                lemma_join_lines_push(lines, quoted_line("license"@, l@));
                lines = lines.push(quoted_line("license"@, l@));
                assert(out@ =~= join_lines(lines));
            }
        },
        None => {},
    }
    assert(lines =~= spec_package_lines(config.package@));

    let ghost out0 = out@;
    out.push('\n');
    proof {
        lemma_join_lines_push(lines, blank_line());
        assert(blank_line().push('\n') =~= seq!['\n']);
        assert(out@ =~= out0 + seq!['\n']);
        lines = lines.push(blank_line());
        assert(out@ =~= join_lines(lines));
    }
    push_header_line(&mut out, "mpc");
    proof {
        lemma_join_lines_push(lines, header_line("mpc"@));
        lines = lines.push(header_line("mpc"@));
        assert(out@ =~= join_lines(lines));
    }
    push_quoted_line(&mut out, "protocol", config.mpc.protocol.as_str());
    proof {
        lemma_join_lines_push(lines, quoted_line("protocol"@, config.mpc@.protocol));
        lines = lines.push(quoted_line("protocol"@, config.mpc@.protocol));
        assert(out@ =~= join_lines(lines));
    }
    push_num_line(&mut out, "parties", config.mpc.parties);
    proof {
        lemma_join_lines_push(lines, num_line("parties"@, config.mpc.parties));
        lines = lines.push(num_line("parties"@, config.mpc.parties));
        assert(out@ =~= join_lines(lines));
    }
    match config.mpc.threshold {
        Some(t) => {
            push_num_line(&mut out, "threshold", t);
            proof {
                lemma_join_lines_push(lines, num_line("threshold"@, t));
                lines = lines.push(num_line("threshold"@, t));
                assert(out@ =~= join_lines(lines));
            }
        },
        None => {},
    }
    push_quoted_line(&mut out, "field", config.mpc.field.as_str());
    proof {
        lemma_join_lines_push(lines, quoted_line("field"@, config.mpc@.field));
        lines = lines.push(quoted_line("field"@, config.mpc@.field));
        assert(out@ =~= join_lines(lines));
    }
    assert(lines =~= spec_package_lines(config.package@) + spec_mpc_lines(config.mpc@));

    match &config.dependencies {
        Some(d) => {
            emit_dep_section(&mut out, "dependencies", d);
            proof {
                let section = spec_dep_section_lines(
                    "dependencies"@,
                    Some(crate::config::pairs_view(d@)),
                );
                lemma_join_lines_append(lines, section);
                lines = lines + section;
                assert(out@ =~= join_lines(lines));
            }
        },
        None => {},
    }
    match &config.dev_dependencies {
        Some(d) => {
            emit_dep_section(&mut out, "dev_dependencies", d);
            proof {
                let section = spec_dep_section_lines(
                    "dev_dependencies"@,
                    Some(crate::config::pairs_view(d@)),
                );
                lemma_join_lines_append(lines, section);
                lines = lines + section;
                assert(out@ =~= join_lines(lines));
            }
        },
        None => {},
    }
    proof {
        if config.dependencies is None {
            assert(spec_dep_section_lines("dependencies"@, config@.dependencies)
                =~= Seq::<Seq<char>>::empty());
        }
        if config.dev_dependencies is None {
            assert(spec_dep_section_lines("dev_dependencies"@, config@.dev_dependencies)
                =~= Seq::<Seq<char>>::empty());
        }
        assert(lines =~= spec_manifest_lines(config@));
    }
    chars_to_string(&out)
}

/// Append one dependency section: a blank line, the header, one quoted
/// line per pair.
fn emit_dep_section(out: &mut Vec<char>, name: &str, pairs: &Vec<(String, String)>)
    ensures
        final(out)@ == old(out)@ + join_lines(
            spec_dep_section_lines(name@, Some(crate::config::pairs_view(pairs@))),
        ),
{
    let ghost mut lines: Seq<Seq<char>> = Seq::<Seq<char>>::empty();
    let ghost base = out@;
    out.push('\n');
    proof {
        lemma_join_lines_push(lines, blank_line());
        assert(blank_line().push('\n') =~= seq!['\n']);
        lines = lines.push(blank_line());
        assert(out@ =~= base + join_lines(lines));
    }
    push_header_line(out, name);
    proof {
        lemma_join_lines_push(lines, header_line(name@));
        lines = lines.push(header_line(name@));
    }
    let mut i: usize = 0;
    while i < pairs.len()
        invariant
            i <= pairs@.len(),
            lines =~= seq![blank_line(), header_line(name@)] + dep_lines(
                crate::config::pairs_view(pairs@).subrange(0, i as int),
            ),
            out@ == base + join_lines(lines),
        decreases pairs@.len() - i,
    {
        push_quoted_line(out, pairs[i].0.as_str(), pairs[i].1.as_str());
        proof {
            let p = crate::config::pairs_view(pairs@)[i as int];
            lemma_join_lines_push(lines, quoted_line(p.0, p.1));
            lines = lines.push(quoted_line(p.0, p.1));
            assert(crate::config::pairs_view(pairs@).subrange(0, i + 1).drop_last()
                =~= crate::config::pairs_view(pairs@).subrange(0, i as int));
            assert(dep_lines(crate::config::pairs_view(pairs@).subrange(0, i + 1)) =~= dep_lines(
                crate::config::pairs_view(pairs@).subrange(0, i as int),
            ).push(quoted_line(p.0, p.1)));
        }
        i = i + 1;
    }
    proof {
        assert(crate::config::pairs_view(pairs@).subrange(0, pairs@.len() as int)
            =~= crate::config::pairs_view(pairs@));
    }
}

/// Whether a string may stand inside quotes in a manifest: it holds no
/// double quote and no newline.
pub open spec fn manifest_str_wf(s: Seq<char>) -> bool {
    !s.contains('"') && !s.contains('\n')
}

/// Whether a key may stand on the left of `=`: non-empty, no space, no
/// newline, and not opening a section header.
pub open spec fn key_wf(k: Seq<char>) -> bool {
    &&& k.len() > 0
    &&& !k.contains(' ')
    &&& !k.contains('\n')
    &&& k[0] != '['
}

/// Whether a dependency mapping renders and re-parses faithfully.
pub open spec fn pairs_wf(ps: Seq<(Seq<char>, Seq<char>)>) -> bool {
    forall|i: int|
        0 <= i < ps.len() ==> key_wf(#[trigger] ps[i].0) && manifest_str_wf(ps[i].1)
}

/// Whether a configuration renders to a manifest that parses back to it:
/// every persisted string is quote- and newline-free, and every dependency
/// key is a well-formed key.
pub open spec fn config_wf(c: ConfigView) -> bool {
    &&& manifest_str_wf(c.package.name)
    &&& manifest_str_wf(c.package.version)
    &&& (c.package.description is Some ==> manifest_str_wf(c.package.description->0))
    &&& (c.package.authors is Some ==> forall|i: int|
        0 <= i < c.package.authors->0.len() ==> manifest_str_wf(#[trigger] c.package.authors->0[i]))
    &&& (c.package.license is Some ==> manifest_str_wf(c.package.license->0))
    &&& manifest_str_wf(c.mpc.protocol)
    &&& manifest_str_wf(c.mpc.field)
    &&& (c.dependencies is Some ==> pairs_wf(c.dependencies->0))
    &&& (c.dev_dependencies is Some ==> pairs_wf(c.dev_dependencies->0))
}

/// An element occurs in a concatenation exactly when it occurs in one of
/// the parts.
pub proof fn lemma_contains_append<A>(a: Seq<A>, b: Seq<A>, x: A)
    ensures
        (a + b).contains(x) <==> (a.contains(x) || b.contains(x)),
{
    if (a + b).contains(x) {
        let i = choose|i: int| 0 <= i < (a + b).len() && (a + b)[i] == x;
        if i < a.len() {
            assert(a[i] == x);
        } else {
            assert(b[i - a.len()] == x);
        }
    }
    if a.contains(x) {
        let i = choose|i: int| 0 <= i < a.len() && a[i] == x;
        assert((a + b)[i] == x);
    }
    if b.contains(x) {
        let i = choose|i: int| 0 <= i < b.len() && b[i] == x;
        assert((a + b)[a.len() + i] == x);
    }
}

/// A sequence misses an element exactly when no index holds it.
pub proof fn lemma_not_contains_index<A>(s: Seq<A>, x: A)
    ensures
        !s.contains(x) <==> (forall|i: int| 0 <= i < s.len() ==> s[i] != x),
{
    if forall|i: int| 0 <= i < s.len() ==> s[i] != x {
        if s.contains(x) {
            let i = choose|i: int| 0 <= i < s.len() && s[i] == x;
            assert(false);
        }
    }
}

/// The key and separator literals used by the manifest renderer are
/// well-formed keys free of quotes and newlines.
pub proof fn lemma_manifest_literals()
    ensures
        key_wf("name"@),
        key_wf("version"@),
        key_wf("description"@),
        key_wf("license"@),
        key_wf("authors"@),
        key_wf("protocol"@),
        key_wf("parties"@),
        key_wf("threshold"@),
        key_wf("field"@),
        !" = "@.contains('\n'),
        !"\""@.contains('\n'),
        !"["@.contains('\n'),
        !"]"@.contains('\n'),
        !", "@.contains('\n'),
        !"package"@.contains('\n'),
        !"mpc"@.contains('\n'),
        !"dependencies"@.contains('\n'),
        !"dev_dependencies"@.contains('\n'),
{
    reveal_strlit("name");
    reveal_strlit("version");
    reveal_strlit("description");
    reveal_strlit("license");
    reveal_strlit("authors");
    reveal_strlit("protocol");
    reveal_strlit("parties");
    reveal_strlit("threshold");
    reveal_strlit("field");
    reveal_strlit(" = ");
    reveal_strlit("\"");
    reveal_strlit("[");
    reveal_strlit("]");
    reveal_strlit(", ");
    reveal_strlit("package");
    reveal_strlit("mpc");
    reveal_strlit("dependencies");
    reveal_strlit("dev_dependencies");
    lemma_not_contains_index("name"@, ' ');
    lemma_not_contains_index("name"@, '\n');
    lemma_not_contains_index("version"@, ' ');
    lemma_not_contains_index("version"@, '\n');
    lemma_not_contains_index("description"@, ' ');
    lemma_not_contains_index("description"@, '\n');
    lemma_not_contains_index("license"@, ' ');
    lemma_not_contains_index("license"@, '\n');
    lemma_not_contains_index("authors"@, ' ');
    lemma_not_contains_index("authors"@, '\n');
    lemma_not_contains_index("protocol"@, ' ');
    lemma_not_contains_index("protocol"@, '\n');
    lemma_not_contains_index("parties"@, ' ');
    lemma_not_contains_index("parties"@, '\n');
    lemma_not_contains_index("threshold"@, ' ');
    lemma_not_contains_index("threshold"@, '\n');
    lemma_not_contains_index("field"@, ' ');
    lemma_not_contains_index("field"@, '\n');
    lemma_not_contains_index(" = "@, '\n');
    lemma_not_contains_index("\""@, '\n');
    lemma_not_contains_index("["@, '\n');
    lemma_not_contains_index("]"@, '\n');
    lemma_not_contains_index(", "@, '\n');
    lemma_not_contains_index("package"@, '\n');
    lemma_not_contains_index("mpc"@, '\n');
    lemma_not_contains_index("dependencies"@, '\n');
    lemma_not_contains_index("dev_dependencies"@, '\n');
}

/// A `key = "value"` line holds no newline when its parts hold none.
pub proof fn lemma_quoted_line_wf(k: Seq<char>, v: Seq<char>)
    requires
        !k.contains('\n'),
        !v.contains('\n'),
    ensures
        line_wf(quoted_line(k, v)),
{
    lemma_manifest_literals();
    lemma_contains_append("\""@, v, '\n');
    lemma_contains_append("\""@ + v, "\""@, '\n');
    lemma_contains_append(k, " = "@, '\n');
    lemma_contains_append(k + " = "@, ("\""@ + v) + "\""@, '\n');
    assert(quoted_line(k, v) =~= (k + " = "@) + (("\""@ + v) + "\""@));
}

/// A `key = number` line holds no newline when the key holds none.
pub proof fn lemma_num_line_wf(k: Seq<char>, n: u8)
    requires
        !k.contains('\n'),
    ensures
        line_wf(num_line(k, n)),
{
    crate::numbers::lemma_dec_rep_props(n as nat);
    lemma_not_contains_index(dec_rep(n as nat), '\n');
    assert(forall|i: int|
        0 <= i < dec_rep(n as nat).len() ==> is_digit_char(#[trigger] dec_rep(n as nat)[i]));
    lemma_contains_append(k, " = "@, '\n');
    lemma_manifest_literals();
    lemma_contains_append(k + " = "@, dec_rep(n as nat), '\n');
    assert(num_line(k, n) =~= (k + " = "@) + dec_rep(n as nat));
}

/// A quoted, comma-joined list holds no newline when its items hold none.
pub proof fn lemma_quoted_join_wf(items: Seq<Seq<char>>)
    requires
        forall|i: int| 0 <= i < items.len() ==> !(#[trigger] items[i]).contains('\n'),
    ensures
        !spec_quoted_join(items).contains('\n'),
    decreases items.len(),
{
    lemma_manifest_literals();
    if items.len() == 0 {
        lemma_not_contains_index(spec_quoted_join(items), '\n');
    } else if items.len() == 1 {
        lemma_contains_append("\""@, items[0], '\n');
        lemma_contains_append("\""@ + items[0], "\""@, '\n');
        assert(spec_quoted_join(items) =~= ("\""@ + items[0]) + "\""@);
    } else {
        assert(forall|i: int|
            0 <= i < items.drop_first().len() ==> !(#[trigger] items.drop_first()[i]).contains(
                '\n',
            )) by {
            assert(forall|i: int|
                0 <= i < items.drop_first().len() ==> items.drop_first()[i] == items[i + 1]);
        }
        lemma_quoted_join_wf(items.drop_first());
        lemma_contains_append("\""@, items[0], '\n');
        lemma_contains_append("\""@ + items[0], "\""@, '\n');
        lemma_contains_append(("\""@ + items[0]) + "\""@, ", "@, '\n');
        lemma_contains_append(
            (("\""@ + items[0]) + "\""@) + ", "@,
            spec_quoted_join(items.drop_first()),
            '\n',
        );
        assert(spec_quoted_join(items) =~= ((("\""@ + items[0]) + "\""@) + ", "@)
            + spec_quoted_join(items.drop_first()));
    }
}

/// A `key = [..]` line holds no newline when the key and items hold none.
pub proof fn lemma_list_line_wf(k: Seq<char>, items: Seq<Seq<char>>)
    requires
        !k.contains('\n'),
        forall|i: int| 0 <= i < items.len() ==> !(#[trigger] items[i]).contains('\n'),
    ensures
        line_wf(list_line(k, items)),
{
    lemma_manifest_literals();
    lemma_quoted_join_wf(items);
    lemma_contains_append("["@, spec_quoted_join(items), '\n');
    lemma_contains_append("["@ + spec_quoted_join(items), "]"@, '\n');
    lemma_contains_append(k, " = "@, '\n');
    lemma_contains_append(k + " = "@, ("["@ + spec_quoted_join(items)) + "]"@, '\n');
    assert(list_line(k, items) =~= (k + " = "@) + (("["@ + spec_quoted_join(items)) + "]"@));
}

/// A `[section]` line holds no newline when its name holds none.
pub proof fn lemma_header_line_wf(name: Seq<char>)
    requires
        !name.contains('\n'),
    ensures
        line_wf(header_line(name)),
{
    lemma_manifest_literals();
    lemma_contains_append("["@, name, '\n');
    lemma_contains_append("["@ + name, "]"@, '\n');
    assert(header_line(name) =~= ("["@ + name) + "]"@);
}

/// Whether every line in a list is free of newlines.
pub open spec fn lines_wf(ls: Seq<Seq<char>>) -> bool {
    forall|i: int| 0 <= i < ls.len() ==> line_wf(#[trigger] ls[i])
}

/// Well-formed line lists concatenate to a well-formed line list.
pub proof fn lemma_lines_wf_append(a: Seq<Seq<char>>, b: Seq<Seq<char>>)
    requires
        lines_wf(a),
        lines_wf(b),
    ensures
        lines_wf(a + b),
{
    assert forall|i: int| 0 <= i < (a + b).len() implies line_wf(#[trigger] (a + b)[i]) by {
        if i < a.len() {
            assert((a + b)[i] == a[i]);
        } else {
            assert((a + b)[i] == b[i - a.len()]);
        }
    }
}

/// Every line of a well-formed configuration's manifest is newline-free.
pub proof fn lemma_manifest_lines_wf(c: ConfigView)
    requires
        config_wf(c),
    ensures
        lines_wf(spec_manifest_lines(c)),
{
    lemma_manifest_literals();
    let p = c.package;
    let base = seq![
        header_line("package"@),
        quoted_line("name"@, p.name),
        quoted_line("version"@, p.version),
    ];
    assert(lines_wf(base)) by {
        lemma_header_line_wf("package"@);
        lemma_quoted_line_wf("name"@, p.name);
        lemma_quoted_line_wf("version"@, p.version);
        assert forall|i: int| 0 <= i < base.len() implies line_wf(#[trigger] base[i]) by {
            if i == 0 {
                assert(base[i] == header_line("package"@));
            } else if i == 1 {
                assert(base[i] == quoted_line("name"@, p.name));
            } else {
                assert(base[i] == quoted_line("version"@, p.version));
            }
        }
    }
    let dsc = match p.description {
        Some(d) => seq![quoted_line("description"@, d)],
        None => Seq::<Seq<char>>::empty(),
    };
    assert(lines_wf(dsc)) by {
        match p.description {
            Some(d) => {
                lemma_quoted_line_wf("description"@, d);
                assert(dsc[0] == quoted_line("description"@, d));
            },
            None => {},
        }
    }
    let aut = match p.authors {
        Some(a) => seq![list_line("authors"@, a)],
        None => Seq::<Seq<char>>::empty(),
    };
    assert(lines_wf(aut)) by {
        match p.authors {
            Some(a) => {
                assert(forall|i: int|
                    0 <= i < a.len() ==> !(#[trigger] a[i]).contains('\n'));
                lemma_list_line_wf("authors"@, a);
                assert(aut[0] == list_line("authors"@, a));
            },
            None => {},
        }
    }
    let lic = match p.license {
        Some(l) => seq![quoted_line("license"@, l)],
        None => Seq::<Seq<char>>::empty(),
    };
    assert(lines_wf(lic)) by {
        match p.license {
            Some(l) => {
                lemma_quoted_line_wf("license"@, l);
                assert(lic[0] == quoted_line("license"@, l));
            },
            None => {},
        }
    }
    lemma_lines_wf_append(base, dsc);
    lemma_lines_wf_append(base + dsc, aut);
    lemma_lines_wf_append((base + dsc) + aut, lic);
    assert(spec_package_lines(p) =~= ((base + dsc) + aut) + lic);

    let m = c.mpc;
    let mbase = seq![
        blank_line(),
        header_line("mpc"@),
        quoted_line("protocol"@, m.protocol),
        num_line("parties"@, m.parties),
    ];
    assert(lines_wf(mbase)) by {
        lemma_header_line_wf("mpc"@);
        lemma_quoted_line_wf("protocol"@, m.protocol);
        lemma_num_line_wf("parties"@, m.parties);
        lemma_not_contains_index(blank_line(), '\n');
        assert forall|i: int| 0 <= i < mbase.len() implies line_wf(#[trigger] mbase[i]) by {
            if i == 0 {
                assert(mbase[i] == blank_line());
            } else if i == 1 {
                assert(mbase[i] == header_line("mpc"@));
            } else if i == 2 {
                assert(mbase[i] == quoted_line("protocol"@, m.protocol));
            } else {
                assert(mbase[i] == num_line("parties"@, m.parties));
            }
        }
    }
    let thr = match m.threshold {
        Some(t) => seq![num_line("threshold"@, t)],
        None => Seq::<Seq<char>>::empty(),
    };
    assert(lines_wf(thr)) by {
        match m.threshold {
            Some(t) => {
                lemma_num_line_wf("threshold"@, t);
                assert(thr[0] == num_line("threshold"@, t));
            },
            None => {},
        }
    }
    let fld = seq![quoted_line("field"@, m.field)];
    assert(lines_wf(fld)) by {
        lemma_quoted_line_wf("field"@, m.field);
        assert(fld[0] == quoted_line("field"@, m.field));
    }
    lemma_lines_wf_append(mbase, thr);
    lemma_lines_wf_append(mbase + thr, fld);
    assert(spec_mpc_lines(m) =~= (mbase + thr) + fld);

    lemma_dep_section_wf("dependencies"@, c.dependencies);
    lemma_dep_section_wf("dev_dependencies"@, c.dev_dependencies);

    lemma_lines_wf_append(spec_package_lines(p), spec_mpc_lines(m));
    lemma_lines_wf_append(
        spec_package_lines(p) + spec_mpc_lines(m),
        spec_dep_section_lines("dependencies"@, c.dependencies),
    );
    lemma_lines_wf_append(
        (spec_package_lines(p) + spec_mpc_lines(m)) + spec_dep_section_lines(
            "dependencies"@,
            c.dependencies,
        ),
        spec_dep_section_lines("dev_dependencies"@, c.dev_dependencies),
    );
    assert(spec_manifest_lines(c) =~= ((spec_package_lines(p) + spec_mpc_lines(m))
        + spec_dep_section_lines("dependencies"@, c.dependencies)) + spec_dep_section_lines(
        "dev_dependencies"@,
        c.dev_dependencies,
    ));
}

/// Every line of a dependency section is newline-free for well-formed
/// pairs.
pub proof fn lemma_dep_section_wf(name: Seq<char>, pairs: Option<Seq<(Seq<char>, Seq<char>)>>)
    requires
        !name.contains('\n'),
        pairs is Some ==> pairs_wf(pairs->0),
    ensures
        lines_wf(spec_dep_section_lines(name, pairs)),
{
    match pairs {
        None => {},
        Some(ps) => {
            let head = seq![blank_line(), header_line(name)];
            assert(lines_wf(head)) by {
                lemma_header_line_wf(name);
                lemma_not_contains_index(blank_line(), '\n');
                assert(head[0] == blank_line());
                assert(head[1] == header_line(name));
            }
            assert(lines_wf(dep_lines(ps))) by {
                assert forall|i: int| 0 <= i < dep_lines(ps).len() implies line_wf(
                    #[trigger] dep_lines(ps)[i],
                ) by {
                    assert(dep_lines(ps)[i] == quoted_line(ps[i].0, ps[i].1));
                    assert(key_wf(ps[i].0) && manifest_str_wf(ps[i].1));
                    lemma_quoted_line_wf(ps[i].0, ps[i].1);
                }
            }
            lemma_lines_wf_append(head, dep_lines(ps));
        },
    }
}

/// A rendered header line classifies as that header.
pub proof fn lemma_classify_header(name: Seq<char>)
    ensures
        classify_line(header_line(name)) == LineShape::Header(name),
{
    lemma_manifest_literals();
    reveal_strlit("[");
    reveal_strlit("]");
    let l = header_line(name);
    assert(l =~= ("["@ + name) + "]"@);
    assert(l.len() == name.len() + 2);
    assert(l[0] == '[');
    assert(l.last() == ']');
    assert(l.subrange(1, l.len() - 1) =~= name);
}

/// A rendered `key = value` line classifies as that pair, for a
/// well-formed key.
pub proof fn lemma_classify_pair(k: Seq<char>, rendered: Seq<char>)
    requires
        key_wf(k),
    ensures
        classify_line(pair_line(k, rendered)) == LineShape::Pair(k, rendered),
{
    lemma_manifest_literals();
    reveal_strlit(" = ");
    let l = pair_line(k, rendered);
    assert(l =~= k + (" = "@ + rendered));
    assert(l.len() == k.len() + 3 + rendered.len());
    assert(l[0] == k[0]);
    assert(l[0] != '[');
    lemma_not_contains_index(k, ' ');
    lemma_first_index_of_append(k, " = "@ + rendered, ' ');
    assert((" = "@ + rendered)[0] == ' ');
    assert(first_index_of(" = "@ + rendered, ' ') == Some(0int));
    assert(first_index_of(l, ' ') == Some(k.len() as int));
    assert(l[k.len() as int + 1] == '=');
    assert(l[k.len() as int + 2] == ' ');
    assert(l.subrange(0, k.len() as int) =~= k);
    assert(l.skip(k.len() as int + 3) =~= rendered);
}

/// A quoted string renders to a value that parses back to that string.
pub proof fn lemma_parse_value_quoted(s: Seq<char>)
    requires
        !s.contains('"'),
    ensures
        parse_value(spec_quote(s)) == ValueShape::VStr(s),
{
    reveal_strlit("\"");
    let v = spec_quote(s);
    assert(v =~= ("\""@ + s) + "\""@);
    assert(v.len() == s.len() + 2);
    assert(v[0] == '"');
    assert(v.last() == '"');
    assert(v.subrange(1, v.len() - 1) =~= s);
}

/// A decimal rendering parses back to its number.
pub proof fn lemma_parse_value_num(n: u8)
    ensures
        parse_value(dec_rep(n as nat)) == ValueShape::VNum(n as nat),
{
    crate::numbers::lemma_dec_rep_props(n as nat);
    let v = dec_rep(n as nat);
    assert(is_digit_char(v[0]));
    assert(v[0] != '"');
    assert(v[0] != '[');
}

/// A quoted, comma-joined list body parses back to its items.
pub proof fn lemma_parse_str_list_join(items: Seq<Seq<char>>)
    requires
        forall|i: int| 0 <= i < items.len() ==> !(#[trigger] items[i]).contains('"'),
    ensures
        parse_str_list(spec_quoted_join(items)) == Some(items),
    decreases items.len(),
{
    reveal_strlit("\"");
    reveal_strlit(", ");
    if items.len() == 0 {
        assert(spec_quoted_join(items) =~= Seq::<char>::empty());
        assert(Some(Seq::<Seq<char>>::empty()) =~~= Some(items));
    } else if items.len() == 1 {
        let a = items[0];
        let s = spec_quoted_join(items);
        assert(s == spec_quote(a));
        assert(s =~= ("\""@ + a) + "\""@);
        assert(s.len() == a.len() + 2);
        assert(s[0] == '"');
        let t = s.skip(1);
        assert(t =~= a + "\""@);
        lemma_not_contains_index(a, '"');
        lemma_first_index_of_append(a, "\""@, '"');
        assert(first_index_of("\""@, '"') == Some(0int));
        assert(first_index_of(t, '"') == Some(a.len() as int));
        let j = a.len() as int;
        assert(0 <= j < s.len() - 1);
        assert(t.subrange(0, j) =~= a);
        assert(t.skip(j + 1) =~= Seq::<char>::empty());
        assert(parse_str_list(s) == Some(seq![a]));
        assert(seq![a] =~= items);
    } else {
        let a = items[0];
        let rest_items = items.drop_first();
        let s = spec_quoted_join(items);
        assert(s == spec_quote(a) + ", "@ + spec_quoted_join(rest_items));
        assert(s =~= ("\""@ + a) + ("\""@ + (", "@ + spec_quoted_join(rest_items))));
        assert(s.len() == a.len() + 4 + spec_quoted_join(rest_items).len());
        assert(s[0] == '"');
        let t = s.skip(1);
        assert(t =~= a + ("\""@ + (", "@ + spec_quoted_join(rest_items))));
        lemma_not_contains_index(a, '"');
        lemma_first_index_of_append(a, "\""@ + (", "@ + spec_quoted_join(rest_items)), '"');
        assert(("\""@ + (", "@ + spec_quoted_join(rest_items)))[0] == '"');
        assert(first_index_of("\""@ + (", "@ + spec_quoted_join(rest_items)), '"') == Some(0int));
        let j = a.len() as int;
        assert(first_index_of(t, '"') == Some(j));
        assert(0 <= j < s.len() - 1);
        assert(t.subrange(0, j) =~= a);
        let rest = t.skip(j + 1);
        assert(rest =~= ", "@ + spec_quoted_join(rest_items));
        assert(rest.len() >= 2);
        assert(rest[0] == ',');
        assert(rest[1] == ' ');
        assert(rest.skip(2) =~= spec_quoted_join(rest_items));
        assert(forall|i: int|
            0 <= i < rest_items.len() ==> !(#[trigger] rest_items[i]).contains('"')) by {
            assert(forall|i: int|
                0 <= i < rest_items.len() ==> rest_items[i] == items[i + 1]);
        }
        lemma_parse_str_list_join(rest_items);
        assert(parse_str_list(s) == Some(seq![a] + rest_items));
        assert(seq![a] + rest_items =~= items);
    }
}

/// A rendered list value parses back to its items.
pub proof fn lemma_parse_value_list(items: Seq<Seq<char>>)
    requires
        forall|i: int| 0 <= i < items.len() ==> !(#[trigger] items[i]).contains('"'),
    ensures
        parse_value("["@ + spec_quoted_join(items) + "]"@) == ValueShape::VList(items),
{
    reveal_strlit("[");
    reveal_strlit("]");
    reveal_strlit("\"");
    let v = "["@ + spec_quoted_join(items) + "]"@;
    assert(v =~= ("["@ + spec_quoted_join(items)) + "]"@);
    assert(v.len() == spec_quoted_join(items).len() + 2);
    assert(v[0] == '[');
    assert(v[0] != '"');
    assert(!is_digit_char(v[0]));
    assert(v.last() == ']');
    assert(v.subrange(1, v.len() - 1) =~= spec_quoted_join(items));
    lemma_parse_str_list_join(items);
}

/// Interpreting a single line is stepping it.
pub proof fn lemma_interp_one(st: ParseFields, l: Seq<char>)
    ensures
        interp_lines(st, seq![l]) == step_line(st, l),
{
    assert(seq![l][0] == l);
    assert(seq![l].drop_first() =~= Seq::<Seq<char>>::empty());
    match step_line(st, l) {
        Some(st2) => {
            assert(interp_lines(st2, Seq::<Seq<char>>::empty()) == Some(st2));
        },
        None => {},
    }
}

/// Interpreting a line followed by more lines steps the line first.
pub proof fn lemma_interp_cons(st: ParseFields, l: Seq<char>, rest: Seq<Seq<char>>)
    ensures
        interp_lines(st, seq![l] + rest) == match step_line(st, l) {
            Some(st2) => interp_lines(st2, rest),
            None => None::<ParseFields>,
        },
{
    let ls = seq![l] + rest;
    assert(ls.len() > 0);
    assert(ls[0] == l);
    assert(ls.drop_first() =~= rest);
}

/// Interpreting a rendered `[package]` section from the initial state
/// collects exactly the package fields.
#[verifier::rlimit(100)]
pub proof fn lemma_interp_package(p: PackageView)
    requires
        manifest_str_wf(p.name),
        manifest_str_wf(p.version),
        p.description is Some ==> manifest_str_wf(p.description->0),
        p.authors is Some ==> forall|i: int|
            0 <= i < p.authors->0.len() ==> manifest_str_wf(#[trigger] p.authors->0[i]),
        p.license is Some ==> manifest_str_wf(p.license->0),
    ensures
        interp_lines(init_fields(), spec_package_lines(p)) == Some(
            ParseFields {
                section: Section::Package,
                name: Some(p.name),
                version: Some(p.version),
                description: p.description,
                authors: p.authors,
                license: p.license,
                protocol: None,
                parties: None,
                threshold: None,
                field: None,
                deps: None,
                dev_deps: None,
            },
        ),
{
    lemma_manifest_literals();
    reveal_strlit("package");
    reveal_strlit("mpc");
    reveal_strlit("dependencies");
    reveal_strlit("dev_dependencies");
    reveal_strlit("name");
    reveal_strlit("version");
    reveal_strlit("description");
    reveal_strlit("license");
    reveal_strlit("authors");

    let st0 = init_fields();
    let h = header_line("package"@);
    let ln = quoted_line("name"@, p.name);
    let lv = quoted_line("version"@, p.version);
    let base = seq![h, ln, lv];
    let dsc = match p.description {
        Some(d) => seq![quoted_line("description"@, d)],
        None => Seq::<Seq<char>>::empty(),
    };
    let aut = match p.authors {
        Some(a) => seq![list_line("authors"@, a)],
        None => Seq::<Seq<char>>::empty(),
    };
    let lic = match p.license {
        Some(l) => seq![quoted_line("license"@, l)],
        None => Seq::<Seq<char>>::empty(),
    };
    assert(spec_package_lines(p) =~= base + (dsc + (aut + lic)));

    lemma_classify_header("package"@);
    let st1 = ParseFields { section: Section::Package, ..st0 };
    assert(step_line(st0, h) == Some(st1));

    lemma_classify_pair("name"@, spec_quote(p.name));
    lemma_parse_value_quoted(p.name);
    let st2 = ParseFields { name: Some(p.name), ..st1 };
    assert(step_line(st1, ln) == Some(st2));

    lemma_classify_pair("version"@, spec_quote(p.version));
    lemma_parse_value_quoted(p.version);
    let st3 = ParseFields { version: Some(p.version), ..st2 };
    assert(step_line(st2, lv) == Some(st3));

    assert(base + (dsc + (aut + lic)) =~= seq![h] + (seq![ln] + (seq![lv] + (dsc + (aut
        + lic)))));
    lemma_interp_cons(st0, h, seq![ln] + (seq![lv] + (dsc + (aut + lic))));
    lemma_interp_cons(st1, ln, seq![lv] + (dsc + (aut + lic)));
    lemma_interp_cons(st2, lv, dsc + (aut + lic));

    let st4 = match p.description {
        Some(d) => {
            lemma_classify_pair("description"@, spec_quote(d));
            lemma_parse_value_quoted(d);
            ParseFields { description: Some(d), ..st3 }
        },
        None => st3,
    };
    match p.description {
        Some(d) => {
            assert(step_line(st3, quoted_line("description"@, d)) == Some(st4));
            assert(dsc + (aut + lic) =~= seq![quoted_line("description"@, d)] + (aut + lic));
            lemma_interp_cons(st3, quoted_line("description"@, d), aut + lic);
        },
        None => {
            assert(dsc + (aut + lic) =~= aut + lic);
        },
    }
    assert(interp_lines(st3, dsc + (aut + lic)) == interp_lines(st4, aut + lic));
    assert(st4.description == p.description);

    let st5 = match p.authors {
        Some(a) => {
            lemma_classify_pair("authors"@, "["@ + spec_quoted_join(a) + "]"@);
            assert(forall|i: int| 0 <= i < a.len() ==> !(#[trigger] a[i]).contains('"'));
            lemma_parse_value_list(a);
            ParseFields { authors: Some(a), ..st4 }
        },
        None => st4,
    };
    match p.authors {
        Some(a) => {
            assert(step_line(st4, list_line("authors"@, a)) == Some(st5));
            assert(aut + lic =~= seq![list_line("authors"@, a)] + lic);
            lemma_interp_cons(st4, list_line("authors"@, a), lic);
        },
        None => {
            assert(aut + lic =~= lic);
        },
    }
    assert(interp_lines(st4, aut + lic) == interp_lines(st5, lic));
    assert(st5.authors == p.authors);

    let st6 = match p.license {
        Some(l) => {
            lemma_classify_pair("license"@, spec_quote(l));
            lemma_parse_value_quoted(l);
            ParseFields { license: Some(l), ..st5 }
        },
        None => st5,
    };
    match p.license {
        Some(l) => {
            assert(step_line(st5, quoted_line("license"@, l)) == Some(st6));
            assert(lic =~= seq![quoted_line("license"@, l)] + Seq::<Seq<char>>::empty());
            lemma_interp_cons(st5, quoted_line("license"@, l), Seq::<Seq<char>>::empty());
        },
        None => {
            assert(lic =~= Seq::<Seq<char>>::empty());
        },
    }
    assert(interp_lines(st5, lic) == Some(st6));
    assert(st6 =~= ParseFields {
        section: Section::Package,
        name: Some(p.name),
        version: Some(p.version),
        description: p.description,
        authors: p.authors,
        license: p.license,
        protocol: None,
        parties: None,
        threshold: None,
        field: None,
        deps: None,
        dev_deps: None,
    });
}

/// Interpreting a rendered `[mpc]` section sets exactly the protocol
/// fields, keeping a previously absent threshold absent.
#[verifier::rlimit(100)]
pub proof fn lemma_interp_mpc(st: ParseFields, m: MpcView)
    requires
        manifest_str_wf(m.protocol),
        manifest_str_wf(m.field),
    ensures
        interp_lines(st, spec_mpc_lines(m)) == Some(
            ParseFields {
                section: Section::Mpc,
                protocol: Some(m.protocol),
                parties: Some(m.parties),
                threshold: if m.threshold is Some {
                    m.threshold
                } else {
                    st.threshold
                },
                field: Some(m.field),
                ..st
            },
        ),
{
    lemma_manifest_literals();
    reveal_strlit("package");
    reveal_strlit("mpc");
    reveal_strlit("dependencies");
    reveal_strlit("dev_dependencies");
    reveal_strlit("protocol");
    reveal_strlit("parties");
    reveal_strlit("threshold");
    reveal_strlit("field");

    let b = blank_line();
    let h = header_line("mpc"@);
    let lp = quoted_line("protocol"@, m.protocol);
    let lc = num_line("parties"@, m.parties);
    let thr = match m.threshold {
        Some(t) => seq![num_line("threshold"@, t)],
        None => Seq::<Seq<char>>::empty(),
    };
    let lf = quoted_line("field"@, m.field);
    assert(spec_mpc_lines(m) =~= seq![b] + (seq![h] + (seq![lp] + (seq![lc] + (thr
        + seq![lf])))));

    assert(classify_line(b) == LineShape::Blank);
    assert(step_line(st, b) == Some(st));

    lemma_classify_header("mpc"@);
    let st1 = ParseFields { section: Section::Mpc, ..st };
    assert(step_line(st, h) == Some(st1));

    lemma_classify_pair("protocol"@, spec_quote(m.protocol));
    lemma_parse_value_quoted(m.protocol);
    let st2 = ParseFields { protocol: Some(m.protocol), ..st1 };
    assert(step_line(st1, lp) == Some(st2));

    lemma_classify_pair("parties"@, dec_rep(m.parties as nat));
    lemma_parse_value_num(m.parties);
    let st3 = ParseFields { parties: Some(m.parties), ..st2 };
    assert(step_line(st2, lc) == Some(st3));

    lemma_interp_cons(st, b, seq![h] + (seq![lp] + (seq![lc] + (thr + seq![lf]))));
    lemma_interp_cons(st, h, seq![lp] + (seq![lc] + (thr + seq![lf])));
    lemma_interp_cons(st1, lp, seq![lc] + (thr + seq![lf]));
    lemma_interp_cons(st2, lc, thr + seq![lf]);

    let st4 = match m.threshold {
        Some(t) => {
            lemma_classify_pair("threshold"@, dec_rep(t as nat));
            lemma_parse_value_num(t);
            ParseFields { threshold: Some(t), ..st3 }
        },
        None => st3,
    };
    match m.threshold {
        Some(t) => {
            assert(step_line(st3, num_line("threshold"@, t)) == Some(st4));
            assert(thr + seq![lf] =~= seq![num_line("threshold"@, t)] + seq![lf]);
            lemma_interp_cons(st3, num_line("threshold"@, t), seq![lf]);
        },
        None => {
            assert(thr + seq![lf] =~= seq![lf]);
        },
    }
    assert(interp_lines(st3, thr + seq![lf]) == interp_lines(st4, seq![lf]));

    lemma_classify_pair("field"@, spec_quote(m.field));
    lemma_parse_value_quoted(m.field);
    let st5 = ParseFields { field: Some(m.field), ..st4 };
    assert(step_line(st4, lf) == Some(st5));
    lemma_interp_one(st4, lf);

    assert(st5 =~= ParseFields {
        section: Section::Mpc,
        protocol: Some(m.protocol),
        parties: Some(m.parties),
        threshold: if m.threshold is Some {
            m.threshold
        } else {
            st.threshold
        },
        field: Some(m.field),
        ..st
    });
}

/// Interpreting the body lines of the `[dependencies]` section appends
/// exactly the rendered pairs.
pub proof fn lemma_interp_dep_pairs(st: ParseFields, ps: Seq<(Seq<char>, Seq<char>)>)
    requires
        st.section == Section::Dependencies,
        st.deps is Some,
        pairs_wf(ps),
    ensures
        interp_lines(st, dep_lines(ps)) == Some(
            ParseFields { deps: Some(st.deps->0 + ps), ..st },
        ),
    decreases ps.len(),
{
    if ps.len() == 0 {
        assert(dep_lines(ps) =~= Seq::<Seq<char>>::empty());
        assert(st.deps->0 + ps =~= st.deps->0);
        assert(ParseFields { deps: Some(st.deps->0 + ps), ..st } =~= st);
    } else {
        let p0 = ps[0];
        let l0 = quoted_line(p0.0, p0.1);
        assert(key_wf(p0.0) && manifest_str_wf(p0.1));
        lemma_classify_pair(p0.0, spec_quote(p0.1));
        lemma_parse_value_quoted(p0.1);
        let st2 = ParseFields { deps: Some(st.deps->0.push(p0)), ..st };
        assert(step_line(st, l0) == Some(st2));
        assert(dep_lines(ps) =~= seq![l0] + dep_lines(ps.drop_first())) by {
            assert(dep_lines(ps).len() == ps.len());
            assert(dep_lines(ps)[0] == l0);
            assert(forall|i: int|
                0 <= i < ps.drop_first().len() ==> #[trigger] dep_lines(ps.drop_first())[i]
                    == dep_lines(ps)[i + 1]);
        }
        lemma_interp_cons(st, l0, dep_lines(ps.drop_first()));
        assert(pairs_wf(ps.drop_first())) by {
            assert(forall|i: int|
                0 <= i < ps.drop_first().len() ==> ps.drop_first()[i] == ps[i + 1]);
        }
        lemma_interp_dep_pairs(st2, ps.drop_first());
        assert(st2.deps->0 + ps.drop_first() =~= st.deps->0 + ps);
        assert(ParseFields { deps: Some(st2.deps->0 + ps.drop_first()), ..st2 } =~= ParseFields {
            deps: Some(st.deps->0 + ps),
            ..st
        });
    }
}

/// Interpreting the body lines of the `[dev_dependencies]` section appends
/// exactly the rendered pairs.
pub proof fn lemma_interp_dev_dep_pairs(st: ParseFields, ps: Seq<(Seq<char>, Seq<char>)>)
    requires
        st.section == Section::DevDependencies,
        st.dev_deps is Some,
        pairs_wf(ps),
    ensures
        interp_lines(st, dep_lines(ps)) == Some(
            ParseFields { dev_deps: Some(st.dev_deps->0 + ps), ..st },
        ),
    decreases ps.len(),
{
    if ps.len() == 0 {
        assert(dep_lines(ps) =~= Seq::<Seq<char>>::empty());
        assert(st.dev_deps->0 + ps =~= st.dev_deps->0);
        assert(ParseFields { dev_deps: Some(st.dev_deps->0 + ps), ..st } =~= st);
    } else {
        let p0 = ps[0];
        let l0 = quoted_line(p0.0, p0.1);
        assert(key_wf(p0.0) && manifest_str_wf(p0.1));
        lemma_classify_pair(p0.0, spec_quote(p0.1));
        lemma_parse_value_quoted(p0.1);
        let st2 = ParseFields { dev_deps: Some(st.dev_deps->0.push(p0)), ..st };
        assert(step_line(st, l0) == Some(st2));
        assert(dep_lines(ps) =~= seq![l0] + dep_lines(ps.drop_first())) by {
            assert(dep_lines(ps).len() == ps.len());
            assert(dep_lines(ps)[0] == l0);
            assert(forall|i: int|
                0 <= i < ps.drop_first().len() ==> #[trigger] dep_lines(ps.drop_first())[i]
                    == dep_lines(ps)[i + 1]);
        }
        lemma_interp_cons(st, l0, dep_lines(ps.drop_first()));
        assert(pairs_wf(ps.drop_first())) by {
            assert(forall|i: int|
                0 <= i < ps.drop_first().len() ==> ps.drop_first()[i] == ps[i + 1]);
        }
        lemma_interp_dev_dep_pairs(st2, ps.drop_first());
        assert(st2.dev_deps->0 + ps.drop_first() =~= st.dev_deps->0 + ps);
        assert(ParseFields { dev_deps: Some(st2.dev_deps->0 + ps.drop_first()), ..st2 }
            =~= ParseFields { dev_deps: Some(st.dev_deps->0 + ps), ..st });
    }
}

/// Interpreting an optional rendered `[dependencies]` section either keeps
/// the state or collects exactly its pairs.
pub proof fn lemma_interp_dep_section(st: ParseFields, pairs: Option<Seq<(Seq<char>, Seq<char>)>>)
    requires
        st.deps is None,
        pairs is Some ==> pairs_wf(pairs->0),
    ensures
        interp_lines(st, spec_dep_section_lines("dependencies"@, pairs)) == Some(
            match pairs {
                None => st,
                Some(ps) => ParseFields {
                    section: Section::Dependencies,
                    deps: Some(ps),
                    ..st
                },
            },
        ),
{
    lemma_manifest_literals();
    reveal_strlit("package");
    reveal_strlit("mpc");
    reveal_strlit("dependencies");
    reveal_strlit("dev_dependencies");
    match pairs {
        None => {
            assert(spec_dep_section_lines("dependencies"@, pairs) =~= Seq::<Seq<char>>::empty());
        },
        Some(ps) => {
            let b = blank_line();
            let h = header_line("dependencies"@);
            assert(spec_dep_section_lines("dependencies"@, pairs) =~= seq![b] + (seq![h]
                + dep_lines(ps)));
            assert(classify_line(b) == LineShape::Blank);
            lemma_classify_header("dependencies"@);
            let st1 = ParseFields {
                section: Section::Dependencies,
                deps: Some(Seq::<(Seq<char>, Seq<char>)>::empty()),
                ..st
            };
            assert(step_line(st, h) == Some(st1));
            lemma_interp_cons(st, b, seq![h] + dep_lines(ps));
            lemma_interp_cons(st, h, dep_lines(ps));
            lemma_interp_dep_pairs(st1, ps);
            assert(st1.deps->0 + ps =~= ps);
            assert(ParseFields { deps: Some(st1.deps->0 + ps), ..st1 } =~= ParseFields {
                section: Section::Dependencies,
                deps: Some(ps),
                ..st
            });
        },
    }
}

/// Interpreting an optional rendered `[dev_dependencies]` section either
/// keeps the state or collects exactly its pairs.
pub proof fn lemma_interp_dev_dep_section(
    st: ParseFields,
    pairs: Option<Seq<(Seq<char>, Seq<char>)>>,
)
    requires
        st.dev_deps is None,
        pairs is Some ==> pairs_wf(pairs->0),
    ensures
        interp_lines(st, spec_dep_section_lines("dev_dependencies"@, pairs)) == Some(
            match pairs {
                None => st,
                Some(ps) => ParseFields {
                    section: Section::DevDependencies,
                    dev_deps: Some(ps),
                    ..st
                },
            },
        ),
{
    lemma_manifest_literals();
    reveal_strlit("package");
    reveal_strlit("mpc");
    reveal_strlit("dependencies");
    reveal_strlit("dev_dependencies");
    match pairs {
        None => {
            assert(spec_dep_section_lines("dev_dependencies"@, pairs)
                =~= Seq::<Seq<char>>::empty());
        },
        Some(ps) => {
            let b = blank_line();
            let h = header_line("dev_dependencies"@);
            assert(spec_dep_section_lines("dev_dependencies"@, pairs) =~= seq![b] + (seq![h]
                + dep_lines(ps)));
            assert(classify_line(b) == LineShape::Blank);
            lemma_classify_header("dev_dependencies"@);
            let st1 = ParseFields {
                section: Section::DevDependencies,
                dev_deps: Some(Seq::<(Seq<char>, Seq<char>)>::empty()),
                ..st
            };
            assert(step_line(st, h) == Some(st1));
            lemma_interp_cons(st, b, seq![h] + dep_lines(ps));
            lemma_interp_cons(st, h, dep_lines(ps));
            lemma_interp_dev_dep_pairs(st1, ps);
            assert(st1.dev_deps->0 + ps =~= ps);
            assert(ParseFields { dev_deps: Some(st1.dev_deps->0 + ps), ..st1 } =~= ParseFields {
                section: Section::DevDependencies,
                dev_deps: Some(ps),
                ..st
            });
        },
    }
}

/// Round trip: a well-formed configuration rendered to manifest text and
/// parsed back yields exactly the original configuration — its package and
/// protocol fields and its dependency mappings alike.
#[verifier::rlimit(100)]
pub proof fn lemma_manifest_round_trip(c: ConfigView)
    requires
        config_wf(c),
    ensures
        spec_parse_manifest(spec_manifest_text(c)) == Some(c),
{
    lemma_manifest_lines_wf(c);
    lemma_split_join_lines(spec_manifest_lines(c));
    assert(split_lines(spec_manifest_text(c)) == spec_manifest_lines(c));

    let pkg = spec_package_lines(c.package);
    let mpc = spec_mpc_lines(c.mpc);
    let d1 = spec_dep_section_lines("dependencies"@, c.dependencies);
    let d2 = spec_dep_section_lines("dev_dependencies"@, c.dev_dependencies);
    assert(spec_manifest_lines(c) =~= pkg + (mpc + (d1 + d2)));

    lemma_interp_package(c.package);
    let st1 = ParseFields {
        section: Section::Package,
        name: Some(c.package.name),
        version: Some(c.package.version),
        description: c.package.description,
        authors: c.package.authors,
        license: c.package.license,
        protocol: None,
        parties: None,
        threshold: None,
        field: None,
        deps: None,
        dev_deps: None,
    };
    lemma_interp_lines_append(init_fields(), pkg, mpc + (d1 + d2));
    assert(interp_lines(init_fields(), pkg + (mpc + (d1 + d2))) == interp_lines(
        st1,
        mpc + (d1 + d2),
    ));

    lemma_interp_mpc(st1, c.mpc);
    let st2 = ParseFields {
        section: Section::Mpc,
        protocol: Some(c.mpc.protocol),
        parties: Some(c.mpc.parties),
        threshold: c.mpc.threshold,
        field: Some(c.mpc.field),
        ..st1
    };
    assert(interp_lines(st1, mpc) == Some(st2)) by {
        assert((if c.mpc.threshold is Some {
            c.mpc.threshold
        } else {
            st1.threshold
        }) == c.mpc.threshold);
    }
    lemma_interp_lines_append(st1, mpc, d1 + d2);
    assert(interp_lines(st1, mpc + (d1 + d2)) == interp_lines(st2, d1 + d2));

    lemma_interp_dep_section(st2, c.dependencies);
    let st3 = match c.dependencies {
        None => st2,
        Some(ps) => ParseFields { section: Section::Dependencies, deps: Some(ps), ..st2 },
    };
    lemma_interp_lines_append(st2, d1, d2);
    assert(interp_lines(st2, d1 + d2) == interp_lines(st3, d2));

    assert(st3.dev_deps is None);
    lemma_interp_dev_dep_section(st3, c.dev_dependencies);
    let st4 = match c.dev_dependencies {
        None => st3,
        Some(ps) => ParseFields { section: Section::DevDependencies, dev_deps: Some(ps), ..st3 },
    };
    assert(interp_lines(st3, d2) == Some(st4));

    assert(interp_lines(init_fields(), spec_manifest_lines(c)) == Some(st4));
    assert(st4.deps == c.dependencies);
    assert(st4.dev_deps == c.dev_dependencies);
    assert(finalize_fields(st4) =~~= Some(c));
}

} // verus!
