//! Compilation orchestration: building the external compiler's argument
//! list, deciding how a batch treats a custom output path, discovering
//! source files in a deterministic order, and summarizing batch results.
//!
//! Spawning the external compiler itself is I/O and lives with the caller;
//! everything decided here is verified.

use vstd::prelude::*;
use vstd::string::StrSliceExecFns;
use vstd::string::StringExecFns;
use crate::numbers::dec_rep;

verus! {

/// The argument list handed to the external compiler: the source file,
/// then `-o <output>`, `--binary`, `--disassemble`, `--print-ir`, and
/// `-O<level>`, each only when requested (level zero passes no flag).
pub open spec fn spec_compiler_args(
    file: Seq<char>,
    output: Option<Seq<char>>,
    binary: bool,
    disassemble: bool,
    print_ir: bool,
    opt_level: u8,
) -> Seq<Seq<char>> {
    seq![file] + (match output {
        Some(o) => seq!["-o"@, o],
        None => Seq::<Seq<char>>::empty(),
    }) + (if binary {
        seq!["--binary"@]
    } else {
        Seq::<Seq<char>>::empty()
    }) + (if disassemble {
        seq!["--disassemble"@]
    } else {
        Seq::<Seq<char>>::empty()
    }) + (if print_ir {
        seq!["--print-ir"@]
    } else {
        Seq::<Seq<char>>::empty()
    }) + (if opt_level > 0 {
        seq!["-O"@ + dec_rep(opt_level as nat)]
    } else {
        Seq::<Seq<char>>::empty()
    })
}

/// Build the argument list for one external compiler invocation.
pub fn build_compiler_args(
    file: &str,
    output: &Option<String>,
    binary: bool,
    disassemble: bool,
    print_ir: bool,
    opt_level: u8,
) -> (args: Vec<String>)
    requires
        opt_level <= 3,
    ensures
        args.deep_view() == spec_compiler_args(
            file@,
            match output {
                Some(o) => Some(o@),
                None => None,
            },
            binary,
            disassemble,
            print_ir,
            opt_level,
        ),
{
    let mut args: Vec<String> = Vec::new();
    args.push(String::from_str(file));
    match output {
        Some(o) => {
            args.push(String::from_str("-o"));
            args.push(o.clone());
        },
        None => {},
    }
    if binary {
        args.push(String::from_str("--binary"));
    }
    if disassemble {
        args.push(String::from_str("--disassemble"));
    }
    if print_ir {
        args.push(String::from_str("--print-ir"));
    }
    if opt_level > 0 {
        let mut flag = String::from_str("-O");
        let digits = crate::numbers::u8_to_string(opt_level);
        flag.append(digits.as_str());
        assert(flag@ =~= "-O"@ + dec_rep(opt_level as nat));
        args.push(flag);
    }
    assert(args.deep_view() =~~= spec_compiler_args(
        file@,
        match output {
            Some(o) => Some(o@),
            None => None,
        },
        binary,
        disassemble,
        print_ir,
        opt_level,
    ));
    args
}

/// Check the requested optimization level before anything is spawned.
///
/// Levels zero through three are accepted; anything larger is rejected
/// with the message the command prints.
pub fn validate_opt_level(opt_level: u8) -> (r: Result<(), String>)
    ensures
        r is Ok <==> opt_level <= 3,
        r is Err ==> r->Err_0@ == "Invalid optimization level: "@ + dec_rep(opt_level as nat)
            + ". Must be 0-3."@,
{
    if opt_level > 3 {
        let mut s = String::from_str("Invalid optimization level: ");
        let digits = crate::numbers::u8_to_string(opt_level);
        s.append(digits.as_str());
        s.append(". Must be 0-3.");
        assert(s@ =~= "Invalid optimization level: "@ + dec_rep(opt_level as nat)
            + ". Must be 0-3."@);
        Err(s)
    } else {
        Ok(())
    }
}

/// Decide how a batch treats a caller-supplied output path: it is honored
/// only when at most one file will be compiled; for larger batches it is
/// dropped with a warning, since every file would collide on it.
pub fn plan_batch_output(output: &Option<String>, n_files: usize) -> (r: (Option<String>, bool))
    ensures
        r.1 == (output is Some && n_files > 1),
        r.1 ==> r.0 is None,
        !r.1 ==> match (r.0, output) {
            (Some(a), Some(b)) => a@ == b@,
            (None, None) => true,
            _ => false,
        },
{
    match output {
        Some(o) => {
            if n_files > 1 {
                (None, true)
            } else {
                (Some(o.clone()), false)
            }
        },
        None => (None, false),
    }
}

/// How many results in a batch succeeded.
pub open spec fn count_successes(s: Seq<bool>) -> nat
    decreases s.len(),
{
    if s.len() == 0 {
        0
    } else {
        count_successes(s.drop_last()) + (if s.last() {
            1nat
        } else {
            0nat
        })
    }
}

/// No more results succeed than there are results, and every result
/// succeeded exactly when the count reaches the length.
pub proof fn lemma_count_successes_bounds(s: Seq<bool>)
    ensures
        count_successes(s) <= s.len(),
        count_successes(s) == s.len() <==> (forall|i: int| 0 <= i < s.len() ==> s[i]),
    decreases s.len(),
{
    if s.len() > 0 {
        lemma_count_successes_bounds(s.drop_last());
        assert(forall|i: int| 0 <= i < s.len() - 1 ==> s.drop_last()[i] == s[i]);
        if count_successes(s) == s.len() {
            assert(count_successes(s.drop_last()) == s.drop_last().len());
            assert forall|i: int| 0 <= i < s.len() implies s[i] by {
                if i < s.len() - 1 {
                    assert(s.drop_last()[i]);
                }
            }
        }
        if forall|i: int| 0 <= i < s.len() ==> s[i] {
            assert forall|i: int| 0 <= i < s.drop_last().len() implies s.drop_last()[i] by {
                assert(s[i]);
            }
            assert(s.last());
        }
    }
}

/// The counts a finished batch reports.
pub struct BatchSummary {
    pub successful: usize,
    pub failed: usize,
    pub total: usize,
}

/// Tally per-file results: the success and failure counts always sum to
/// the number of files attempted.
pub fn summarize_batch(results: &Vec<bool>) -> (s: BatchSummary)
    ensures
        s.total == results@.len(),
        s.successful == count_successes(results@),
        s.successful + s.failed == s.total,
{
    let mut successful: usize = 0;
    let mut i: usize = 0;
    while i < results.len()
        invariant
            i <= results@.len(),
            successful == count_successes(results@.subrange(0, i as int)),
            successful <= i,
        decreases results@.len() - i,
    {
        proof {
            assert(results@.subrange(0, i + 1).drop_last() =~= results@.subrange(0, i as int));
            assert(results@.subrange(0, i + 1).last() == results@[i as int]);
        }
        if results[i] {
            successful = successful + 1;
        }
        i = i + 1;
    }
    proof {
        assert(results@.subrange(0, results@.len() as int) =~= results@);
    }
    let total = results.len();
    BatchSummary { successful, failed: total - successful, total }
}

/// Whether a finished batch counts as a success: no file failed.
pub fn batch_succeeded(summary: &BatchSummary) -> (r: bool)
    ensures
        r == (summary.failed == 0),
{
    summary.failed == 0
}

/// Lexicographic order on character sequences, by character code.
pub open spec fn lex_le(a: Seq<char>, b: Seq<char>) -> bool
    decreases a.len(),
{
    if a.len() == 0 {
        true
    } else if b.len() == 0 {
        false
    } else if (a[0] as u32) < (b[0] as u32) {
        true
    } else if (b[0] as u32) < (a[0] as u32) {
        false
    } else {
        lex_le(a.drop_first(), b.drop_first())
    }
}

/// Any two character sequences compare in at least one direction.
pub proof fn lemma_lex_le_total(a: Seq<char>, b: Seq<char>)
    ensures
        lex_le(a, b) || lex_le(b, a),
    decreases a.len(),
{
    if a.len() > 0 && b.len() > 0 && !((a[0] as u32) < (b[0] as u32)) && !((b[0] as u32) < (
    a[0] as u32)) {
        lemma_lex_le_total(a.drop_first(), b.drop_first());
    }
}

/// Lexicographic order is transitive.
pub proof fn lemma_lex_le_trans(a: Seq<char>, b: Seq<char>, c: Seq<char>)
    requires
        lex_le(a, b),
        lex_le(b, c),
    ensures
        lex_le(a, c),
    decreases a.len(),
{
    if a.len() > 0 && b.len() > 0 && c.len() > 0 {
        if !((a[0] as u32) < (b[0] as u32)) && !((b[0] as u32) < (a[0] as u32)) && !((
        b[0] as u32) < (c[0] as u32)) && !((c[0] as u32) < (b[0] as u32)) {
            lemma_lex_le_trans(a.drop_first(), b.drop_first(), c.drop_first());
        }
    }
}

/// Decide `a <= b` in lexicographic order.
pub fn str_le(a: &str, b: &str) -> (r: bool)
    ensures
        r == lex_le(a@, b@),
{
    let na = a.unicode_len();
    let nb = b.unicode_len();
    let mut i: usize = 0;
    proof {
        assert(a@.skip(0) =~= a@);
        assert(b@.skip(0) =~= b@);
    }
    while i < na && i < nb
        invariant
            na == a@.len(),
            nb == b@.len(),
            i <= na,
            i <= nb,
            lex_le(a@, b@) == lex_le(a@.skip(i as int), b@.skip(i as int)),
        decreases na - i,
    {
        let ca = a.get_char(i);
        let cb = b.get_char(i);
        let ghost sa = a@.skip(i as int);
        let ghost sb = b@.skip(i as int);
        proof {
            assert(sa.len() > 0);
            assert(sb.len() > 0);
            assert(sa[0] == a@[i as int]);
            assert(sb[0] == b@[i as int]);
        }
        if (ca as u32) < (cb as u32) {
            return true;
        }
        if (cb as u32) < (ca as u32) {
            return false;
        }
        proof {
            assert(sa.drop_first() =~= a@.skip(i + 1));
            assert(sb.drop_first() =~= b@.skip(i + 1));
        }
        i = i + 1;
    }
    proof {
        if i >= na {
            assert(a@.skip(i as int).len() == 0);
        } else {
            assert(b@.skip(i as int).len() == 0);
            assert(a@.skip(i as int).len() > 0);
        }
    }
    i >= na
}

/// Whether a path ends in the StoffelLang source extension.
pub open spec fn has_stfl_ext(s: Seq<char>) -> bool {
    s.len() >= 5 && s.subrange(s.len() - 5, s.len() as int) == ".stfl"@
}

/// Decide whether a path ends in `.stfl`.
pub fn is_stfl_file(path: &str) -> (r: bool)
    ensures
        r == has_stfl_ext(path@),
{
    proof {
        reveal_strlit(".stfl");
    }
    let n = path.unicode_len();
    if n < 5 {
        return false;
    }
    let r = path.get_char(n - 5) == '.' && path.get_char(n - 4) == 's' && path.get_char(n - 3)
        == 't' && path.get_char(n - 2) == 'f' && path.get_char(n - 1) == 'l';
    proof {
        let tail = path@.subrange(n - 5, n as int);
        if r {
            assert(tail =~= ".stfl"@);
        } else {
            if tail == ".stfl"@ {
                assert(tail[0] == '.');
                assert(tail[1] == 's');
                assert(tail[2] == 't');
                assert(tail[3] == 'f');
                assert(tail[4] == 'l');
                assert(false);
            }
        }
    }
    r
}

/// Whether a list of strings is sorted lexicographically.
pub open spec fn strings_sorted(s: Seq<String>) -> bool {
    forall|i: int, j: int| 0 <= i < j < s.len() ==> lex_le(s[i]@, s[j]@)
}

/// Inserting into a sequence adds exactly one occurrence to its multiset.
pub proof fn lemma_insert_to_multiset<A>(s: Seq<A>, k: int, x: A)
    requires
        0 <= k <= s.len(),
    ensures
        s.insert(k, x).to_multiset() =~= s.to_multiset().insert(x),
{
    broadcast use vstd::seq_lib::group_to_multiset_ensures;

    vstd::seq_lib::to_multiset_insert(s, k, x);
}

/// Sort strings lexicographically; the result is a permutation of the
/// input.
pub fn sort_strings(v: &Vec<String>) -> (r: Vec<String>)
    ensures
        strings_sorted(r@),
        r@.to_multiset() == v@.to_multiset(),
{
    broadcast use vstd::seq_lib::group_to_multiset_ensures;

    let mut r: Vec<String> = Vec::new();
    let mut i: usize = 0;
    proof {
        assert(v@.subrange(0, 0) =~= Seq::<String>::empty());
        assert(r@.to_multiset() =~= v@.subrange(0, 0).to_multiset());
    }
    while i < v.len()
        invariant
            i <= v@.len(),
            strings_sorted(r@),
            r@.to_multiset() == v@.subrange(0, i as int).to_multiset(),
        decreases v@.len() - i,
    {
        let x = v[i].clone();
        let mut k: usize = 0;
        while k < r.len() && str_le(r[k].as_str(), x.as_str())
            invariant
                i < v@.len(),
                k <= r@.len(),
                x == v@[i as int],
                strings_sorted(r@),
                forall|j: int| 0 <= j < k ==> lex_le(r@[j]@, x@),
            decreases r@.len() - k,
        {
            k = k + 1;
        }
        proof {
            if k < r@.len() {
                lemma_lex_le_total(r@[k as int]@, x@);
                assert(lex_le(x@, r@[k as int]@));
            }
        }
        let ghost r0 = r@;
        r.insert(k, x);
        proof {
            lemma_insert_to_multiset(r0, k as int, v@[i as int]);
            assert(v@.subrange(0, i + 1) =~= v@.subrange(0, i as int).push(v@[i as int]));
            vstd::seq_lib::to_multiset_build(v@.subrange(0, i as int), v@[i as int]);
            assert(v@.subrange(0, i + 1).to_multiset() =~= v@.subrange(
                0,
                i as int,
            ).to_multiset().insert(v@[i as int]));
            // everything before the insertion point precedes x, and x
            // precedes everything from the insertion point on
            assert forall|j: int| k <= j < r0.len() implies lex_le(x@, r0[j]@) by {
                if j > k {
                    lemma_lex_le_trans(x@, r0[k as int]@, r0[j]@);
                }
            }
            let rn = r@;
            assert forall|p: int, q: int| 0 <= p < q < rn.len() implies lex_le(
                rn[p]@,
                rn[q]@,
            ) by {
                if q < k {
                    assert(rn[p] == r0[p] && rn[q] == r0[q]);
                } else if p > k {
                    assert(rn[p] == r0[p - 1] && rn[q] == r0[q - 1]);
                } else if p < k && q == k {
                    assert(rn[p] == r0[p]);
                    assert(rn[q] == x);
                } else if p == k {
                    assert(rn[p] == x);
                    assert(rn[q] == r0[q - 1]);
                    assert(lex_le(x@, r0[q - 1]@));
                } else {
                    assert(p < k && q > k);
                    assert(rn[p] == r0[p]);
                    assert(rn[q] == r0[q - 1]);
                    assert(lex_le(r0[p]@, x@));
                    assert(lex_le(x@, r0[q - 1]@));
                    lemma_lex_le_trans(r0[p]@, x@, r0[q - 1]@);
                }
            }
        }
        i = i + 1;
    }
    proof {
        assert(v@.subrange(0, v@.len() as int) =~= v@);
    }
    r
}

/// Select the StoffelLang source files among the given paths and order
/// them lexicographically, so batch compilation is deterministic.
pub fn find_stfl_files(paths: Vec<String>) -> (r: Vec<String>)
    ensures
        strings_sorted(r@),
        r@.to_multiset() == paths@.filter(|s: String| has_stfl_ext(s@)).to_multiset(),
        forall|i: int| 0 <= i < r@.len() ==> has_stfl_ext(#[trigger] r@[i]@),
{
    broadcast use vstd::seq_lib::group_filter_ensures;

    let ghost pred = |s: String| has_stfl_ext(s@);
    let mut kept: Vec<String> = Vec::new();
    let mut i: usize = 0;
    proof {
        reveal(Seq::filter);
        assert(paths@.subrange(0, 0) =~= Seq::<String>::empty());
        assert(kept@ =~= paths@.subrange(0, 0).filter(pred));
    }
    while i < paths.len()
        invariant
            i <= paths@.len(),
            pred == (|s: String| has_stfl_ext(s@)),
            kept@ == paths@.subrange(0, i as int).filter(pred),
        decreases paths@.len() - i,
    {
        let keep = is_stfl_file(paths[i].as_str());
        proof {
            reveal(Seq::filter);
            assert(paths@.subrange(0, i + 1).drop_last() =~= paths@.subrange(0, i as int));
            assert(paths@.subrange(0, i + 1).last() == paths@[i as int]);
        }
        if keep {
            kept.push(paths[i].clone());
        }
        i = i + 1;
    }
    proof {
        assert(paths@.subrange(0, paths@.len() as int) =~= paths@);
    }
    let r = sort_strings(&kept);
    proof {
        broadcast use vstd::seq_lib::group_to_multiset_ensures;

        assert forall|i: int| 0 <= i < r@.len() implies has_stfl_ext(#[trigger] r@[i]@) by {
            assert(r@.to_multiset().contains(r@[i]));
            assert(kept@.to_multiset().contains(r@[i]));
            assert(kept@.contains(r@[i]));
            let j = choose|j: int| 0 <= j < kept@.len() && kept@[j] == r@[i];
            assert(pred(kept@[j]));
        }
    }
    r
}

} // verus!
