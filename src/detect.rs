//! Finding which rendering of a name a piece of text holds.
use vstd::prelude::*;

use crate::naming::{Naming, NamingCase};
use crate::replace::{case_at, case_in_order, CASE_COUNT};
use crate::text::{chars_of, contains_chars, occurs_in, replace_literal, replaced};

verus! {

/// The runs of word characters and hyphens in a string, in order, as the
/// regular expression `[\w\-]+` finds them.
pub uninterp spec fn word_runs(s: Seq<char>) -> Seq<Seq<char>>;

/// Whether a character has the Unicode `Lowercase` property.
pub uninterp spec fn is_lower_char(c: char) -> bool;

/// Relies on `regex::Regex::new` and `regex::Regex::find_iter`: the
/// successive non-overlapping matches of `[\w\-]+` in `s`, which depend on
/// `s` alone. The pattern is a valid one, so building it does not fail.
#[verifier::external_body]
fn find_word_runs(s: &str) -> (r: Vec<String>)
    ensures
        r@.map_values(|x: String| x@) == word_runs(s@),
{
    let re = regex::Regex::new(r"[\w\-]+").unwrap();
    re.find_iter(s).map(|m| m.as_str().to_string()).collect()
}

/// Relies on `char::is_lowercase`, which depends on the character alone.
#[verifier::external_body]
fn is_lowercase(c: char) -> (r: bool)
    ensures
        r == is_lower_char(c),
{
    c.is_lowercase()
}

/// The rendering that a single run shows by its punctuation and its first
/// character: an underscore means snake, a hyphen kebab, otherwise the case
/// of the first character decides between the two camel forms.
pub open spec fn classify(run: Seq<char>) -> Option<NamingCase> {
    if occurs_in(run, seq!['_']) {
        Some(NamingCase::SingularSnake)
    } else if occurs_in(run, seq!['-']) {
        Some(NamingCase::SingularKebab)
    } else if run.len() == 0 {
        None
    } else if is_lower_char(run[0]) {
        Some(NamingCase::SingularLowerCamel)
    } else {
        Some(NamingCase::SingularUpperCamel)
    }
}

/// The first of `runs` in which `v` occurs.
pub open spec fn first_run_with(runs: Seq<Seq<char>>, v: Seq<char>) -> Option<Seq<char>>
    decreases runs.len(),
{
    if runs.len() == 0 {
        None
    } else if occurs_in(runs[0], v) {
        Some(runs[0])
    } else {
        first_run_with(runs.drop_first(), v)
    }
}

/// The rendering detected in `text`, trying the renderings from position
/// `k` of the replacement order on. A name of several tokens is recognised
/// by its own text; a name of one token by the run of `runs` around it.
pub open spec fn detected_from(text: Seq<char>, n: Naming, runs: Seq<Seq<char>>, k: nat) -> Option<
    NamingCase,
>
    decreases CASE_COUNT - k,
{
    if k >= CASE_COUNT {
        None
    } else {
        let c = case_at(k as int);
        let v = n.variant(c);
        if !occurs_in(text, v) {
            detected_from(text, n, runs, k + 1)
        } else if n.token_count() > 1 {
            Some(c)
        } else {
            match first_run_with(runs, v) {
                Some(run) => classify(run),
                None => detected_from(text, n, runs, k + 1),
            }
        }
    }
}

/// The rendering of `n` detected in `text`, given the word runs of `text`.
pub open spec fn detected(text: Seq<char>, n: Naming, runs: Seq<Seq<char>>) -> Option<NamingCase> {
    detected_from(text, n, runs, 0)
}

/// The error of a case-preserving replacement in a text that holds no
/// rendering of the name.
#[derive(Clone, Copy, Debug, PartialEq, Eq, Structural)]
pub struct NoMatchingCase;

fn classify_run(run: &Vec<char>) -> (r: Option<NamingCase>)
    ensures
        r == classify(run@),
{
    let under = vec!['_'];
    let hyphen = vec!['-'];
    assert(under@ =~= seq!['_']);
    assert(hyphen@ =~= seq!['-']);
    if contains_chars(run, &under) {
        Some(NamingCase::SingularSnake)
    } else if contains_chars(run, &hyphen) {
        Some(NamingCase::SingularKebab)
    } else if run.len() == 0 {
        None
    } else if is_lowercase(run[0]) {
        Some(NamingCase::SingularLowerCamel)
    } else {
        Some(NamingCase::SingularUpperCamel)
    }
}

/// Detects the rendering of `naming` that `text` holds, given the word runs
/// of `text`.
pub fn get_case_in_runs(text: &str, naming: &Naming, runs: &Vec<String>) -> (r: Option<NamingCase>)
    ensures
        r == detected(text@, *naming, runs@.map_values(|x: String| x@)),
{
    let ghost rv = runs@.map_values(|x: String| x@);
    let t = chars_of(text);
    let count = naming.count();
    let mut k: usize = 0;
    while k < CASE_COUNT
        invariant
            k <= CASE_COUNT,
            t@ == text@,
            count == naming.token_count(),
            rv == runs@.map_values(|x: String| x@),
            detected(text@, *naming, rv) == detected_from(text@, *naming, rv, k as nat),
        decreases CASE_COUNT - k,
    {
        let c = case_in_order(k);
        let v = chars_of(naming.case(c));
        if contains_chars(&t, &v) {
            if count > 1 {
                return Some(c);
            }
            let mut j: usize = 0;
            assert(rv.subrange(0, rv.len() as int) =~= rv);
            while j < runs.len()
                invariant
                    j <= runs@.len(),
                    k < CASE_COUNT,
                    c == case_at(k as int),
                    v@ == naming.variant(c),
                    occurs_in(text@, v@),
                    count == naming.token_count(),
                    count <= 1,
                    detected(text@, *naming, rv) == detected_from(text@, *naming, rv, k as nat),
                    rv.len() == runs@.len(),
                    rv == runs@.map_values(|x: String| x@),
                    first_run_with(rv, v@) == first_run_with(
                        rv.subrange(j as int, rv.len() as int),
                        v@,
                    ),
                decreases runs@.len() - j,
            {
                let ghost rest = rv.subrange(j as int, rv.len() as int);
                assert(rest.drop_first() =~= rv.subrange(j + 1, rv.len() as int));
                assert(rest[0] == runs@[j as int]@);
                let run = chars_of(runs[j].as_str());
                if contains_chars(&run, &v) {
                    return classify_run(&run);
                }
                j = j + 1;
            }
        }
        k = k + 1;
    }
    None
}

/// Detects the rendering of `naming` that `text` holds.
pub fn get_case(text: &str, naming: &Naming) -> (r: Option<NamingCase>)
    ensures
        r == detected(text@, *naming, word_runs(text@)),
{
    let runs = find_word_runs(text);
    get_case_in_runs(text, naming, &runs)
}

/// Replaces in `text` the rendering of `from` that it holds by the same
/// rendering of `to`; fails where `text` holds none.
pub fn replace_naming_same_case(text: &str, from: &Naming, to: &Naming) -> (r: Result<
    String,
    NoMatchingCase,
>)
    ensures
        r is Err <==> detected(text@, *from, word_runs(text@)) is None,
        r is Ok ==> ({
            let c = detected(text@, *from, word_runs(text@))->Some_0;
            r->Ok_0@ == replaced(text@, from.variant(c), to.variant(c))
        }),
{
    match get_case(text, from) {
        None => Err(NoMatchingCase),
        Some(c) => Ok(replace_literal(text, from.case(c), to.case(c))),
    }
}

} // verus!
