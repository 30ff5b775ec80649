//! Matching rules: regular expressions, as the `regex` crate compiles and runs
//! them.
use crate::text::to_owned_string;
use vstd::prelude::*;

verus! {

/// `regex::Regex`, declared so that a [`Rule`] can hold its compiled
/// expression; nothing inside a value of it is visible here.
#[verifier::external_type_specification]
#[verifier::external_body]
pub struct ExRegex(regex::Regex);

/// Whether `regex::Regex::new` accepts `pattern`.
pub uninterp spec fn regex_compiles(pattern: Seq<char>) -> bool;

/// What `regex::Regex::is_match` answers on `haystack` for the expression
/// compiled from `pattern`.
pub uninterp spec fn regex_matches(pattern: Seq<char>, haystack: Seq<char>) -> bool;

/// What `regex::Regex::captures` reports on `haystack` for the expression
/// compiled from `pattern`: `None` when there is no match, otherwise each
/// capture group in order (group 0 is the whole match), with its text, or
/// `None` for a group that took no part in the match.
pub uninterp spec fn regex_captures(pattern: Seq<char>, haystack: Seq<char>) -> Option<
    Seq<Option<Seq<char>>>,
>;

/// The text of each group, a group that took no part in the match giving
/// the empty text.
pub open spec fn group_texts(groups: Seq<Option<Seq<char>>>) -> Seq<Seq<char>> {
    groups.map_values(
        |g: Option<Seq<char>>|
            match g {
                Some(t) => t,
                None => Seq::<char>::empty(),
            },
    )
}

/// The texts of the capture groups of the first match of `pattern` in
/// `haystack` (see [`group_texts`]); `None` where there is no match.
pub open spec fn captured_texts(pattern: Seq<char>, haystack: Seq<char>) -> Option<Seq<Seq<char>>> {
    match regex_captures(pattern, haystack) {
        Some(groups) => Some(group_texts(groups)),
        None => None,
    }
}

/// The views of a sequence of optional strings.
pub open spec fn optional_string_views(v: Seq<Option<String>>) -> Seq<Option<Seq<char>>> {
    v.map_values(
        |g: Option<String>|
            match g {
                Some(t) => Some(t@),
                None => None,
            },
    )
}

/// The views of a sequence of strings.
pub open spec fn string_views(v: Seq<String>) -> Seq<Seq<char>> {
    v.map_values(|s: String| s@)
}

/// A compiled regular expression, with the pattern it was compiled from.
///
/// A `Rule` is only made by [`Rule::new`], which stores the pattern it was
/// given and the expression compiled from it, or copied by `clone`; the two
/// fields are never changed afterwards.
#[derive(Debug)]
pub struct Rule {
    pattern: String,
    compiled: regex::Regex,
}

impl View for Rule {
    type V = Seq<char>;

    closed spec fn view(&self) -> Seq<char> {
        self.pattern@
    }
}

/// A copy of a compiled expression, made with `regex::Regex`'s `clone`.
/// Nothing is stated of the copy: the expression is opaque here.
#[verifier::external_body]
fn clone_regex(re: &regex::Regex) -> regex::Regex {
    re.clone()
}

impl Clone for Rule {
    /// A copy of the rule: the same pattern and a copy of its compiled form.
    fn clone(&self) -> (res: Self)
        ensures
            res@ == self@,
    {
        Rule { pattern: self.pattern.clone(), compiled: clone_regex(&self.compiled) }
    }
}

/// Compiles `pattern` with `regex::Regex::new`; `None` where the crate
/// refuses the pattern. The contract claims that the crate accepts a pattern
/// exactly when `regex_compiles` holds of it.
#[verifier::external_body]
fn compile(pattern: &str) -> (res: Option<regex::Regex>)
    ensures
        res is Some <==> regex_compiles(pattern@),
{
    regex::Regex::new(pattern).ok()
}

impl Rule {
    /// The pattern the rule was compiled from.
    pub fn pattern(&self) -> (res: String)
        ensures
            res@ == self@,
    {
        self.pattern.clone()
    }

    /// Whether the expression matches somewhere in `haystack`, by
    /// `regex::Regex::is_match` on the compiled expression. The contract
    /// claims the answer is `regex_matches` of the rule's pattern and the
    /// haystack: a `Rule` is only made by [`Rule::new`], which stores the
    /// expression compiled from the pattern it keeps, or by cloning one.
    #[verifier::external_body]
    fn regex_is_match(&self, haystack: &str) -> (res: bool)
        ensures
            res == regex_matches(self@, haystack@),
    {
        self.compiled.is_match(haystack)
    }

    /// The capture groups of the first match in `haystack`, by
    /// `regex::Regex::captures` and `regex::Captures::iter`: each group's
    /// text, or `None` for a group that took no part in the match. The
    /// contract claims the result is `regex_captures` of the rule's pattern
    /// and the haystack (a `Rule` holds the expression compiled from its
    /// pattern, as for `regex_is_match`).
    #[verifier::external_body]
    fn regex_captures_of(&self, haystack: &str) -> (res: Option<Vec<Option<String>>>)
        ensures
            match res {
                Some(groups) => regex_captures(self@, haystack@) == Some(
                    optional_string_views(groups@),
                ),
                None => regex_captures(self@, haystack@) is None,
            },
    {
        self.compiled.captures(haystack).map(
            |caps| caps.iter().map(|m| m.map(|m| m.as_str().to_string())).collect(),
        )
    }
}

impl Rule {
    /// The rule compiled from `pattern`, or `None` where the pattern is not a
    /// valid regular expression.
    pub fn new(pattern: &str) -> (res: Option<Rule>)
        ensures
            res is Some <==> regex_compiles(pattern@),
            res matches Some(r) ==> r@ == pattern@,
    {
        match compile(pattern) {
            Some(compiled) => Some(Rule { pattern: to_owned_string(pattern), compiled }),
            None => None,
        }
    }

    /// Whether the expression matches somewhere in `haystack`.
    pub fn is_match(&self, haystack: &str) -> (res: bool)
        ensures
            res == regex_matches(self@, haystack@),
    {
        self.regex_is_match(haystack)
    }

    /// The texts of the capture groups of the first match in `haystack`, a
    /// group that took no part in the match giving the empty string; `None`
    /// where the expression does not match.
    pub fn captures(&self, haystack: &str) -> (res: Option<Vec<String>>)
        ensures
            match res {
                Some(groups) => captured_texts(self@, haystack@) == Some(string_views(groups@)),
                None => captured_texts(self@, haystack@) is None,
            },
    {
        match self.regex_captures_of(haystack) {
            Some(groups) => {
                let ghost g = optional_string_views(groups@);
                let mut texts: Vec<String> = Vec::new();
                let mut i: usize = 0;
                while i < groups.len()
                    invariant
                        i <= groups@.len(),
                        g == optional_string_views(groups@),
                        string_views(texts@) == group_texts(g.take(i as int)),
                    decreases groups@.len() - i,
                {
                    let ghost before = texts@;
                    let text = match &groups[i] {
                        Some(t) => t.clone(),
                        None => String::new(),
                    };
                    let ghost expected = match g[i as int] {
                        Some(t) => t,
                        None => Seq::<char>::empty(),
                    };
                    assert(text@ == expected);
                    texts.push(text);
                    proof {
                        assert(g.take(i + 1) =~= g.take(i as int).push(g[i as int]));
                        assert(group_texts(g.take(i + 1)) =~= group_texts(g.take(i as int)).push(
                            expected,
                        ));
                        assert(string_views(texts@) =~= string_views(before).push(expected));
                    }
                    i = i + 1;
                }
                assert(g.take(i as int) =~= g);
                Some(texts)
            },
            None => None,
        }
    }
}

} // verus!
