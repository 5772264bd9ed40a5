use vstd::prelude::*;
use crate::listing::views;

verus! {

#[verifier::external_type_specification]
#[verifier::external_body]
pub struct ExRegex(regex::Regex);

/// Whether `pattern` compiles with the regex crate's default settings.
pub uninterp spec fn regex_compiles(pattern: Seq<char>) -> bool;

/// Whether the regex compiled from `pattern` matches anywhere in `haystack`.
pub uninterp spec fn regex_matches(pattern: Seq<char>, haystack: Seq<char>) -> bool;

/// Relies on `regex::Regex::new`: it returns a regex exactly when the pattern
/// is valid and within the default size limit, which depends on the pattern
/// alone. The error is kept as its message.
#[verifier::external_body]
fn compile_regex(pattern: &str) -> (r: Result<regex::Regex, String>)
    ensures
        r.is_ok() == regex_compiles(pattern@),
{
    match regex::Regex::new(pattern) {
        Ok(re) => Ok(re),
        Err(e) => Err(e.to_string()),
    }
}

/// Characters that the regex syntax gives a meaning of their own.
pub open spec fn is_meta(c: char) -> bool {
    c == '\\' || c == '.' || c == '+' || c == '*' || c == '?' || c == '(' || c == ')' || c
        == '|' || c == '[' || c == ']' || c == '{' || c == '}' || c == '^' || c == '$' || c
        == '#' || c == '&' || c == '-' || c == '~'
}

/// `s` with a backslash before each character of regex syntax, so that the
/// result matches `s` literally.
pub open spec fn escaped(s: Seq<char>) -> Seq<char>
    decreases s.len(),
{
    if s.len() == 0 {
        s
    } else {
        let rest = escaped(s.drop_last());
        let c = s.last();
        if is_meta(c) {
            rest + seq!['\\', c]
        } else {
            rest.push(c)
        }
    }
}

/// The wildcard that the term is wrapped in: any run of characters.
pub open spec fn wildcard() -> Seq<char> {
    seq!['.', '*']
}

/// The pattern that selects the names that contain `term`.
pub open spec fn term_pattern(term: Seq<char>) -> Seq<char> {
    wildcard() + term + wildcard()
}

/// How entry names are selected: by a term that they contain, or by a
/// regular expression that matches them.
#[derive(Debug)]
pub enum SelectionCriterion {
    Term(String),
    Pattern(String),
}

impl SelectionCriterion {
    /// The regular expression that decides the selection.
    pub open spec fn pattern(&self) -> Seq<char> {
        match self {
            SelectionCriterion::Term(t) => term_pattern(t@),
            SelectionCriterion::Pattern(p) => p@,
        }
    }

    /// The criterion of a run: the term when one is given, the regular
    /// expression otherwise.
    pub fn from_options(term: &str, regex: &str) -> (r: SelectionCriterion)
        ensures
            term@.len() > 0 ==> (r matches SelectionCriterion::Term(t) && t@ == term@),
            term@.len() == 0 ==> (r matches SelectionCriterion::Pattern(p) && p@ == regex@),
    {
        if term.is_empty() {
            SelectionCriterion::Pattern(regex.to_owned())
        } else {
            SelectionCriterion::Term(term.to_owned())
        }
    }
}

/// A selection criterion whose pattern does not compile.
#[derive(Debug)]
pub struct ConfigError {
    /// The pattern as it was given.
    pub pattern: String,
    /// What the regex crate reported.
    pub reason: String,
}

/// A compiled selection criterion.
#[derive(Debug)]
pub struct EntryFilter {
    pattern: String,
    re: regex::Regex,
}

impl EntryFilter {
    /// The regular expression that this filter was compiled from.
    pub closed spec fn pattern(&self) -> Seq<char> {
        self.pattern@
    }

    /// Compiles the criterion. This is the only way to make a filter, so the
    /// compiled regex of a filter always comes from its pattern.
    pub fn new(criterion: &SelectionCriterion) -> (r: Result<EntryFilter, ConfigError>)
        ensures
            r.is_ok() == regex_compiles(criterion.pattern()),
            r matches Ok(f) ==> f.pattern() == criterion.pattern(),
            r matches Err(e) ==> e.pattern@ == criterion.pattern(),
    {
        let pattern = match criterion {
            SelectionCriterion::Term(t) => {
                proof {
                    reveal_strlit(".*");
                }
                let w = ".*";
                assert(w@ =~= wildcard());
                let mut p = w.to_owned();
                p.append(t.as_str());
                p.append(w);
                assert(p@ =~= term_pattern(t@));
                p
            },
            SelectionCriterion::Pattern(p) => p.clone(),
        };
        assert(pattern@ == criterion.pattern());
        match compile_regex(pattern.as_str()) {
            Ok(re) => Ok(EntryFilter { pattern, re }),
            Err(reason) => Err(ConfigError { pattern, reason }),
        }
    }

    /// Relies on `regex::Regex::is_match` on the regex that `new` compiled
    /// from `self.pattern`: whether it matches anywhere in `name`.
    #[verifier::external_body]
    fn regex_is_match(&self, name: &str) -> (r: bool)
        ensures
            r == regex_matches(self.pattern(), name@),
    {
        self.re.is_match(name)
    }

    /// Whether the filter selects `name`: its pattern matches anywhere in the
    /// name, case-sensitively.
    pub fn is_match(&self, name: &str) -> (r: bool)
        ensures
            r == regex_matches(self.pattern(), name@),
    {
        self.regex_is_match(name)
    }

    /// The entries that the filter selects, in their order, duplicates kept.
    pub fn select_entries(&self, entries: &Vec<String>) -> (r: Vec<String>)
        ensures
            views(r@) == views(entries@).filter(|n: Seq<char>| regex_matches(self.pattern(), n)),
    {
        let mut r: Vec<String> = Vec::new();
        let mut i: usize = 0;
        proof {
            reveal(Seq::filter);
            assert(views(r@) =~= views(entries@).take(0).filter(
                |n: Seq<char>| regex_matches(self.pattern(), n),
            ));
        }
        while i < entries.len()
            invariant
                i <= entries@.len(),
                views(r@) == views(entries@).take(i as int).filter(
                    |n: Seq<char>| regex_matches(self.pattern(), n),
                ),
            decreases entries@.len() - i,
        {
            let ghost before = r@;
            let ghost vs = views(entries@);
            proof {
                reveal(Seq::filter);
                assert(vs.take(i + 1).drop_last() =~= vs.take(i as int));
                assert(vs.take(i + 1).last() == entries@[i as int]@);
            }
            if self.is_match(entries[i].as_str()) {
                r.push(entries[i].clone());
                assert(views(r@) =~= views(before).push(entries@[i as int]@));
            }
            i = i + 1;
        }
        assert(views(entries@).take(entries@.len() as int) =~= views(entries@));
        r
    }
}

proof fn lemma_escaped_plain(s: Seq<char>)
    requires
        forall|i: int| 0 <= i < s.len() ==> !is_meta(#[trigger] s[i]),
    ensures
        escaped(s) == s,
    decreases s.len(),
{
    if s.len() > 0 {
        let d = s.drop_last();
        assert forall|i: int| 0 <= i < d.len() implies !is_meta(#[trigger] d[i]) by {
            assert(d[i] == s[i]);
        }
        lemma_escaped_plain(d);
        assert(s.drop_last().push(s.last()) =~= s);
    }
}

/// A term that holds no character of regex syntax selects the same names as
/// the pattern made of the escaped term between two wildcards.
pub proof fn lemma_term_as_escaped_pattern(term: Seq<char>, name: Seq<char>)
    requires
        forall|i: int| 0 <= i < term.len() ==> !is_meta(#[trigger] term[i]),
    ensures
        regex_matches(term_pattern(term), name) == regex_matches(
            wildcard() + escaped(term) + wildcard(),
            name,
        ),
{
    lemma_escaped_plain(term);
}

} // verus!
