use vstd::prelude::*;
use crate::command::Extraction;
use crate::filter::{regex_matches, EntryFilter};
use crate::listing::{listing_names, try_to_tokenize_lines, views};

verus! {

/// How a run extracts what it selects. Built once, then only read.
#[derive(Debug)]
pub struct ExtractionConfig {
    /// The archive password; empty when the archives are not protected.
    pub password: String,
    /// Where extracted files are written.
    pub output_directory: String,
    /// Extract whole archives rather than the selected entries alone.
    pub extract_all: bool,
    /// Flip every bit of the extracted files.
    pub invert_output: bool,
}

/// The entries that a sequence of extractions names, `None` for a whole archive.
pub open spec fn targets(v: Seq<Extraction>) -> Seq<Option<Seq<char>>> {
    v.map_values(|x: Extraction| x.entry())
}

/// The extractions for the matched entries of one archive: one whole-archive
/// extraction when anything matched, or one extraction per matched entry.
pub open spec fn plan_spec(matched: Seq<Seq<char>>, extract_all: bool) -> Seq<Option<Seq<char>>> {
    if extract_all {
        if matched.len() > 0 {
            seq![None]
        } else {
            Seq::empty()
        }
    } else {
        matched.map_values(|e: Seq<char>| Some(e))
    }
}

/// The extractions for the matched entries of one archive.
pub fn plan_extractions(matched: &Vec<String>, extract_all: bool) -> (r: Vec<Extraction>)
    ensures
        targets(r@) == plan_spec(views(matched@), extract_all),
{
    let mut r: Vec<Extraction> = Vec::new();
    if extract_all {
        if matched.len() > 0 {
            r.push(Extraction::All);
        }
        assert(targets(r@) =~= plan_spec(views(matched@), extract_all));
        return r;
    }
    let mut i: usize = 0;
    while i < matched.len()
        invariant
            i <= matched@.len(),
            !extract_all,
            targets(r@) =~= views(matched@).take(i as int).map_values(|e: Seq<char>| Some(e)),
        decreases matched@.len() - i,
    {
        let ghost before = r@;
        let e = matched[i].clone();
        assert(e@ == views(matched@)[i as int]);
        r.push(Extraction::One(e));
        assert(targets(r@) =~= targets(before).push(Some(views(matched@)[i as int])));
        i = i + 1;
        assert(targets(r@) =~= views(matched@).take(i as int).map_values(
            |e: Seq<char>| Some(e),
        ));
    }
    assert(views(matched@).take(matched@.len() as int) =~= views(matched@));
    r
}

/// The extractions that one archive calls for: its entries that `filter`
/// selects, in listing order, planned as `plan_extractions` plans them.
pub fn plan_archive(filter: &EntryFilter, entries: &Vec<String>, extract_all: bool) -> (r: Vec<
    Extraction,
>)
    ensures
        targets(r@) == plan_spec(
            views(entries@).filter(|n: Seq<char>| regex_matches(filter.pattern(), n)),
            extract_all,
        ),
{
    let matched = filter.select_entries(entries);
    plan_extractions(&matched, extract_all)
}

/// What a run does with one archive once it has been listed.
#[derive(Debug)]
pub struct ArchivePlan {
    /// The selected entries, in listing order.
    pub matched: Vec<String>,
    /// The extractions to perform, in order.
    pub extractions: Vec<Extraction>,
}

/// The plan for one archive from the outcome of its listing: the entries of
/// the report that `filter` selects (none when the listing failed), and, when
/// the run extracts, the extractions that they call for.
pub fn plan_listing(
    filter: &EntryFilter,
    succeeded: bool,
    stdout: &str,
    extract: bool,
    extract_all: bool,
) -> (r: ArchivePlan)
    ensures
        succeeded ==> views(r.matched@) == listing_names(stdout@).filter(
            |n: Seq<char>| regex_matches(filter.pattern(), n),
        ),
        !succeeded ==> r.matched@.len() == 0,
        extract ==> targets(r.extractions@) == plan_spec(views(r.matched@), extract_all),
        !extract ==> r.extractions@.len() == 0,
{
    let entries = try_to_tokenize_lines(succeeded, stdout);
    let matched = filter.select_entries(&entries);
    if !succeeded {
        proof {
            reveal(Seq::filter);
        }
        assert(views(entries@) =~= Seq::<Seq<char>>::empty());
    }
    let extractions = if extract {
        plan_extractions(&matched, extract_all)
    } else {
        Vec::new()
    };
    ArchivePlan { matched, extractions }
}

/// In whole-archive mode an archive is extracted at most once, and exactly
/// once when at least one of its entries matched, however many did.
pub proof fn lemma_whole_archive_once(matched: Seq<Seq<char>>)
    ensures
        plan_spec(matched, true).len() <= 1,
        matched.len() > 0 ==> plan_spec(matched, true) == seq![None::<Seq<char>>],
{
}

/// Characters that separate the directories of an entry name.
pub open spec fn is_separator(c: char) -> bool {
    c == '/' || c == '\\'
}

/// Where the last component of `s[..e]` begins.
pub open spec fn base_start(s: Seq<char>, e: int) -> int
    decreases e,
{
    if 0 < e <= s.len() && !is_separator(s[e - 1]) {
        base_start(s, e - 1)
    } else {
        e
    }
}

/// The last component of an entry name: what follows its last separator.
pub open spec fn base_name(s: Seq<char>) -> Seq<char> {
    s.subrange(base_start(s, s.len() as int), s.len() as int)
}

proof fn lemma_base_start_bounds(s: Seq<char>, e: int)
    requires
        0 <= e <= s.len(),
    ensures
        0 <= base_start(s, e) <= e,
    decreases e,
{
    if 0 < e <= s.len() && !is_separator(s[e - 1]) {
        lemma_base_start_bounds(s, e - 1);
    }
}

/// The path that a single-entry extraction writes: the entry's base name in
/// the output directory, since such an extraction drops the entry's
/// directories.
pub fn single_output_path(output_directory: &str, entry: &str) -> (r: String)
    ensures
        r@ == output_directory@ + seq!['/'] + base_name(entry@),
{
    let chars = crate::listing::chars_of(entry);
    let n = chars.len();
    let mut b = n;
    while b > 0 && !(chars[b - 1] == '/' || chars[b - 1] == '\\')
        invariant
            b <= n == chars@.len(),
            chars@ == entry@,
            base_start(chars@, b as int) == base_start(chars@, n as int),
        decreases b,
    {
        b = b - 1;
    }
    proof {
        lemma_base_start_bounds(chars@, n as int);
        reveal_strlit("/");
        assert("/"@ =~= seq!['/']);
    }
    let mut base: Vec<char> = Vec::new();
    let mut i = b;
    while i < n
        invariant
            b <= i <= n == chars@.len(),
            base@ == chars@.subrange(b as int, i as int),
        decreases n - i,
    {
        base.push(chars[i]);
        i = i + 1;
    }
    let mut r = output_directory.to_owned();
    r.append("/");
    let base = crate::listing::string_from_chars(&base);
    r.append(base.as_str());
    assert(r@ =~= output_directory@ + seq!['/'] + base_name(entry@));
    r
}

/// The glob pattern that finds every path under `directory`.
pub fn tree_pattern(directory: &str) -> (r: String)
    ensures
        r@ == directory@ + seq!['/', '*', '*'],
{
    proof {
        reveal_strlit("/**");
        assert("/**"@ =~= seq!['/', '*', '*']);
    }
    let mut r = directory.to_owned();
    r.append("/**");
    r
}

/// The glob pattern that finds the archives to scan: `root` itself when it is
/// a file, else every `.7z` file under it.
pub fn archive_search_pattern(root: &str, root_is_file: bool) -> (r: String)
    ensures
        root_is_file ==> r@ == root@,
        !root_is_file ==> r@ == root@ + seq!['/', '*', '*', '/', '*', '.', '7', 'z'],
{
    if root_is_file {
        return root.to_owned();
    }
    proof {
        reveal_strlit("/**/*.7z");
        assert("/**/*.7z"@ =~= seq!['/', '*', '*', '/', '*', '.', '7', 'z']);
    }
    let mut r = root.to_owned();
    r.append("/**/*.7z");
    r
}

} // verus!
