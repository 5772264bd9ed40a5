use vstd::prelude::*;

verus! {

/// Fields that precede the name in a row of the brief listing report:
/// date, time, attributes, size and compressed size.
pub const NAME_FIELD: usize = 5;

/// Characters that separate the fields of a row.
pub open spec fn is_blank(c: char) -> bool {
    c == ' ' || c == '\t'
}

/// The first index at or after `i` that does not hold a separator.
pub open spec fn skip_blanks(l: Seq<char>, i: int) -> int
    decreases l.len() - i,
{
    if 0 <= i < l.len() && is_blank(l[i]) {
        skip_blanks(l, i + 1)
    } else {
        i
    }
}

/// The first index at or after `i` that holds a separator (or the end).
pub open spec fn skip_field(l: Seq<char>, i: int) -> int
    decreases l.len() - i,
{
    if 0 <= i < l.len() && !is_blank(l[i]) {
        skip_field(l, i + 1)
    } else {
        i
    }
}

/// Where field `k` of `l` begins, counting fields from index `i`;
/// `l.len()` when `l` has fewer fields.
pub open spec fn field_start(l: Seq<char>, i: int, k: nat) -> int
    decreases k,
{
    if k == 0 {
        skip_blanks(l, i)
    } else {
        field_start(l, skip_field(l, skip_blanks(l, i)), (k - 1) as nat)
    }
}

/// The end of `l` once the separators that trail index `e` are dropped.
pub open spec fn trim_end(l: Seq<char>, e: int) -> int
    decreases e,
{
    if 0 < e <= l.len() && is_blank(l[e - 1]) {
        trim_end(l, e - 1)
    } else {
        e
    }
}

/// A data row: it has the fields before the name and at least one field more.
pub open spec fn is_row(l: Seq<char>) -> bool {
    field_start(l, 0, NAME_FIELD as nat) < l.len()
}

/// `s` without one pair of enclosing double quotes.
pub open spec fn unquoted(s: Seq<char>) -> Seq<char> {
    if s.len() >= 2 && s[0] == '"' && s[s.len() - 1] == '"' {
        s.subrange(1, s.len() - 1)
    } else {
        s
    }
}

/// The entry name of a data row: every field from the name field on, with the
/// separators between them as they stand, without enclosing quotes.
pub open spec fn row_name(l: Seq<char>) -> Seq<char> {
    unquoted(l.subrange(field_start(l, 0, NAME_FIELD as nat), trim_end(l, l.len() as int)))
}

/// The first index at or after `i` that holds a line break (or the end).
pub open spec fn line_end(t: Seq<char>, i: int) -> int
    decreases t.len() - i,
{
    if 0 <= i < t.len() && t[i] != '\n' {
        line_end(t, i + 1)
    } else {
        i
    }
}

/// A line without its terminating carriage return.
pub open spec fn without_cr(l: Seq<char>) -> Seq<char> {
    if l.len() > 0 && l[l.len() - 1] == '\r' {
        l.drop_last()
    } else {
        l
    }
}

/// The lines of `t` from index `s` on. A line ends at `\n` or at the end of
/// the text, a final line break opens no empty line, and a carriage return
/// before the break is not part of the line.
pub open spec fn lines_from(t: Seq<char>, s: int) -> Seq<Seq<char>>
    decreases t.len() + 1 - s,
    via lines_from_decreases
{
    if 0 <= s < t.len() {
        let e = line_end(t, s);
        seq![without_cr(t.subrange(s, e))] + lines_from(t, e + 1)
    } else {
        Seq::empty()
    }
}

#[via_fn]
proof fn lines_from_decreases(t: Seq<char>, s: int) {
    if 0 <= s < t.len() {
        lemma_line_end_bounds(t, s);
    }
}

proof fn lemma_line_end_bounds(t: Seq<char>, i: int)
    requires
        0 <= i <= t.len(),
    ensures
        i <= line_end(t, i) <= t.len(),
        line_end(t, i) < t.len() ==> t[line_end(t, i)] == '\n',
    decreases t.len() - i,
{
    if 0 <= i < t.len() && t[i] != '\n' {
        lemma_line_end_bounds(t, i + 1);
    }
}

/// The lines of a listing report.
pub open spec fn lines_of(t: Seq<char>) -> Seq<Seq<char>> {
    lines_from(t, 0)
}

/// The names that a sequence of lines lists: one for each data row, in order.
pub open spec fn names_of_lines(ls: Seq<Seq<char>>) -> Seq<Seq<char>> {
    ls.filter(|l: Seq<char>| is_row(l)).map_values(|l: Seq<char>| row_name(l))
}

/// The entry names that a listing report lists.
pub open spec fn listing_names(t: Seq<char>) -> Seq<Seq<char>> {
    names_of_lines(lines_of(t))
}

/// The views of a sequence of strings.
pub open spec fn views(v: Seq<String>) -> Seq<Seq<char>> {
    v.map_values(|s: String| s@)
}

/// The characters of `text`, in order.
pub fn chars_of(text: &str) -> (r: Vec<char>)
    ensures
        r@ == text@,
{
    let mut v: Vec<char> = Vec::new();
    for c in it: text.chars()
        invariant
            v@ == it.seq().take(it.index()),
    {
        v.push(c);
    }
    v
}

fn is_blank_char(c: char) -> (r: bool)
    ensures
        r == is_blank(c),
{
    c == ' ' || c == '\t'
}

fn skip_blanks_at(l: &Vec<char>, i: usize) -> (r: usize)
    requires
        i <= l@.len(),
    ensures
        r as int == skip_blanks(l@, i as int),
        i <= r <= l@.len(),
{
    let mut j = i;
    while j < l.len() && is_blank_char(l[j])
        invariant
            i <= j <= l@.len(),
            skip_blanks(l@, j as int) == skip_blanks(l@, i as int),
        decreases l@.len() - j,
    {
        j = j + 1;
    }
    j
}

fn skip_field_at(l: &Vec<char>, i: usize) -> (r: usize)
    requires
        i <= l@.len(),
    ensures
        r as int == skip_field(l@, i as int),
        i <= r <= l@.len(),
{
    let mut j = i;
    while j < l.len() && !is_blank_char(l[j])
        invariant
            i <= j <= l@.len(),
            skip_field(l@, j as int) == skip_field(l@, i as int),
        decreases l@.len() - j,
    {
        j = j + 1;
    }
    j
}

/// Where the name field of `l` begins; `l.len()` when `l` has no name field.
fn name_start(l: &Vec<char>) -> (r: usize)
    ensures
        r as int == field_start(l@, 0, NAME_FIELD as nat),
        r <= l@.len(),
{
    let mut pos: usize = 0;
    let mut k: usize = 0;
    while k < NAME_FIELD
        invariant
            k <= NAME_FIELD,
            pos <= l@.len(),
            field_start(l@, pos as int, (NAME_FIELD - k) as nat) == field_start(
                l@,
                0,
                NAME_FIELD as nat,
            ),
        decreases NAME_FIELD - k,
    {
        let b = skip_blanks_at(l, pos);
        pos = skip_field_at(l, b);
        k = k + 1;
    }
    skip_blanks_at(l, pos)
}

proof fn lemma_trim_end_bounds(l: Seq<char>, e: int, s: int)
    requires
        0 <= s < e <= l.len(),
        !is_blank(l[s]),
    ensures
        s < trim_end(l, e) <= e,
    decreases e,
{
    if 0 < e <= l.len() && is_blank(l[e - 1]) {
        lemma_trim_end_bounds(l, e - 1, s);
    }
}

proof fn lemma_skip_blanks_lands(l: Seq<char>, i: int)
    requires
        0 <= i <= l.len(),
    ensures
        i <= skip_blanks(l, i) <= l.len(),
        skip_blanks(l, i) < l.len() ==> !is_blank(l[skip_blanks(l, i)]),
    decreases l.len() - i,
{
    if 0 <= i < l.len() && is_blank(l[i]) {
        lemma_skip_blanks_lands(l, i + 1);
    }
}

proof fn lemma_skip_field_bounds(l: Seq<char>, i: int)
    requires
        0 <= i <= l.len(),
    ensures
        i <= skip_field(l, i) <= l.len(),
    decreases l.len() - i,
{
    if 0 <= i < l.len() && !is_blank(l[i]) {
        lemma_skip_field_bounds(l, i + 1);
    }
}

/// A field that begins inside the line begins with a character that is no separator.
proof fn lemma_field_start_lands(l: Seq<char>, i: int, k: nat)
    requires
        0 <= i <= l.len(),
    ensures
        field_start(l, i, k) <= l.len(),
        field_start(l, i, k) < l.len() ==> !is_blank(l[field_start(l, i, k)]),
    decreases k,
{
    lemma_skip_blanks_lands(l, i);
    if k > 0 {
        lemma_skip_field_bounds(l, skip_blanks(l, i));
        lemma_field_start_lands(l, skip_field(l, skip_blanks(l, i)), (k - 1) as nat);
    }
}

/// Relies on `String`'s `FromIterator<&char>`: the string holds the
/// characters in the order given.
#[verifier::external_body]
pub(crate) fn string_from_chars(v: &Vec<char>) -> (r: String)
    ensures
        r@ == v@,
{
    String::from_iter(v.iter())
}

/// The entry name of one line of the listing report, or `None` when the line
/// is no data row (a header, a separator, or a row with fields missing).
pub fn parse_row(l: &Vec<char>) -> (r: Option<String>)
    ensures
        r.is_some() == is_row(l@),
        r matches Some(n) ==> n@ == row_name(l@),
{
    let s = name_start(l);
    let len = l.len();
    if s >= len {
        return None;
    }
    proof {
        lemma_field_start_lands(l@, 0, NAME_FIELD as nat);
    }
    let mut e = len;
    while e > 0 && is_blank_char(l[e - 1])
        invariant
            e <= len == l@.len(),
            trim_end(l@, e as int) == trim_end(l@, len as int),
        decreases e,
    {
        e = e - 1;
    }
    proof {
        lemma_trim_end_bounds(l@, len as int, s as int);
    }
    let quoted = e - s >= 2 && l[s] == '"' && l[e - 1] == '"';
    let a = if quoted { s + 1 } else { s };
    let b = if quoted { e - 1 } else { e };
    let mut name: Vec<char> = Vec::new();
    let mut i = a;
    while i < b
        invariant
            a <= i <= b <= l@.len(),
            name@ == l@.subrange(a as int, i as int),
        decreases b - i,
    {
        name.push(l[i]);
        i = i + 1;
    }
    assert(name@ =~= row_name(l@));
    Some(string_from_chars(&name))
}

proof fn lemma_names_push(ls: Seq<Seq<char>>, l: Seq<char>)
    ensures
        names_of_lines(ls.push(l)) == names_of_lines(ls) + (if is_row(l) {
            seq![row_name(l)]
        } else {
            Seq::empty()
        }),
{
    reveal(Seq::filter);
    assert(ls.push(l).drop_last() =~= ls);
    assert(ls.push(l).last() == l);
    assert(names_of_lines(ls.push(l)) =~= names_of_lines(ls) + (if is_row(l) {
        seq![row_name(l)]
    } else {
        Seq::empty()
    }));
}

/// Appends the name of line `l` to `names` when `l` is a data row.
fn take_row(names: &mut Vec<String>, l: &Vec<char>, done: Ghost<Seq<Seq<char>>>)
    requires
        views(old(names)@) == names_of_lines(done@),
    ensures
        views(final(names)@) == names_of_lines(done@.push(l@)),
{
    proof {
        lemma_names_push(done@, l@);
    }
    match parse_row(l) {
        Some(n) => {
            let ghost before = names@;
            names.push(n);
            assert(views(names@) =~= views(before) + seq![n@]);
        },
        None => {
            assert(names_of_lines(done@.push(l@)) =~= names_of_lines(done@));
        },
    }
}

/// The line `t[s..i]` without its terminating carriage return.
fn line_without_cr(line: Vec<char>) -> (r: Vec<char>)
    ensures
        r@ == without_cr(line@),
{
    let mut line = line;
    if line.len() > 0 && line[line.len() - 1] == '\r' {
        line.pop();
    }
    line
}

/// The entry names that a listing report lists, one for each data row, in the
/// order of the rows. Lines that are no data rows are skipped.
pub fn parse_listing(text: &str) -> (r: Vec<String>)
    ensures
        views(r@) == listing_names(text@),
{
    let t = chars_of(text);
    let mut names: Vec<String> = Vec::new();
    let mut line: Vec<char> = Vec::new();
    let ghost mut done: Seq<Seq<char>> = Seq::empty();
    let mut s: usize = 0;
    let mut i: usize = 0;
    assert(views(names@) =~= names_of_lines(done)) by {
        reveal(Seq::filter);
    }
    while i < t.len()
        invariant
            s <= i <= t@.len(),
            t@ == text@,
            line@ == t@.subrange(s as int, i as int),
            line_end(t@, s as int) == line_end(t@, i as int),
            lines_of(t@) == done + lines_from(t@, s as int),
            views(names@) == names_of_lines(done),
        decreases t@.len() - i,
    {
        if t[i] == '\n' {
            proof {
                lemma_line_end_bounds(t@, s as int);
            }
            let l = line_without_cr(line);
            take_row(&mut names, &l, Ghost(done));
            proof {
                assert(lines_from(t@, s as int) == seq![l@] + lines_from(t@, i + 1));
                assert(lines_of(t@) =~= done.push(l@) + lines_from(t@, i + 1));
                done = done.push(l@);
            }
            line = Vec::new();
            s = i + 1;
        } else {
            line.push(t[i]);
        }
        i = i + 1;
        assert(line@ =~= t@.subrange(s as int, i as int));
    }
    if line.len() > 0 {
        let l = line_without_cr(line);
        take_row(&mut names, &l, Ghost(done));
        proof {
            assert(lines_from(t@, s as int) == seq![l@] + lines_from(t@, t@.len() as int + 1));
            assert(lines_of(t@) =~= done.push(l@));
        }
    } else {
        assert(lines_of(t@) =~= done);
    }
    names
}

/// The entries of one archive from the outcome of the listing invocation:
/// the names of the report when the tool succeeded, none when it failed.
pub fn try_to_tokenize_lines(succeeded: bool, stdout: &str) -> (r: Vec<String>)
    ensures
        succeeded ==> views(r@) == listing_names(stdout@),
        !succeeded ==> r@.len() == 0,
{
    if succeeded {
        parse_listing(stdout)
    } else {
        Vec::new()
    }
}

proof fn lemma_filter_split(ls: Seq<Seq<char>>)
    ensures
        ls.filter(|l: Seq<char>| is_row(l)).len() + ls.filter(|l: Seq<char>| !is_row(l)).len()
            == ls.len(),
    decreases ls.len(),
{
    reveal(Seq::filter);
    if ls.len() > 0 {
        lemma_filter_split(ls.drop_last());
    }
}

/// Each line of a report is either a data row, which gives exactly one name,
/// or is skipped: the names are those of the data rows, in the order of the
/// lines, and the names and the skipped lines together number the lines.
pub proof fn lemma_rows_and_skipped(t: Seq<char>)
    ensures
        listing_names(t).len() == lines_of(t).filter(|l: Seq<char>| is_row(l)).len(),
        listing_names(t).len() + lines_of(t).filter(|l: Seq<char>| !is_row(l)).len()
            == lines_of(t).len(),
        forall|k: int|
            0 <= k < listing_names(t).len() ==> #[trigger] listing_names(t)[k] == row_name(
                lines_of(t).filter(|l: Seq<char>| is_row(l))[k],
            ),
{
    lemma_filter_split(lines_of(t));
}

} // verus!
