use vstd::prelude::*;
use crate::listing::views;

verus! {

/// The archive program that lists and extracts.
pub const ARCHIVE_PROGRAM: &'static str = "7z";

/// The option that hands the password to the archive program, when there is one.
pub open spec fn password_args(password: Seq<char>) -> Seq<Seq<char>> {
    if password.len() > 0 {
        seq![seq!['-', 'p'] + password]
    } else {
        Seq::empty()
    }
}

/// The arguments that list an archive recursively in the brief report format.
pub open spec fn list_args_spec(archive: Seq<char>, password: Seq<char>) -> Seq<Seq<char>> {
    seq![seq!['l'], seq!['-', 'r'], seq!['-', 'b', 'a']] + password_args(password) + seq![
        archive,
    ]
}

/// One extraction from an archive.
#[derive(Debug)]
pub enum Extraction {
    /// The named entry alone, written flat into the output directory.
    One(String),
    /// Every entry, with the archive's directory structure.
    All,
}

impl Extraction {
    /// The entry that the extraction names, if it names one.
    pub open spec fn entry(&self) -> Option<Seq<char>> {
        match self {
            Extraction::One(e) => Some(e@),
            Extraction::All => None,
        }
    }
}

/// The arguments that perform an extraction: the command, the archive, the
/// entry when there is one, the password option when there is a password,
/// then consent to overwrite and the output directory.
pub open spec fn extract_args_spec(
    archive: Seq<char>,
    entry: Option<Seq<char>>,
    output_directory: Seq<char>,
    password: Seq<char>,
) -> Seq<Seq<char>> {
    let head = match entry {
        Some(e) => seq![seq!['e'], archive, e],
        None => seq![seq!['x'], archive],
    };
    head + password_args(password) + seq![seq!['-', 'y'], seq!['-', 'o'] + output_directory]
}

fn joined(prefix: &str, value: &str) -> (r: String)
    ensures
        r@ == prefix@ + value@,
{
    let mut r = prefix.to_owned();
    r.append(value);
    r
}

fn push_password(args: &mut Vec<String>, password: &str)
    ensures
        views(final(args)@) == views(old(args)@) + password_args(password@),
{
    let ghost before = args@;
    if !password.is_empty() {
        proof {
            reveal_strlit("-p");
            assert("-p"@ =~= seq!['-', 'p']);
        }
        args.push(joined("-p", password));
        assert(views(args@) =~= views(before) + password_args(password@));
    } else {
        assert(views(args@) =~= views(before) + password_args(password@));
    }
}

/// The arguments of the archive program that list `archive`.
pub fn list_args(archive: &str, password: &str) -> (r: Vec<String>)
    ensures
        views(r@) == list_args_spec(archive@, password@),
{
    proof {
        reveal_strlit("l");
        reveal_strlit("-r");
        reveal_strlit("-ba");
        assert("l"@ =~= seq!['l']);
        assert("-r"@ =~= seq!['-', 'r']);
        assert("-ba"@ =~= seq!['-', 'b', 'a']);
    }
    let mut args: Vec<String> = Vec::new();
    args.push("l".to_owned());
    args.push("-r".to_owned());
    args.push("-ba".to_owned());
    assert(views(args@) =~= seq![seq!['l'], seq!['-', 'r'], seq!['-', 'b', 'a']]);
    push_password(&mut args, password);
    let ghost before = args@;
    args.push(archive.to_owned());
    assert(views(args@) =~= views(before).push(archive@));
    assert(views(args@) =~= list_args_spec(archive@, password@));
    args
}

/// The arguments of the archive program that perform `extraction` on `archive`.
pub fn extract_args(
    archive: &str,
    extraction: &Extraction,
    output_directory: &str,
    password: &str,
) -> (r: Vec<String>)
    ensures
        views(r@) == extract_args_spec(archive@, extraction.entry(), output_directory@, password@),
{
    proof {
        reveal_strlit("e");
        reveal_strlit("x");
        reveal_strlit("-y");
        reveal_strlit("-o");
        assert("e"@ =~= seq!['e']);
        assert("x"@ =~= seq!['x']);
        assert("-y"@ =~= seq!['-', 'y']);
        assert("-o"@ =~= seq!['-', 'o']);
    }
    let mut args: Vec<String> = Vec::new();
    match extraction {
        Extraction::One(entry) => {
            args.push("e".to_owned());
            args.push(archive.to_owned());
            args.push(entry.clone());
        },
        Extraction::All => {
            args.push("x".to_owned());
            args.push(archive.to_owned());
        },
    }
    let ghost head = views(args@);
    assert(head =~= match extraction.entry() {
        Some(e) => seq![seq!['e'], archive@, e],
        None => seq![seq!['x'], archive@],
    });
    push_password(&mut args, password);
    let ghost before = args@;
    args.push("-y".to_owned());
    args.push(joined("-o", output_directory));
    assert(views(args@) =~= views(before) + seq![
        seq!['-', 'y'],
        seq!['-', 'o'] + output_directory@,
    ]);
    assert(views(args@) =~= extract_args_spec(
        archive@,
        extraction.entry(),
        output_directory@,
        password@,
    ));
    args
}

} // verus!
