//! The command line: what the arguments ask for, or why they are refused.
use vstd::prelude::*;

use crate::catalog::{resolve, resolves_to, Game};
use crate::text::{
    ascii_lowercase, ascii_lowercase_chars, chars_equal_str, chars_of, join_with_spaces,
    join_words, push_str, slice_chars, string_of, string_views, to_string, views,
};

verus! {

/// What a command line asks for.
#[derive(Debug)]
pub enum Invocation {
    /// Print the usage text.
    Help,
    /// Print the version.
    Version,
    /// List the games of the catalog.
    List,
    /// Assess a game on this machine for a target resolution, as a report or as JSON.
    Assess { game: Game, resolver_confidence: u8, target: String, explain: bool },
}

/// Some argument equals `flag`.
pub open spec fn has_arg(args: Seq<Seq<char>>, flag: Seq<char>) -> bool {
    exists|i: int| 0 <= i < args.len() && #[trigger] args[i] == flag
}

/// A resolution name `--target` accepts (after ASCII lowercasing).
pub open spec fn supported_target(t: Seq<char>) -> bool {
    t == "720"@ || t == "720p"@ || t == "1080"@ || t == "1080p"@ || t == "1440"@ || t == "1440p"@
        || t == "2k"@ || t == "2160"@ || t == "2160p"@ || t == "4k"@
}

/// Reads the arguments from index `i` on, after `--explain`/`--json` (`explain`), the target so
/// far and the title words so far: the final flag, target and title words, or the message and
/// exit code of the first refused argument.
pub open spec fn parse_from(
    args: Seq<Seq<char>>,
    i: int,
    explain: bool,
    target: Seq<char>,
    title: Seq<Seq<char>>,
) -> Result<(bool, Seq<char>, Seq<Seq<char>>), (Seq<char>, u8)>
    decreases args.len() - i,
{
    if i < 0 || i >= args.len() {
        Ok((explain, target, title))
    } else if args[i] == "--explain"@ || args[i] == "--json"@ {
        parse_from(args, i + 1, true, target, title)
    } else if args[i] == "--target"@ {
        if i + 1 >= args.len() {
            Err(("--target requires 720p, 1080p, 1440p, or 4k"@, 2))
        } else {
            let t = ascii_lowercase(args[i + 1]);
            if supported_target(t) {
                parse_from(args, i + 2, explain, t, title)
            } else {
                Err(("unsupported target '"@ + t + "'"@, 2))
            }
        }
    } else if args[i].len() > 0 && args[i][0] == '-' {
        Err(("unknown option '"@ + args[i] + "'"@, 2))
    } else {
        parse_from(args, i + 1, explain, target, title.push(args[i]))
    }
}

/// `r` is what the command line `args` (without the program name) asks for: help when there
/// is no argument or `--help`/`-h` occurs, else the version for `--version`/`-V`, else the list
/// for `--list`; otherwise the options are read (target "1080p" by default) and the title
/// words, joined with spaces, are resolved in the catalog. Refusals carry exit code 2, an
/// unknown game exit code 3.
pub open spec fn invocation_of(args: Seq<Seq<char>>, r: Result<Invocation, (String, u8)>) -> bool {
    if args.len() == 0 || has_arg(args, "--help"@) || has_arg(args, "-h"@) {
        r is Ok && r->Ok_0 is Help
    } else if has_arg(args, "--version"@) || has_arg(args, "-V"@) {
        r is Ok && r->Ok_0 is Version
    } else if has_arg(args, "--list"@) {
        r is Ok && r->Ok_0 is List
    } else {
        match parse_from(args, 0, false, "1080p"@, seq![]) {
            Err((m, c)) => r is Err && r->Err_0.0@ == m && r->Err_0.1 == c,
            Ok((explain, target, title)) => if title.len() == 0 {
                r is Err && r->Err_0.0@ == "provide a game title; try --list"@ && r->Err_0.1 == 2
            } else {
                let query = join_words(title);
                match r {
                    Ok(Invocation::Assess { game, resolver_confidence, target: t, explain: x }) => {
                        &&& resolves_to(query, Some((game, resolver_confidence)))
                        &&& t@ == target
                        &&& x == explain
                    },
                    Ok(_) => false,
                    Err((m, c)) => {
                        &&& resolves_to(query, None)
                        &&& m@ == "no close match for '"@ + query
                            + "' in the offline catalog; try --list"@
                        &&& c == 3
                    },
                }
            },
        }
    }
}

fn find_arg(args: &Vec<Vec<char>>, flag: &str) -> (b: bool)
    ensures
        b == has_arg(views(args@), flag@),
{
    let mut i: usize = 0;
    while i < args.len()
        invariant
            i <= args@.len(),
            forall|k: int| 0 <= k < i ==> views(args@)[k] != flag@,
        decreases args@.len() - i,
    {
        assert(views(args@)[i as int] == args@[i as int]@);
        if chars_equal_str(args[i].as_slice(), flag) {
            return true;
        }
        i += 1;
    }
    false
}

fn supported(t: &[char]) -> (b: bool)
    ensures
        b == supported_target(t@),
{
    chars_equal_str(t, "720") || chars_equal_str(t, "720p") || chars_equal_str(t, "1080")
        || chars_equal_str(t, "1080p") || chars_equal_str(t, "1440") || chars_equal_str(t, "1440p")
        || chars_equal_str(t, "2k") || chars_equal_str(t, "2160") || chars_equal_str(t, "2160p")
        || chars_equal_str(t, "4k")
}

/// `prefix`, then `middle`, then `suffix`, as a `String`.
fn quoted(prefix: &str, middle: &Vec<char>, suffix: &str) -> (s: String)
    ensures
        s@ == prefix@ + middle@ + suffix@,
{
    let mut s = to_string(prefix);
    push_str(&mut s, string_of(middle).as_str());
    push_str(&mut s, suffix);
    s
}

/// The options and title words of the command line.
#[verifier::rlimit(30)]
fn parse_args(args: &Vec<Vec<char>>) -> (r: Result<(bool, Vec<char>, Vec<Vec<char>>), (String, u8)>)
    ensures
        match r {
            Ok((e, t, w)) => parse_from(views(args@), 0, false, "1080p"@, seq![]) == Ok::<
                (bool, Seq<char>, Seq<Seq<char>>),
                (Seq<char>, u8),
            >((e, t@, views(w@))),
            Err((m, c)) => parse_from(views(args@), 0, false, "1080p"@, seq![]) == Err::<
                (bool, Seq<char>, Seq<Seq<char>>),
                (Seq<char>, u8),
            >((m@, c)),
        },
{
    let ghost a = views(args@);
    let mut explain = false;
    let mut target: Vec<char> = chars_of("1080p");
    let mut title: Vec<Vec<char>> = Vec::new();
    assert(views(title@) =~= Seq::<Seq<char>>::empty());
    let mut index: usize = 0;
    while index < args.len()
        invariant
            index <= args@.len(),
            a == views(args@),
            parse_from(a, 0, false, "1080p"@, seq![]) == parse_from(
                a,
                index as int,
                explain,
                target@,
                views(title@),
            ),
        decreases args@.len() - index,
    {
        let arg = args[index].as_slice();
        assert(a[index as int] == arg@);
        if chars_equal_str(arg, "--explain") || chars_equal_str(arg, "--json") {
            explain = true;
        } else if chars_equal_str(arg, "--target") {
            if index + 1 >= args.len() {
                return Err((to_string("--target requires 720p, 1080p, 1440p, or 4k"), 2));
            }
            index += 1;
            assert(a[index as int] == args@[index as int]@);
            let t = ascii_lowercase_chars(args[index].as_slice());
            if !supported(t.as_slice()) {
                return Err((quoted("unsupported target '", &t, "'"), 2));
            }
            target = t;
        } else if arg.len() > 0 && arg[0] == '-' {
            let v = slice_chars(arg, 0, arg.len());
            assert(v@ =~= arg@);
            return Err((quoted("unknown option '", &v, "'"), 2));
        } else {
            let ghost before = views(title@);
            let v = slice_chars(arg, 0, arg.len());
            assert(v@ =~= arg@);
            title.push(v);
            assert(views(title@) =~= before.push(arg@));
        }
        index += 1;
    }
    Ok((explain, target, title))
}

/// What the command line `args` (without the program name) asks for, or the message and exit
/// code with which it is refused.
pub fn run(args: Vec<String>) -> (r: Result<Invocation, (String, u8)>)
    ensures
        invocation_of(string_views(args@), r),
{
    let mut cs: Vec<Vec<char>> = Vec::new();
    let mut i: usize = 0;
    while i < args.len()
        invariant
            i <= args@.len(),
            views(cs@) == string_views(args@).take(i as int),
        decreases args@.len() - i,
    {
        let ghost before = views(cs@);
        cs.push(chars_of(args[i].as_str()));
        assert(views(cs@) =~= before.push(args@[i as int]@));
        assert(string_views(args@).take(i + 1) =~= string_views(args@).take(i as int).push(
            args@[i as int]@,
        ));
        i += 1;
    }
    assert(string_views(args@).take(args@.len() as int) =~= string_views(args@));
    if cs.len() == 0 || find_arg(&cs, "--help") || find_arg(&cs, "-h") {
        return Ok(Invocation::Help);
    }
    if find_arg(&cs, "--version") || find_arg(&cs, "-V") {
        return Ok(Invocation::Version);
    }
    if find_arg(&cs, "--list") {
        return Ok(Invocation::List);
    }
    let (explain, target, title) = match parse_args(&cs) {
        Ok(p) => p,
        Err(e) => return Err(e),
    };
    if title.len() == 0 {
        return Err((to_string("provide a game title; try --list"), 2));
    }
    let query = string_of(&join_with_spaces(&title));
    match resolve(query.as_str()) {
        Some((game, resolver_confidence)) => Ok(
            Invocation::Assess { game, resolver_confidence, target: string_of(&target), explain },
        ),
        None => {
            let q = chars_of(query.as_str());
            Err((quoted("no close match for '", &q, "' in the offline catalog; try --list"), 3))
        },
    }
}

} // verus!

verus! {

proof fn lemma_parse_errors_are_usage(
    args: Seq<Seq<char>>,
    i: int,
    explain: bool,
    target: Seq<char>,
    title: Seq<Seq<char>>,
)
    ensures
        parse_from(args, i, explain, target, title) matches Err((_, c)) ==> c == 2,
    decreases args.len() - i,
{
    if 0 <= i < args.len() {
        if args[i] == "--explain"@ || args[i] == "--json"@ {
            lemma_parse_errors_are_usage(args, i + 1, true, target, title);
        } else if args[i] == "--target"@ {
            if i + 1 < args.len() {
                lemma_parse_errors_are_usage(args, i + 2, explain, ascii_lowercase(args[i + 1]), title);
            }
        } else if !(args[i].len() > 0 && args[i][0] == '-') {
            lemma_parse_errors_are_usage(args, i + 1, explain, target, title.push(args[i]));
        }
    }
}

/// A refused command line exits with code 2 for invalid usage or 3 when no game matched; the
/// code is 3 exactly when the options were read and the title did not resolve.
pub proof fn law_exit_codes(args: Seq<Seq<char>>, r: Result<Invocation, (String, u8)>)
    requires
        invocation_of(args, r),
        r is Err,
    ensures
        r->Err_0.1 == 2 || r->Err_0.1 == 3,
        r->Err_0.1 == 3 <==> (parse_from(args, 0, false, "1080p"@, seq![]) matches Ok((_, _, t))
            && t.len() > 0 && resolves_to(join_words(t), None)),
{
    lemma_parse_errors_are_usage(args, 0, false, "1080p"@, seq![]);
}

} // verus!
