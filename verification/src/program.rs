//! What the program says about itself: version, usage, help and where its data are.

use vstd::prelude::*;

use crate::json::{member, text_member, Json, JsonDoc};
use crate::release::{is_newer, newer};
use crate::text::{
    occurs, occurs_at, opt_str, replace_text, replaced, same_text, split_on, split_text,
    starts_with, texts,
};
use crate::types::Output;

verus! {

/// The version where none was set when the program was built.
pub const VERSION: &'static str = "unknown version";

/// The name of the package where none was set when the program was built.
pub const PKG_NAME: &'static str = "matrix-commander-ng";

/// The name of the program where none was set when it was built.
pub const BIN_NAME: &'static str = "matrix-commander-ng";

/// The name of the program in log filters.
pub const BIN_NAME_UNDERSCORE: &'static str = "matrix_commander_ng";

/// The repository where none was set when the program was built.
pub const PKG_REPOSITORY: &'static str = "https://github.com/longregen/matrix-commander-ng";

/// The name of the file in which the credentials are kept.
pub const CREDENTIALS_FILE_DEFAULT: &'static str = "credentials.json";

/// The name of the directory in which the store was kept in former times.
pub const DEPRECIATED_STORE_DIR_DEFAULT: &'static str = "sledstore/";

/// The name of the directory in which the store is kept.
pub const STORE_DIR_DEFAULT: &'static str = "store/";

/// How long the server is waited for, in seconds.
pub const TIMEOUT_DEFAULT: u64 = 60;

/// The address of the manual that --readme shows.
pub const URL_README: &'static str =
    "https://raw.githubusercontent.com/longregen/matrix-commander-ng/main/README.md";

/// The value, or another one where there is none.
pub open spec fn value_or(value: Option<&'static str>, other: Seq<char>) -> Seq<char> {
    match value {
        Some(v) => v@,
        None => other,
    }
}

/// Gets the version: the one set when the program was built, otherwise the default.
pub fn get_version(built: Option<&'static str>) -> (out: &'static str)
    ensures
        out@ == value_or(built, VERSION@),
{
    match built {
        Some(v) => v,
        None => VERSION,
    }
}

/// Gets the name of the package: the one set when the program was built, otherwise the default.
pub fn get_pkg_name(built: Option<&'static str>) -> (out: &'static str)
    ensures
        out@ == value_or(built, PKG_NAME@),
{
    match built {
        Some(v) => v,
        None => PKG_NAME,
    }
}

/// Gets the name of the program: the one set when it was built, otherwise the default.
pub fn get_bin_name(built: Option<&'static str>) -> (out: &'static str)
    ensures
        out@ == value_or(built, BIN_NAME@),
{
    match built {
        Some(v) => v,
        None => BIN_NAME,
    }
}

/// Gets the repository: the one set when the program was built, otherwise the default.
pub fn get_pkg_repository(built: Option<&'static str>) -> (out: &'static str)
    ensures
        out@ == value_or(built, PKG_REPOSITORY@),
{
    match built {
        Some(v) => v,
        None => PKG_REPOSITORY,
    }
}

/// Gets the name of the program without an extension.
pub fn get_prog_without_ext(built: Option<&'static str>) -> (out: &'static str)
    ensures
        out@ == value_or(built, BIN_NAME@),
{
    get_bin_name(built)
}

/// The path of something in a directory.
pub open spec fn path_in(dir: Seq<char>, name: Seq<char>) -> Seq<char> {
    if dir.len() == 0 || dir.last() == '/' {
        dir + name
    } else {
        dir + "/"@ + name
    }
}

/// The path of something in a directory.
fn join_path(dir: &str, name: &str) -> (out: String)
    ensures
        out@ == path_in(dir@, name@),
{
    let cs = crate::text::chars_of(dir);
    let mut out = dir.to_string();
    if cs.len() > 0 && cs[cs.len() - 1] != '/' {
        out.append("/");
    }
    out.append(name);
    out
}

/// Gets the default path of the credentials file in the data directory of the program.
pub fn get_credentials_default_path(data_dir: &str) -> (out: String)
    ensures
        out@ == path_in(data_dir@, CREDENTIALS_FILE_DEFAULT@),
{
    join_path(data_dir, CREDENTIALS_FILE_DEFAULT)
}

/// Gets the default path of the store in the data directory of the program.
pub fn get_store_default_path(data_dir: &str) -> (out: String)
    ensures
        out@ == path_in(data_dir@, STORE_DIR_DEFAULT@),
{
    join_path(data_dir, STORE_DIR_DEFAULT)
}

/// Gets the former default path of the store in the data directory of the program.
pub fn get_store_depreciated_default_path(data_dir: &str) -> (out: String)
    ensures
        out@ == path_in(data_dir@, DEPRECIATED_STORE_DIR_DEFAULT@),
{
    join_path(data_dir, DEPRECIATED_STORE_DIR_DEFAULT)
}

/// Whether a store in its former place is moved to the default place: the default place is in
/// use, there is nothing there, and there is a store in the former place.
pub fn migrates_store(in_use: &str, default_path: &str, default_exists: bool, former_exists: bool)
    -> (r: bool)
    ensures
        r == (in_use@ == default_path@ && !default_exists && former_exists),
{
    same_text(in_use, default_path) && !default_exists && former_exists
}

/// Whether a line of the help describes an option.
pub open spec fn is_option_line(line: Seq<char>) -> bool {
    "  -"@.is_prefix_of(line) || "      --"@.is_prefix_of(line)
}

/// The lines that describe options, each with its line end.
pub open spec fn option_lines(list: Seq<Seq<char>>) -> Seq<char>
    decreases list.len(),
{
    if list.len() == 0 {
        Seq::empty()
    } else if is_option_line(list.last()) {
        option_lines(list.drop_last()) + list.last() + "\n"@
    } else {
        option_lines(list.drop_last())
    }
}

/// What --usage prints, given the usage and the help of the command line.
pub fn usage(usage_text: &str, help_text: &str) -> (out: String)
    ensures
        out@ == usage_text@ + "\nOptions:\n"@ + option_lines(split_on(help_text@, "\n"@)),
{
    let list = split_text(help_text, "\n");
    let ghost all = texts(list@);
    let mut out = usage_text.to_string();
    out.append("\nOptions:\n");
    let ghost start = out@;
    let mut i: usize = 0;
    assert(all.take(0) =~= Seq::empty());
    assert(out@ =~= start + option_lines(all.take(0)));
    while i < list.len()
        invariant
            i <= list.len(),
            all == texts(list@),
            out@ == start + option_lines(all.take(i as int)),
        decreases list.len() - i,
    {
        assert(all.take(i + 1).drop_last() =~= all.take(i as int));
        assert(all[i as int] == list@[i as int]@);
        if starts_with(list[i].as_str(), "  -") || starts_with(list[i].as_str(), "      --") {
            out.append(list[i].as_str());
            out.append("\n");
        }
        i += 1;
        assert(out@ =~= start + option_lines(all.take(i as int)));
    }
    assert(all.take(all.len() as int) =~= all);
    out
}

/// The pattern of the details in the help, up to the next option or the postscript.
pub const DETAILS_PATTERN: &'static str =
    "(?P<del>[ ]+Details::[\\S\\s]*?)(?P<keep>\\nPS:|\\n  -|\\n      --)";

/// What stays of a match of that pattern.
pub const DETAILS_KEPT: &'static str = "$keep";

/// How many blanks a text begins with.
pub open spec fn blanks(s: Seq<char>) -> int
    decreases s.len(),
{
    if s.len() > 0 && s[0] == ' ' {
        1 + blanks(s.skip(1))
    } else {
        0
    }
}

/// The length of what ends the details at a position, zero where nothing does.
pub open spec fn details_end(s: Seq<char>, p: int) -> int {
    if occurs_at(s, "\nPS:"@, p) {
        4
    } else if occurs_at(s, "\n  -"@, p) {
        4
    } else if occurs_at(s, "\n      --"@, p) {
        9
    } else {
        0
    }
}

/// The first position from `p` on at which the details end.
pub open spec fn details_end_from(s: Seq<char>, p: int) -> Option<int>
    decreases s.len() - p,
{
    if p < 0 || p >= s.len() {
        None
    } else if details_end(s, p) > 0 {
        Some(p)
    } else {
        details_end_from(s, p + 1)
    }
}

/// Where the details end with which a text begins, if it begins with details that end.
pub open spec fn details_at_front(s: Seq<char>) -> Option<int> {
    let n = blanks(s);
    if n > 0 && occurs_at(s, "Details::"@, n) {
        details_end_from(s, n + 9)
    } else {
        None
    }
}

/// A run of blanks has a length.
proof fn lemma_blanks(s: Seq<char>)
    ensures
        0 <= blanks(s) <= s.len(),
    decreases s.len(),
{
    if s.len() > 0 && s[0] == ' ' {
        lemma_blanks(s.skip(1));
    }
}

/// What ends the details lies within the text.
proof fn lemma_details_end(s: Seq<char>, p: int)
    ensures
        details_end_from(s, p) matches Some(q) ==> p <= q && details_end(s, q) > 0 && q + details_end(
            s,
            q,
        ) <= s.len(),
    decreases s.len() - p,
{
    reveal_strlit("\nPS:");
    reveal_strlit("\n  -");
    reveal_strlit("\n      --");
    if 0 <= p < s.len() && details_end(s, p) == 0 {
        lemma_details_end(s, p + 1);
    }
}

/// The help without its details.
pub open spec fn without_details(s: Seq<char>) -> Seq<char>
    decreases s.len(),
    via without_details_ends
{
    if s.len() == 0 {
        s
    } else {
        match details_at_front(s) {
            Some(p) => s.subrange(p, p + details_end(s, p)) + without_details(
                s.skip(p + details_end(s, p)),
            ),
            None => seq![s[0]] + without_details(s.skip(1)),
        }
    }
}

/// What is left of the text becomes shorter.
#[via_fn]
proof fn without_details_ends(s: Seq<char>) {
    lemma_blanks(s);
    lemma_details_end(s, blanks(s) + 9);
}

/// Calls `Regex::replace_all` with the pattern of the details: from the left, blanks, the word
/// `Details::` and all up to the nearest line that begins an option or the postscript are
/// removed, and the rest stays.
#[verifier::external_body]
fn remove_details(help_text: &str, pattern: &str, kept: &str) -> (out: String)
    requires
        pattern@ == DETAILS_PATTERN@,
        kept@ == DETAILS_KEPT@,
    ensures
        out@ == without_details(help_text@),
{
    let re = regex::Regex::new(pattern).unwrap();
    re.replace_all(help_text, kept).to_string()
}

/// What --help prints, given the help of the command line.
pub fn help(help_text: &str) -> (out: String)
    ensures
        out@ == replaced(without_details(help_text@), "\n\n"@, "\n"@)
            + "Use --manual to get more detailed help information.\n"@,
{
    let short = remove_details(help_text, DETAILS_PATTERN, DETAILS_KEPT);
    let mut out = replace_text(short.as_str(), "\n\n", "\n");
    out.append("Use --manual to get more detailed help information.\n");
    out
}

/// A help text without details keeps all of it.
pub proof fn law_no_details_nothing_removed(s: Seq<char>)
    requires
        !occurs(s, "Details::"@),
    ensures
        without_details(s) == s,
    decreases s.len(),
{
    if s.len() > 0 {
        assert(!occurs_at(s, "Details::"@, blanks(s)));
        let rest = s.skip(1);
        assert(!occurs(rest, "Details::"@)) by {
            if occurs(rest, "Details::"@) {
                let i = choose|i: int| occurs_at(rest, "Details::"@, i);
                assert(rest.subrange(i, i + "Details::"@.len()) =~= s.subrange(
                    i + 1,
                    i + 1 + "Details::"@.len(),
                ));
                assert(occurs_at(s, "Details::"@, i + 1));
            }
        }
        law_no_details_nothing_removed(rest);
        assert(seq![s[0]] + rest =~= s);
    }
}

/// What --manual prints, given the long help of the command line.
pub fn manual(long_help: &str) -> (out: String)
    ensures
        out@ == long_help@ + "\n"@,
{
    let mut out = long_help.to_string();
    out.append("\n");
    out
}

/// What --readme prints, given the text that was fetched or the error that was reported.
pub fn readme(fetched: &Result<String, String>) -> (out: String)
    ensures
        out@ == (match *fetched {
            Ok(text) => text@ + "\n"@,
            Err(e) => "Error getting README.md from \""@ + URL_README@ + "\". Reported error "@ + e@
                + ".\n"@,
        }),
{
    match fetched {
        Ok(text) => {
            let mut out = text.clone();
            out.append("\n");
            out
        },
        Err(e) => {
            let mut out = "Error getting README.md from \"".to_string();
            out.append(URL_README);
            out.append("\". Reported error ");
            out.append(e.as_str());
            out.append(".\n");
            out
        },
    }
}

/// A text as the `Debug` trait of std writes it.
pub uninterp spec fn debug_text(s: Seq<char>) -> Seq<char>;

/// Whether a text is written by the `Debug` trait as it is, between quotes: visible ASCII
/// characters other than quotes and backslashes.
pub open spec fn is_plain(s: Seq<char>) -> bool {
    forall|i: int|
        0 <= i < s.len() ==> 32 <= (#[trigger] s[i] as u32) < 127 && s[i] != '"' && s[i] != '\\'
}

/// A text between quotes.
pub open spec fn quoted(s: Seq<char>) -> Seq<char> {
    "\""@ + s + "\""@
}

/// Calls `format!` with the `Debug` notation of a text. What it writes depends on the text alone
/// and is named; a plain text stands between quotes as it is.
#[verifier::external_body]
fn quote_debug(s: &str) -> (out: String)
    ensures
        out@ == debug_text(s@),
        is_plain(s@) ==> out@ == quoted(s@),
{
    format!("{:?}", s)
}

/// What --version prints, given the version as it is shown on a terminal.
pub fn version(
    output: Output,
    prog: &str,
    version_text: &str,
    shown_version: &str,
    repo: &str,
) -> (out: String)
    ensures
        out@ == (match output {
            Output::Text => "\n  _|      _|      _|_|_|                     "@ + prog@
                + "\n  _|_|  _|_|    _|             _~^~^~_       a rusty vision of a Matrix CLI client\n  _|  _|  _|    _|         \\) /  o o  \\ (/   version "@
                + shown_version@ + "\n  _|      _|    _|           '_   -   _'     repo "@ + repo@
                + "\n  _|      _|      _|_|_|     / '-----' \\     please submit PRs to make the vision a reality\n\n"@,
            Output::JsonSpec => Seq::empty(),
            _ => "{\"program\": "@ + debug_text(prog@) + ", \"version\": "@ + debug_text(
                version_text@,
            ) + ", \"repo\": "@ + debug_text(repo@) + "}\n"@,
        }),
        is_plain(prog@) && is_plain(version_text@) && is_plain(repo@) && (output == Output::Json || output
            == Output::JsonMax) ==> out@
            == "{\"program\": "@ + quoted(prog@) + ", \"version\": "@ + quoted(version_text@)
            + ", \"repo\": "@ + quoted(repo@) + "}\n"@,
{
    match output {
        Output::Text => {
            let mut out = "\n  _|      _|      _|_|_|                     ".to_string();
            out.append(prog);
            out.append(
                "\n  _|_|  _|_|    _|             _~^~^~_       a rusty vision of a Matrix CLI client\n  _|  _|  _|    _|         \\) /  o o  \\ (/   version ",
            );
            out.append(shown_version);
            out.append("\n  _|      _|    _|           '_   -   _'     repo ");
            out.append(repo);
            out.append(
                "\n  _|      _|      _|_|_|     / '-----' \\     please submit PRs to make the vision a reality\n\n",
            );
            out
        },
        Output::JsonSpec => String::new(),
        _ => {
            let a = quote_debug(prog);
            let b = quote_debug(version_text);
            let c = quote_debug(repo);
            let mut out = "{\"program\": ".to_string();
            out.append(a.as_str());
            out.append(", \"version\": ");
            out.append(b.as_str());
            out.append(", \"repo\": ");
            out.append(c.as_str());
            out.append("}\n");
            out
        },
    }
}

/// The newest version that a description of a package names.
pub open spec fn latest_in(doc: JsonDoc) -> Option<Seq<char>> {
    match member(doc, "crate"@) {
        Some(krate) => text_member(krate, "max_version"@),
        None => None,
    }
}

/// The newest version that a description of a package names.
pub fn latest_version(doc: &Json) -> (r: Option<&str>)
    ensures
        opt_str(r) == latest_in(doc@),
{
    match doc.get("crate") {
        Some(krate) => krate.get_text("max_version"),
        None => None,
    }
}

/// The sentences of --version check, in the colors of the terminal.
#[derive(Debug)]
pub struct VersionWords {
    /// New version is available.
    pub available: String,
    /// You are up-to-date.
    pub up_to_date: String,
    /// Could not get latest version.
    pub could_not_get: String,
}

/// What --version check prints, given the newest version or the error that was reported. A new
/// version is available exactly where the newest one is newer than the current one.
pub fn version_check(
    installed: &str,
    name: &str,
    current: &str,
    latest: &Result<Option<String>, String>,
    words: &VersionWords,
) -> (out: String)
    ensures
        out@ == "Installed version: v"@ + installed@ + "\n"@ + (match *latest {
            Ok(Some(v)) => if is_newer(v@, current@) {
                words.available@ + " on https://crates.io/crates/"@ + name@ + ": "@ + v@ + "\n"@
            } else {
                words.up_to_date@ + " You already have the latest version.\n"@
            },
            Ok(None) => words.up_to_date@ + " You already have the latest version.\n"@,
            Err(e) => words.could_not_get@ + " Error reported: "@ + e@ + ".\n"@,
        }),
{
    let mut line = String::new();
    match latest {
        Ok(Some(v)) => {
            if newer(v.as_str(), current) {
                line.append(words.available.as_str());
                line.append(" on https://crates.io/crates/");
                line.append(name);
                line.append(": ");
                line.append(v.as_str());
                line.append("\n");
                assert(line@ =~= words.available@ + " on https://crates.io/crates/"@ + name@ + ": "@
                    + v@ + "\n"@);
            } else {
                line.append(words.up_to_date.as_str());
                line.append(" You already have the latest version.\n");
                assert(line@ =~= words.up_to_date@ + " You already have the latest version.\n"@);
            }
        },
        Ok(None) => {
            line.append(words.up_to_date.as_str());
            line.append(" You already have the latest version.\n");
            assert(line@ =~= words.up_to_date@ + " You already have the latest version.\n"@);
        },
        Err(e) => {
            line.append(words.could_not_get.as_str());
            line.append(" Error reported: ");
            line.append(e.as_str());
            line.append(".\n");
            assert(line@ =~= words.could_not_get@ + " Error reported: "@ + e@ + ".\n"@);
        },
    }
    let mut out = "Installed version: v".to_string();
    out.append(installed);
    out.append("\n");
    out.append(line.as_str());
    out
}

/// What --contribute prints.
pub fn contribute(prog: &str, repo: &str) -> (out: String)
    ensures
        out@ == "\n"@ + prog@
            + " is a maintained fork of matrix-commander-rs by 8go.\nContributions are welcome! Have a look at the repo \n"@
            + repo@ + ".\nPlease open issues, submit pull requests, and help make \n"@ + prog@
            + " better for everyone.\n"@,
{
    let mut out = "\n".to_string();
    out.append(prog);
    out.append(
        " is a maintained fork of matrix-commander-rs by 8go.\nContributions are welcome! Have a look at the repo \n",
    );
    out.append(repo);
    out.append(".\nPlease open issues, submit pull requests, and help make \n");
    out.append(prog);
    out.append(" better for everyone.\n");
    out
}

/// What was set when the program was built goes before what is set otherwise.
pub proof fn law_built_value_first(value: &'static str, other: Seq<char>)
    ensures
        value_or(Some(value), other) == value@,
        value_or(None, other) == other,
{
}

/// A path is the directory and the name with one slash between them, whether the directory ends
/// with one or not; without a directory it is the name.
pub proof fn law_one_slash_in_a_path(dir: Seq<char>, name: Seq<char>)
    requires
        dir.len() > 0,
        dir.last() != '/',
    ensures
        path_in(dir, name) == dir + "/"@ + name,
        path_in(dir + "/"@, name) == dir + "/"@ + name,
        path_in(Seq::empty(), name) == name,
{
    reveal_strlit("/");
    assert((dir + "/"@).last() == '/');
    assert(Seq::<char>::empty() + name =~= name);
}

/// Of the help the lines are kept that describe options, each of them whole and in their order: a
/// short option behind two blanks, a long one behind six.
pub proof fn law_option_lines_are_kept(
    a: Seq<Seq<char>>,
    b: Seq<Seq<char>>,
    line: Seq<char>,
)
    ensures
        option_lines(a + b) == option_lines(a) + option_lines(b),
        option_lines(seq!["  -"@ + line]) == "  -"@ + line + "\n"@,
        option_lines(seq!["      --"@ + line]) == "      --"@ + line + "\n"@,
        !(line.len() > 0 && line[0] == ' ') ==> option_lines(seq![line]).len() == 0,
{
    lemma_option_lines_in_pieces(a, b);
    reveal_strlit("  -");
    reveal_strlit("      --");
    let short = "  -"@ + line;
    let long = "      --"@ + line;
    let none = Seq::<Seq<char>>::empty();
    assert(short.subrange(0, 3) =~= "  -"@);
    assert(long.subrange(0, 8) =~= "      --"@);
    assert("  -"@.is_prefix_of(short));
    assert("      --"@.is_prefix_of(long));
    assert(option_lines(none) =~= Seq::empty());
    assert(seq![short].drop_last() =~= none);
    assert(seq![long].drop_last() =~= none);
    assert(seq![line].drop_last() =~= none);
    assert(option_lines(seq![short]) =~= short + "\n"@);
    assert(option_lines(seq![long]) =~= long + "\n"@);
    if is_option_line(line) {
        if "  -"@.is_prefix_of(line) {
            assert(line.subrange(0, 3)[0] == ' ');
        } else {
            assert(line.subrange(0, 8)[0] == ' ');
        }
        assert(line[0] == ' ');
    }
}

/// The lines of two lists follow one another.
proof fn lemma_option_lines_in_pieces(a: Seq<Seq<char>>, b: Seq<Seq<char>>)
    ensures
        option_lines(a + b) == option_lines(a) + option_lines(b),
    decreases b.len(),
{
    if b.len() == 0 {
        assert(a + b =~= a);
        assert(option_lines(a) + option_lines(b) =~= option_lines(a));
    } else {
        lemma_option_lines_in_pieces(a, b.drop_last());
        assert((a + b).drop_last() =~= a + b.drop_last());
        assert((a + b).last() == b.last());
        assert(option_lines(a + b) =~= option_lines(a) + option_lines(b));
    }
}

/// Details are removed up to the line with which they end, the next option or the postscript, and
/// that line is kept; so is all that stands before them, and what follows is treated by itself.
pub proof fn law_details_are_removed(
    front: Seq<char>,
    details: Seq<char>,
    end: Seq<char>,
    back: Seq<char>,
)
    requires
        !front.contains(' '),
        !details.contains('\n'),
        end == "\nPS:"@ || end == "\n  -"@ || end == "\n      --"@,
    ensures
        without_details(front + " Details::"@ + details + end + back) == front + end
            + without_details(back),
    decreases front.len(),
{
    let s = front + " Details::"@ + details + end + back;
    reveal_strlit(" Details::");
    reveal_strlit("Details::");
    reveal_strlit("\nPS:");
    reveal_strlit("\n  -");
    reveal_strlit("\n      --");
    if front.len() == 0 {
        let at = 10 + details.len() as int;
        assert(s.skip(1)[0] == 'D');
        assert(blanks(s.skip(1)) == 0);
        assert(s[0] == ' ');
        assert(blanks(s) == 1);
        assert(s.subrange(1, 10) =~= "Details::"@);
        assert(occurs_at(s, "Details::"@, 1));
        assert(s.subrange(at, at + end.len()) =~= end);
        assert(occurs_at(s, end, at));
        assert(details_end(s, at) == end.len()) by {
            if occurs_at(s, "\nPS:"@, at) {
                assert(s.subrange(at, at + 4)[1] == s[at + 1]);
            }
            if occurs_at(s, "\n  -"@, at) {
                assert(s.subrange(at, at + 4)[3] == s[at + 3]);
            }
            assert(s[at + 1] == end[1]);
            assert(s[at + 3] == end[3]);
        }
        assert forall|j: int| 10 <= j < at implies #[trigger] s[j] != '\n' by {
            assert(s[j] == details[j - 10]);
        }
        lemma_details_end_at(s, 10, at);
        assert(s.skip(at + end.len()) =~= back);
        assert(front + end =~= end);
    } else {
        let rest = front.skip(1);
        assert(front.contains(front[0]));
        assert(s[0] == front[0]);
        assert(blanks(s) == 0);
        assert forall|c: char| rest.contains(c) implies front.contains(c) by {
            let j = choose|j: int| 0 <= j < rest.len() && rest[j] == c;
            assert(front[j + 1] == c);
        }
        law_details_are_removed(rest, details, end, back);
        assert(s.skip(1) =~= rest + " Details::"@ + details + end + back);
        assert(seq![front[0]] + (rest + end + without_details(back)) =~= front + end
            + without_details(back));
    }
}

/// Details end where the first line end stands that ends them.
proof fn lemma_details_end_at(s: Seq<char>, p: int, at: int)
    requires
        0 <= p <= at < s.len(),
        details_end(s, at) > 0,
        forall|j: int| p <= j < at ==> #[trigger] s[j] != '\n',
    ensures
        details_end_from(s, p) == Some(at),
    decreases at - p,
{
    if p < at {
        reveal_strlit("\nPS:");
        reveal_strlit("\n  -");
        reveal_strlit("\n      --");
        assert(s[p] != '\n');
        if occurs_at(s, "\nPS:"@, p) {
            assert(s.subrange(p, p + 4)[0] == s[p]);
        }
        if occurs_at(s, "\n  -"@, p) {
            assert(s.subrange(p, p + 4)[0] == s[p]);
        }
        if occurs_at(s, "\n      --"@, p) {
            assert(s.subrange(p, p + 9)[0] == s[p]);
        }
        lemma_details_end_at(s, p + 1, at);
    }
}

/// The newest version is the one that the description of the package names.
pub proof fn law_newest_version_is_read(doc: JsonDoc, krate: JsonDoc, v: Seq<char>)
    ensures
        member(doc, "crate"@) == Some(krate) && member(krate, "max_version"@) == Some(
            JsonDoc::Text(v),
        ) ==> latest_in(doc) == Some(v),
        member(doc, "crate"@) is None ==> latest_in(doc) is None,
        member(doc, "crate"@) == Some(krate) && member(krate, "max_version"@) is None ==> latest_in(
            doc,
        ) is None,
{
}

/// The usage begins with the text of the command line and ends with the lines for the options; the
/// manual is printed whole.
pub proof fn law_usage_and_manual(
    usage_text: &str,
    help_text: &str,
    long_help: &str,
    a: String,
    b: String,
)
    requires
        call_ensures(usage, (usage_text, help_text), a),
        call_ensures(manual, (long_help,), b),
    ensures
        usage_text@.is_prefix_of(a@),
        option_lines(split_on(help_text@, "\n"@)).is_suffix_of(a@),
        b@.drop_last() == long_help@,
        b@.last() == '\n',
{
    reveal_strlit("\n");
    assert(a@.subrange(0, usage_text@.len() as int) =~= usage_text@);
    let end = option_lines(split_on(help_text@, "\n"@));
    assert(a@.subrange(a@.len() - end.len(), a@.len() as int) =~= end);
    assert(b@.drop_last() =~= long_help@);
}

/// A help text without details and empty lines is printed whole, with a hint behind it.
pub proof fn law_help_is_kept(help_text: &str, out: String)
    requires
        call_ensures(help, (help_text,), out),
        !occurs(help_text@, "Details::"@),
        !occurs(help_text@, "\n\n"@),
    ensures
        help_text@.is_prefix_of(out@),
        out@.skip(help_text@.len() as int)
            == "Use --manual to get more detailed help information.\n"@,
{
    law_no_details_nothing_removed(help_text@);
    crate::text::law_absent_text_is_not_replaced(help_text@, "\n\n"@, "\n"@);
    assert(out@.subrange(0, help_text@.len() as int) =~= help_text@);
    assert(out@.skip(help_text@.len() as int)
        =~= "Use --manual to get more detailed help information.\n"@);
}

/// The readme that was fetched is printed whole, and where it was not the error is told.
pub proof fn law_readme_is_printed(fetched: &Result<String, String>, out: String)
    requires
        call_ensures(readme, (fetched,), out),
    ensures
        fetched matches Ok(text) ==> out@ == text@ + "\n"@,
        fetched matches Err(e) ==> (e@ + ".\n"@).is_suffix_of(out@) && occurs(out@, URL_README@),
{
    if let Err(e) = fetched {
        let end = e@ + ".\n"@;
        assert(out@.subrange(out@.len() - end.len(), out@.len() as int) =~= end);
        let front = "Error getting README.md from \""@;
        let back = "\". Reported error "@ + e@ + ".\n"@;
        crate::text::lemma_stands_inside(front, URL_README@, back);
        assert(out@ =~= front + URL_README@ + back);
    }
}

/// The check of the version tells the version that is installed, names a newer one where there is
/// one, and otherwise says that there is none; where that is not known it tells the error.
pub proof fn law_newer_version_is_named(
    installed: &str,
    name: &str,
    current: &str,
    latest: &Result<Option<String>, String>,
    words: &VersionWords,
    out: String,
)
    requires
        call_ensures(version_check, (installed, name, current, latest, words), out),
    ensures
        ("Installed version: v"@ + installed@ + "\n"@).is_prefix_of(out@),
        latest matches Ok(Some(v)) ==> (is_newer(v@, current@) ==> (name@ + ": "@ + v@
            + "\n"@).is_suffix_of(out@)),
        latest matches Ok(Some(v)) ==> (!is_newer(v@, current@) ==> (words.up_to_date@
            + " You already have the latest version.\n"@).is_suffix_of(out@)),
        latest matches Ok(None) ==> (words.up_to_date@
            + " You already have the latest version.\n"@).is_suffix_of(out@),
        latest matches Err(e) ==> (e@ + ".\n"@).is_suffix_of(out@),
{
    let front = "Installed version: v"@ + installed@ + "\n"@;
    assert(out@.subrange(0, front.len() as int) =~= front);
    match latest {
        Ok(Some(v)) => {
            let end = if is_newer(v@, current@) {
                name@ + ": "@ + v@ + "\n"@
            } else {
                words.up_to_date@ + " You already have the latest version.\n"@
            };
            assert(out@.subrange(out@.len() - end.len(), out@.len() as int) =~= end);
        },
        Ok(None) => {
            let end = words.up_to_date@ + " You already have the latest version.\n"@;
            assert(out@.subrange(out@.len() - end.len(), out@.len() as int) =~= end);
        },
        Err(e) => {
            let end = e@ + ".\n"@;
            assert(out@.subrange(out@.len() - end.len(), out@.len() as int) =~= end);
        },
    }
}

/// The store is moved only where the one in use is the default, which is not there yet, and the
/// former one is.
pub proof fn law_store_is_moved_once(
    in_use: &str,
    default_path: &str,
    default_exists: bool,
    former_exists: bool,
    r: bool,
)
    requires
        call_ensures(migrates_store, (in_use, default_path, default_exists, former_exists), r),
    ensures
        default_exists || !former_exists || in_use@ != default_path@ ==> !r,
        !default_exists && former_exists && in_use@ == default_path@ ==> r,
{
}

/// A quoted text stands whole between two quotes; plain are the visible ASCII characters and the
/// blank, but for the quote and the backslash.
pub proof fn law_quotes_around_a_text(s: Seq<char>, c: char)
    ensures
        quoted(s).len() == s.len() + 2,
        quoted(s)[0] == '"' && quoted(s).last() == '"',
        quoted(s).drop_last().skip(1) == s,
        is_plain(Seq::empty()),
        is_plain(s.push(c)) <==> is_plain(s) && ' ' <= c <= '~' && c != '"' && c != '\\',
{
    reveal_strlit("\"");
    assert(quoted(s).drop_last().skip(1) =~= s);
    let more = s.push(c);
    assert(more[s.len() as int] == c);
    if is_plain(more) {
        assert forall|i: int| 0 <= i < s.len() implies 32 <= (#[trigger] s[i] as u32) < 127 && s[i]
            != '"' && s[i] != '\\' by {
            assert(more[i] == s[i]);
        }
    }
    if is_plain(s) && ' ' <= c <= '~' && c != '"' && c != '\\' {
        assert forall|i: int| 0 <= i < more.len() implies 32 <= (#[trigger] more[i] as u32) < 127
            && more[i] != '"' && more[i] != '\\' by {
            if i < s.len() {
                assert(more[i] == s[i]);
            }
        }
    }
}

} // verus!
