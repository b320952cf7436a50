//! The two ways the server can run, and how a command line names them.

use vstd::prelude::*;

use crate::text::{concat3, text_equals};

verus! {

/// What `str::to_lowercase` gives for the text `s`: its lowercase
/// equivalent under Unicode's rules, as a new text.
pub uninterp spec fn spec_to_lowercase(s: Seq<char>) -> Seq<char>;

/// Every character of `s` is an ASCII character.
pub open spec fn is_ascii_text(s: Seq<char>) -> bool {
    forall|i: int| 0 <= i < s.len() ==> (#[trigger] s[i] as int) < 128
}

/// `c` with an ASCII capital letter turned into its small letter.
pub open spec fn ascii_lower_char(c: char) -> char {
    if 65 <= c as int <= 90 {
        ((c as int) + 32) as char
    } else {
        c
    }
}

/// `c` with an ASCII small letter turned into its capital letter.
pub open spec fn ascii_upper_char(c: char) -> char {
    if 97 <= c as int <= 122 {
        ((c as int) - 32) as char
    } else {
        c
    }
}

/// `s` with every ASCII capital letter turned into its small letter, as
/// `str::to_ascii_lowercase` gives it.
pub open spec fn ascii_lowercase(s: Seq<char>) -> Seq<char> {
    s.map_values(|c: char| ascii_lower_char(c))
}

/// `s` with every ASCII small letter turned into its capital letter, as
/// `str::to_ascii_uppercase` gives it.
pub open spec fn ascii_uppercase(s: Seq<char>) -> Seq<char> {
    s.map_values(|c: char| ascii_upper_char(c))
}

/// Calls `str::to_lowercase`. Claimed:
/// - the result is `spec_to_lowercase` of the argument;
/// - for a text of ASCII characters only, it is the text with the capital
///   letters `A` to `Z` turned into `a` to `z` (Unicode maps these letters so
///   and gives no other ASCII character a lowercase form);
/// - it is also what the method gives for the argument with its ASCII small
///   letters made capital: the method maps character by character, an ASCII
///   capital letter and its small letter map alike, and both are cased
///   letters, so the one context rule (the final form of capital sigma) reads
///   the same neighbours either way.
/// Unicode's case mapping of other characters is not restated.
#[verifier::external_body]
fn to_lowercase(s: &str) -> (r: String)
    ensures
        r@ == spec_to_lowercase(s@),
        is_ascii_text(s@) ==> r@ == ascii_lowercase(s@),
        r@ == spec_to_lowercase(ascii_uppercase(s@)),
{
    s.to_lowercase()
}

/// Serve the files of the upload directory for download, or take uploads.
#[derive(Debug, Clone, Copy, PartialEq, Eq, Structural)]
pub enum Mode {
    Download,
    Upload,
}

/// The mode that an already lowercased name stands for.
pub open spec fn spec_mode_named(lower: Seq<char>) -> Option<Mode> {
    if lower == "download"@ {
        Some(Mode::Download)
    } else if lower == "upload"@ {
        Some(Mode::Upload)
    } else {
        None
    }
}

/// The message with which a name that is no mode is refused.
pub open spec fn spec_mode_error(s: Seq<char>) -> Seq<char> {
    "error to parse "@ + s + " for Mode"@
}

/// What reading `s` as a mode gives: the mode its lowercase form names, or
/// the error message that quotes `s` as it was given.
pub open spec fn spec_parse_mode(s: Seq<char>) -> Result<Mode, Seq<char>> {
    match spec_mode_named(spec_to_lowercase(s)) {
        Some(m) => Ok(m),
        None => Err(spec_mode_error(s)),
    }
}

impl Mode {
    /// The mode that the lowercase name `lower` stands for: `download` or
    /// `upload`, and nothing else.
    pub fn from_lowercase(lower: &str) -> (r: Option<Mode>)
        ensures
            r == spec_mode_named(lower@),
    {
        if text_equals(lower, "download") {
            Some(Mode::Download)
        } else if text_equals(lower, "upload") {
            Some(Mode::Upload)
        } else {
            None
        }
    }

    /// Reads a mode name in any letter case; any other text is refused with
    /// `error to parse <text> for Mode`. For an ASCII text the lowercase form
    /// is the ASCII one. Law: the text with its ASCII letters made capital
    /// names the same mode, or none when the text names none.
    pub fn from_str(s: &str) -> (r: Result<Mode, String>)
        ensures
            match (r, spec_parse_mode(s@)) {
                (Ok(m), Ok(n)) => m == n,
                (Err(e), Err(msg)) => e@ == msg,
                _ => false,
            },
            is_ascii_text(s@) ==> spec_to_lowercase(s@) == ascii_lowercase(s@),
            spec_mode_named(spec_to_lowercase(ascii_uppercase(s@))) == spec_mode_named(
                spec_to_lowercase(s@),
            ),
    {
        let lower = to_lowercase(s);
        match Mode::from_lowercase(lower.as_str()) {
            Some(m) => Ok(m),
            None => Err(concat3("error to parse ", s, " for Mode")),
        }
    }
}

/// Law: exactly two lowercase names stand for modes, `download` for
/// downloads and `upload` for uploads; every other text stands for none.
pub proof fn lemma_mode_names(lower: Seq<char>)
    ensures
        spec_mode_named("download"@) == Some(Mode::Download),
        spec_mode_named("upload"@) == Some(Mode::Upload),
        spec_mode_named(lower) == Some(Mode::Download) <==> lower == "download"@,
        spec_mode_named(lower) == Some(Mode::Upload) <==> lower == "upload"@,
        spec_mode_named(lower) is None <==> (lower != "download"@ && lower != "upload"@),
{
    reveal_strlit("download");
    reveal_strlit("upload");
    assert("download"@ != "upload"@) by {
        assert("download"@.len() != "upload"@.len());
    }
}

/// Law: a refused name is quoted whole in the message, between
/// `error to parse ` and ` for Mode`.
pub proof fn lemma_mode_error_quotes_input(s: Seq<char>)
    ensures
        spec_mode_error(s).subrange(
            "error to parse "@.len() as int,
            ("error to parse "@.len() + s.len()) as int,
        ) == s,
        spec_mode_error(s).len() == "error to parse "@.len() + s.len() + " for Mode"@.len(),
{
    assert(spec_mode_error(s).subrange(
        "error to parse "@.len() as int,
        ("error to parse "@.len() + s.len()) as int,
    ) =~= s);
}

impl std::str::FromStr for Mode {
    type Err = String;

    /// The same reading as the inherent `Mode::from_str`.
    fn from_str(s: &str) -> (r: Result<Mode, String>)
        ensures
            match (r, spec_parse_mode(s@)) {
                (Ok(m), Ok(n)) => m == n,
                (Err(e), Err(msg)) => e@ == msg,
                _ => false,
            },
            is_ascii_text(s@) ==> spec_to_lowercase(s@) == ascii_lowercase(s@),
            spec_mode_named(spec_to_lowercase(ascii_uppercase(s@))) == spec_mode_named(
                spec_to_lowercase(s@),
            ),
    {
        Mode::from_str(s)
    }
}

} // verus!
