//! Where an uploaded file is stored.

use vstd::prelude::*;

verus! {

/// The directory that takes the uploaded files, as the prefix of their paths.
pub const UPLOAD_DIR_PREFIX: &'static str = "./uploads/";

/// The answer to a finished upload.
pub const UPLOAD_DONE: &'static str = "File uploaded successfully";

/// A character that `sanitize_filename` removes wherever it occurs: a path
/// separator or one of `? < > : * | "`, or a control character.
pub open spec fn is_removed_char(c: char) -> bool {
    ||| c == '/'
    ||| c == '\\'
    ||| c == '?'
    ||| c == '<'
    ||| c == '>'
    ||| c == ':'
    ||| c == '*'
    ||| c == '|'
    ||| c == '"'
    ||| (c as int) <= 0x1f
    ||| 0x80 <= (c as int) <= 0x9f
}

/// `s` is `.` or `..`, the names of the current and the parent directory.
pub open spec fn is_dot_name(s: Seq<char>) -> bool {
    ||| (s.len() == 1 && s[0] == '.')
    ||| (s.len() == 2 && s[0] == '.' && s[1] == '.')
}

/// `s` is not empty and made of dots only.
pub open spec fn is_all_dots(s: Seq<char>) -> bool {
    s.len() > 0 && forall|i: int| 0 <= i < s.len() ==> s[i] == '.'
}

/// `c` and the small ASCII letter `small` are the same letter in either case.
pub open spec fn same_letter(c: char, small: char) -> bool {
    c == small || (c as int) == (small as int) - 32
}

/// `s` begins, in either letter case, with one of the names that Windows
/// reserves (`con`, `prn`, `aux`, `nul`, `com` or `lpt` and a digit), and
/// this name is the whole of `s` or is followed by a dot.
pub open spec fn is_windows_reserved(s: Seq<char>) -> bool {
    let three = |a: char, b: char, c: char|
        s.len() >= 3 && same_letter(s[0], a) && same_letter(s[1], b) && same_letter(s[2], c);
    let ends_at = |k: int| s.len() == k || (s.len() > k && s[k] == '.');
    ||| (three('c', 'o', 'n') || three('p', 'r', 'n') || three('a', 'u', 'x') || three('n', 'u', 'l'))
        && ends_at(3)
    ||| (three('c', 'o', 'm') || three('l', 'p', 't')) && s.len() >= 4 && 48 <= (s[3] as int) <= 57
        && ends_at(4)
}

/// `name` is one that `sanitize_filename::sanitize` keeps as it is, on every
/// platform: it holds no removed character, is not made of dots only, is at
/// most 255 bytes long, does not end in a dot or a space, and is no name
/// that Windows reserves.
pub open spec fn is_clean_name(name: Seq<char>) -> bool {
    &&& forall|i: int| 0 <= i < name.len() ==> !#[trigger] is_removed_char(name[i])
    &&& !is_all_dots(name)
    &&& vstd::utf8::encode_utf8(name).len() <= 255
    &&& name.len() > 0 ==> name.last() != '.' && name.last() != ' '
    &&& !is_windows_reserved(name)
}

/// What `sanitize_filename::sanitize` gives for the name `name`.
pub uninterp spec fn spec_sanitize(name: Seq<char>) -> Seq<char>;

/// Calls `sanitize_filename::sanitize` (with its default options). Claimed:
/// - the result is `spec_sanitize` of the argument;
/// - it holds none of the characters that `is_removed_char` names (the crate
///   deletes every match of its character classes for them, and later steps
///   only delete or cut);
/// - it is neither `.` nor `..` (a name made only of dots is emptied, and a
///   name cut to length keeps at least 252 bytes);
/// - its UTF-8 form is at most 255 bytes long (the default options cut it at
///   the last character boundary within 255 bytes);
/// - a name that `is_clean_name` accepts comes back unchanged: no character
///   class matches it, the dots-only rule does not, and on Windows neither the
///   reserved-name rule nor the trailing dot-or-space rule does, and no cut is
///   needed.
/// Which other names are emptied or shortened is not restated.
#[verifier::external_body]
fn sanitize(name: &str) -> (r: String)
    ensures
        r@ == spec_sanitize(name@),
        forall|i: int| 0 <= i < r@.len() ==> !#[trigger] is_removed_char(r@[i]),
        !is_dot_name(r@),
        vstd::utf8::encode_utf8(r@).len() <= 255,
        is_clean_name(name@) ==> r@ == name@,
{
    sanitize_filename::sanitize(name)
}

/// The path under which a file uploaded as `filename` is stored: the
/// sanitized name inside the upload directory.
pub fn upload_file_path(filename: &str) -> (r: String)
    ensures
        r@ == UPLOAD_DIR_PREFIX@ + spec_sanitize(filename@),
        forall|i: int| 0 <= i < spec_sanitize(filename@).len() ==> !#[trigger] is_removed_char(
            spec_sanitize(filename@)[i],
        ),
        !is_dot_name(spec_sanitize(filename@)),
        vstd::utf8::encode_utf8(spec_sanitize(filename@)).len() <= 255,
        is_clean_name(filename@) ==> spec_sanitize(filename@) == filename@,
{
    let name = sanitize(filename);
    crate::text::concat2(UPLOAD_DIR_PREFIX, name.as_str())
}

/// Law: the stored path of an upload is the upload directory followed by a
/// single name that holds no path separator and is neither `.` nor `..`, so
/// the file is created inside that directory and nowhere else.
pub proof fn lemma_upload_stays_in_dir(filename: Seq<char>, stored: Seq<char>)
    requires
        stored == UPLOAD_DIR_PREFIX@ + spec_sanitize(filename),
        forall|i: int| 0 <= i < spec_sanitize(filename).len() ==> !#[trigger] is_removed_char(
            spec_sanitize(filename)[i],
        ),
        !is_dot_name(spec_sanitize(filename)),
    ensures
        stored.take(UPLOAD_DIR_PREFIX@.len() as int) == UPLOAD_DIR_PREFIX@,
        forall|i: int|
            UPLOAD_DIR_PREFIX@.len() <= i < stored.len() ==> stored[i] != '/' && stored[i] != '\\',
        !is_dot_name(stored.skip(UPLOAD_DIR_PREFIX@.len() as int)),
{
    let n = UPLOAD_DIR_PREFIX@.len() as int;
    assert(stored.take(n) =~= UPLOAD_DIR_PREFIX@);
    assert(stored.skip(n) =~= spec_sanitize(filename));
    assert forall|i: int| n <= i < stored.len() implies stored[i] != '/' && stored[i] != '\\' by {
        assert(stored[i] == spec_sanitize(filename)[i - n]);
        assert(!is_removed_char(spec_sanitize(filename)[i - n]));
    }
}

} // verus!
