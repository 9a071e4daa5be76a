use vstd::prelude::*;
use configparser::ini::Ini;

verus! {

#[verifier::external_type_specification]
#[verifier::external_body]
pub struct ExIni(Ini);

/// The sections an INI document holds: section name to key to value
/// (`None` for a key written without a value).
pub uninterp spec fn ini_sections(ini: Ini) -> Map<Seq<char>, Map<Seq<char>, Option<Seq<char>>>>;

/// Whether the document was made with the default settings (case folding
/// of names, no cascading to a default section, `;`/`#` comments, `=`/`:`
/// delimiters).
pub uninterp spec fn ini_default_settings(ini: Ini) -> bool;

/// What `Ini::read` parses `text` into under the default settings
/// (`None` when it rejects the text).
pub uninterp spec fn ini_parse(text: Seq<char>) -> Option<
    Map<Seq<char>, Map<Seq<char>, Option<Seq<char>>>>,
>;

/// Names made only of ASCII characters other than upper-case letters; the
/// default settings look such names up unchanged.
pub open spec fn plain_name(s: Seq<char>) -> bool {
    forall|i: int| 0 <= i < s.len() ==> (#[trigger] s[i] as u32) < 128 && !(65 <= s[i] as u32 <= 90)
}

/// The entry for `key` in `section`, if the section and key are present.
pub open spec fn ini_raw(
    m: Map<Seq<char>, Map<Seq<char>, Option<Seq<char>>>>,
    section: Seq<char>,
    key: Seq<char>,
) -> Option<Option<Seq<char>>> {
    if m.contains_key(section) && m[section].contains_key(key) {
        Some(m[section][key])
    } else {
        None
    }
}

/// The value of `key` in `section`, if present and written with a value.
pub open spec fn ini_value(
    m: Map<Seq<char>, Map<Seq<char>, Option<Seq<char>>>>,
    section: Seq<char>,
    key: Seq<char>,
) -> Option<Seq<char>> {
    match ini_raw(m, section, key) {
        Some(Some(v)) => Some(v),
        _ => None,
    }
}

/// A character with ASCII upper-case letters folded to lower case.
pub open spec fn ascii_fold(c: char) -> u32 {
    if 65 <= c as u32 <= 90 {
        (c as u32 + 32) as u32
    } else {
        c as u32
    }
}

/// Equality ignoring ASCII case.
pub open spec fn ascii_eq_ignore_case(a: Seq<char>, b: Seq<char>) -> bool {
    a.len() == b.len() && forall|i: int| 0 <= i < a.len() ==> ascii_fold(#[trigger] a[i]) == ascii_fold(b[i])
}

/// What `getbool` makes of an entry: `Some(Some(b))` for `true`/`false` in
/// any ASCII case, `Some(None)` when the entry is absent, `None` (an error)
/// for any other value.
pub open spec fn ini_bool(
    m: Map<Seq<char>, Map<Seq<char>, Option<Seq<char>>>>,
    section: Seq<char>,
    key: Seq<char>,
) -> Option<Option<bool>> {
    match ini_raw(m, section, key) {
        Some(Some(v)) => if ascii_eq_ignore_case(v, seq!['t', 'r', 'u', 'e']) {
            Some(Some(true))
        } else if ascii_eq_ignore_case(v, seq!['f', 'a', 'l', 's', 'e']) {
            Some(Some(false))
        } else {
            None
        },
        _ => Some(None),
    }
}

/// Whether `c` is an ASCII decimal digit.
pub open spec fn is_digit(c: char) -> bool {
    48 <= c as u32 <= 57
}

/// The value of a string of decimal digits.
pub open spec fn digits_value(s: Seq<char>) -> nat
    decreases s.len(),
{
    if s.len() == 0 {
        0
    } else {
        digits_value(s.drop_last()) * 10 + (s.last() as u32 - 48) as nat
    }
}

/// What `str::parse::<u64>` accepts: an optional `+` followed by at least
/// one decimal digit and nothing else, with a value that fits in 64 bits.
pub open spec fn parse_u64(s: Seq<char>) -> Option<u64> {
    let d = if s.len() > 0 && s[0] == '+' {
        s.drop_first()
    } else {
        s
    };
    if d.len() > 0 && (forall|i: int| 0 <= i < d.len() ==> is_digit(#[trigger] d[i]))
        && digits_value(d) <= u64::MAX {
        Some(digits_value(d) as u64)
    } else {
        None
    }
}

/// What `getuint` makes of an entry: `Some(Some(n))` for a number,
/// `Some(None)` when the entry is absent, `None` (an error) otherwise.
pub open spec fn ini_uint(
    m: Map<Seq<char>, Map<Seq<char>, Option<Seq<char>>>>,
    section: Seq<char>,
    key: Seq<char>,
) -> Option<Option<u64>> {
    match ini_raw(m, section, key) {
        Some(Some(v)) => match parse_u64(v) {
            Some(n) => Some(Some(n)),
            None => None,
        },
        _ => Some(None),
    }
}

/// Calls `Ini::new`: an empty document with the default settings.
#[verifier::external_body]
pub(crate) fn ini_new() -> (r: Ini)
    ensures
        ini_sections(r).dom() == Set::<Seq<char>>::empty(),
        ini_default_settings(r),
{
    Ini::new()
}

/// Texts short enough for `Ini::read`: its parser numbers the lines with an
/// `i32` counter, which overflows (and panics) on about 2^31 lines; a text
/// has at most one line more than it has characters.
pub open spec fn ini_text_fits(text: Seq<char>) -> bool {
    text.len() < 0x7fff_0000
}

/// Calls `Ini::read`, which parses `input` with the document's settings and,
/// on success, replaces the stored sections with the result (on failure the
/// sections stay as they were). The settings are not touched. What the
/// parse yields is named `ini_parse` for the default settings only.
#[verifier::external_body]
pub(crate) fn ini_read(ini: &mut Ini, input: String) -> (r: Result<(), String>)
    requires
        ini_text_fits(input@),
    ensures
        ini_default_settings(*final(ini)) == ini_default_settings(*old(ini)),
        ini_default_settings(*old(ini)) ==> (r is Ok <==> ini_parse(input@) is Some),
        ini_default_settings(*old(ini)) && r is Ok ==> ini_sections(*final(ini)) == ini_parse(
            input@,
        )->0,
        r is Err ==> ini_sections(*final(ini)) == ini_sections(*old(ini)),
{
    match ini.read(input) {
        Ok(_) => Ok(()),
        Err(e) => Err(e),
    }
}

/// Calls `Ini::get`: the value stored for `key` in `section`. Stated for
/// the default settings and names without upper-case or non-ASCII letters
/// (which the crate looks up unchanged); other names are first lower-cased
/// by the crate, which is left unstated.
#[verifier::external_body]
pub(crate) fn ini_get(ini: &Ini, section: &str, key: &str) -> (r: Option<String>)
    ensures
        ini_default_settings(*ini) && plain_name(section@) && plain_name(key@) ==> match r {
            Some(v) => ini_value(ini_sections(*ini), section@, key@) == Some(v@),
            None => ini_value(ini_sections(*ini), section@, key@) is None,
        },
{
    ini.get(section, key)
}

/// Calls `Ini::getbool`: `true`/`false` in any ASCII case, `Ok(None)` when
/// absent, an error for other values. Stated as for `ini_get`; the text of
/// the error is left unstated.
#[verifier::external_body]
pub(crate) fn ini_getbool(ini: &Ini, section: &str, key: &str) -> (r: Result<Option<bool>, String>)
    ensures
        ini_default_settings(*ini) && plain_name(section@) && plain_name(key@) ==> match r {
            Ok(b) => ini_bool(ini_sections(*ini), section@, key@) == Some(b),
            Err(_) => ini_bool(ini_sections(*ini), section@, key@) is None,
        },
{
    ini.getbool(section, key)
}

/// Calls `Ini::getuint`: the stored value read as a `u64` by
/// `str::parse`, `Ok(None)` when absent, an error when it does not parse.
/// Stated as for `ini_get`; the text of the error is left unstated.
#[verifier::external_body]
pub(crate) fn ini_getuint(ini: &Ini, section: &str, key: &str) -> (r: Result<Option<u64>, String>)
    ensures
        ini_default_settings(*ini) && plain_name(section@) && plain_name(key@) ==> match r {
            Ok(n) => ini_uint(ini_sections(*ini), section@, key@) == Some(n),
            Err(_) => ini_uint(ini_sections(*ini), section@, key@) is None,
        },
{
    ini.getuint(section, key)
}

} // verus!
