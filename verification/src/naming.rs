//! Text rules: slugs, property keys, safe file names, allowed upload
//! extensions, storage keys, live event names and database URLs.

use vstd::prelude::*;
use crate::text::{from_char_range, from_chars, push_char, to_chars, str_eq, owned, join2};
use crate::errors::{DomainError, validation, is_validation_err};
use crate::render::{replace_all, replace_text};

verus! {

/// The Unicode lower-case mapping of a string (std `str::to_lowercase`).
pub uninterp spec fn unicode_lowercase(s: Seq<char>) -> Seq<char>;

/// The Unicode upper-case mapping of a string (std `str::to_uppercase`).
pub uninterp spec fn unicode_uppercase(s: Seq<char>) -> Seq<char>;

/// An ASCII capital letter.
pub open spec fn is_ascii_capital(c: char) -> bool {
    'A' <= c <= 'Z'
}

/// A character of the ASCII range.
pub open spec fn is_ascii_char(c: char) -> bool {
    c <= '\u{7f}'
}

pub open spec fn all_ascii(s: Seq<char>) -> bool {
    forall|i: int| 0 <= i < s.len() ==> is_ascii_char(#[trigger] s[i])
}

pub open spec fn no_ascii_capital(s: Seq<char>) -> bool {
    forall|i: int| 0 <= i < s.len() ==> !is_ascii_capital(#[trigger] s[i])
}

/// The lower-case form of an ASCII letter; any other character as it is.
pub open spec fn ascii_lower(c: char) -> char {
    if is_ascii_capital(c) {
        ((c as u32) + 32) as char
    } else {
        c
    }
}

/// A text with its ASCII capitals turned to lower case.
pub open spec fn ascii_lowered(s: Seq<char>) -> Seq<char> {
    Seq::new(s.len(), |i: int| ascii_lower(s[i]))
}

/// std `str::to_lowercase`: the lower-case equivalent of the text under the
/// Unicode `Lowercase` mapping, a function of the text alone. Claimed
/// besides the name, from the Unicode case data that std applies: no
/// character's lower-case mapping holds an ASCII capital, so none is left;
/// and on ASCII text the mapping turns `A`..`Z` into `a`..`z` and keeps
/// every other character. The mapping of other characters is left unstated.
#[verifier::external_body]
pub(crate) fn lowercase(s: &str) -> (r: String)
    ensures
        r@ == unicode_lowercase(s@),
        no_ascii_capital(r@),
        all_ascii(s@) ==> r@ == ascii_lowered(s@),
{
    s.to_lowercase()
}

/// The upper-case form of an ASCII small letter; any other character as it
/// is.
pub open spec fn ascii_upper(c: char) -> char {
    if 'a' <= c <= 'z' {
        ((c as u32) - 32) as char
    } else {
        c
    }
}

/// A text with its ASCII small letters turned to upper case.
pub open spec fn ascii_uppered(s: Seq<char>) -> Seq<char> {
    Seq::new(s.len(), |i: int| ascii_upper(s[i]))
}

/// std `str::to_uppercase`: the upper-case equivalent of the text under the
/// Unicode `Uppercase` mapping, a function of the text alone. Claimed
/// besides the name, from the Unicode case data that std applies: on ASCII
/// text the mapping turns `a`..`z` into `A`..`Z` and keeps every other
/// character. The mapping of other characters is left unstated.
#[verifier::external_body]
pub(crate) fn uppercase(s: &str) -> (r: String)
    ensures
        r@ == unicode_uppercase(s@),
        all_ascii(s@) ==> r@ == ascii_uppered(s@),
{
    s.to_uppercase()
}

pub open spec fn spec_ascii_digit(c: char) -> bool {
    '0' <= c <= '9'
}

pub open spec fn spec_ascii_alnum(c: char) -> bool {
    ||| '0' <= c <= '9'
    ||| 'a' <= c <= 'z'
    ||| 'A' <= c <= 'Z'
}

pub fn is_ascii_digit(c: char) -> (r: bool)
    ensures
        r == spec_ascii_digit(c),
{
    c >= '0' && c <= '9'
}

pub fn is_ascii_alnum(c: char) -> (r: bool)
    ensures
        r == spec_ascii_alnum(c),
{
    (c >= '0' && c <= '9') || (c >= 'a' && c <= 'z') || (c >= 'A' && c <= 'Z')
}

/// Turkish lower-case letters folded to their ASCII base letter.
pub open spec fn fold_turkish_lower(c: char) -> char {
    if c == 'ç' {
        'c'
    } else if c == 'ğ' {
        'g'
    } else if c == 'ı' {
        'i'
    } else if c == 'ö' {
        'o'
    } else if c == 'ş' {
        's'
    } else if c == 'ü' {
        'u'
    } else {
        c
    }
}

fn fold_lower(c: char) -> (r: char)
    ensures
        r == fold_turkish_lower(c),
{
    if c == 'ç' {
        'c'
    } else if c == 'ğ' {
        'g'
    } else if c == 'ı' {
        'i'
    } else if c == 'ö' {
        'o'
    } else if c == 'ş' {
        's'
    } else if c == 'ü' {
        'u'
    } else {
        c
    }
}

/// Turkish letters of both cases folded to their ASCII base letter.
pub open spec fn fold_turkish(c: char) -> char {
    if c == 'Ç' {
        'C'
    } else if c == 'Ğ' {
        'G'
    } else if c == 'İ' {
        'I'
    } else if c == 'Ö' {
        'O'
    } else if c == 'Ş' {
        'S'
    } else if c == 'Ü' {
        'U'
    } else {
        fold_turkish_lower(c)
    }
}

fn fold_any(c: char) -> (r: char)
    ensures
        r == fold_turkish(c),
{
    if c == 'Ç' {
        'C'
    } else if c == 'Ğ' {
        'G'
    } else if c == 'İ' {
        'I'
    } else if c == 'Ö' {
        'O'
    } else if c == 'Ş' {
        'S'
    } else if c == 'Ü' {
        'U'
    } else {
        fold_lower(c)
    }
}

// ---------------------------------------------------------------------------
// Property keys
// ---------------------------------------------------------------------------

/// One character of a property key: Turkish letters folded, ASCII letters
/// and digits kept, everything else an underscore.
pub open spec fn key_char(c: char) -> char {
    let f = fold_turkish_lower(c);
    if spec_ascii_alnum(f) {
        f
    } else {
        '_'
    }
}

pub open spec fn spec_key_slug(lowered: Seq<char>) -> Seq<char> {
    Seq::new(lowered.len(), |i: int| key_char(lowered[i]))
}

/// The property key of an already lower-cased name.
pub fn key_slug_lowered(lowered: &str) -> (r: String)
    ensures
        r@ == spec_key_slug(lowered@),
{
    let v = to_chars(lowered);
    let n = v.len();
    let mut out = String::new();
    let mut i: usize = 0;
    while i < n
        invariant
            n == v@.len(),
            v@ == lowered@,
            i <= n,
            out@ == spec_key_slug(lowered@).subrange(0, i as int),
        decreases n - i,
    {
        let f = fold_lower(v[i]);
        let c = if is_ascii_alnum(f) {
            f
        } else {
            '_'
        };
        push_char(&mut out, c);
        i = i + 1;
        assert(out@ =~= spec_key_slug(lowered@).subrange(0, i as int));
    }
    assert(out@ =~= spec_key_slug(lowered@));
    out
}

/// A character of a finished property key: a lower-case ASCII letter, a
/// digit or `_`.
pub open spec fn key_out_char(c: char) -> bool {
    ('a' <= c <= 'z') || ('0' <= c <= '9') || c == '_'
}

/// The property key derived from a property name: lower-cased, Turkish
/// letters folded, everything but ASCII letters and digits replaced by `_`.
/// The key holds only lower-case ASCII letters, digits and `_`; an ASCII
/// name is lower-cased letter by letter.
pub fn key_slug(input: &str) -> (r: String)
    ensures
        r@ == spec_key_slug(unicode_lowercase(input@)),
        forall|i: int| 0 <= i < r@.len() ==> key_out_char(#[trigger] r@[i]),
        all_ascii(input@) ==> r@ == spec_key_slug(ascii_lowered(input@)),
{
    let lowered = lowercase(input);
    let r = key_slug_lowered(lowered.as_str());
    proof {
        assert forall|i: int| 0 <= i < r@.len() implies key_out_char(#[trigger] r@[i]) by {
            assert(r@[i] == key_char(lowered@[i]));
            assert(!is_ascii_capital(lowered@[i]));
        }
    }
    r
}

// ---------------------------------------------------------------------------
// Workspace slugs
// ---------------------------------------------------------------------------

/// Slug text and whether it ends in a separator (or is still empty), after
/// reading `s`: letters and digits are kept, each run of other characters
/// becomes one `-`, and no `-` starts the slug.
pub open spec fn slug_scan(s: Seq<char>) -> (Seq<char>, bool)
    decreases s.len(),
{
    if s.len() == 0 {
        (Seq::empty(), true)
    } else {
        let (out, sep) = slug_scan(s.drop_last());
        let c = fold_turkish_lower(s.last());
        if spec_ascii_alnum(c) {
            (out.push(c), false)
        } else if !sep {
            (out.push('-'), true)
        } else {
            (out, sep)
        }
    }
}

pub open spec fn trim_end_dashes(s: Seq<char>) -> Seq<char>
    decreases s.len(),
{
    if s.len() > 0 && s.last() == '-' {
        trim_end_dashes(s.drop_last())
    } else {
        s
    }
}

pub open spec fn spec_slug(lowered: Seq<char>) -> Seq<char> {
    let s = trim_end_dashes(slug_scan(lowered).0);
    if s.len() == 0 {
        "workspace"@
    } else {
        s
    }
}

/// Letters, digits and single inner dashes.
pub open spec fn slug_shaped(s: Seq<char>) -> bool {
    &&& forall|i: int| 0 <= i < s.len() ==> spec_ascii_alnum(#[trigger] s[i]) || s[i] == '-'
    &&& forall|i: int| 0 <= i < s.len() - 1 ==> !(#[trigger] s[i] == '-' && s[i + 1] == '-')
    &&& s.len() > 0 ==> s[0] != '-'
}

proof fn lemma_slug_scan_shape(s: Seq<char>)
    ensures
        slug_shaped(slug_scan(s).0),
        slug_scan(s).1 <==> (slug_scan(s).0.len() == 0 || slug_scan(s).0.last() == '-'),
    decreases s.len(),
{
    if s.len() > 0 {
        lemma_slug_scan_shape(s.drop_last());
    }
}

proof fn lemma_trim_end_dashes(s: Seq<char>)
    requires
        slug_shaped(s),
    ensures
        slug_shaped(trim_end_dashes(s)),
        trim_end_dashes(s).len() > 0 ==> trim_end_dashes(s).last() != '-',
    decreases s.len(),
{
    if s.len() > 0 && s.last() == '-' {
        let t = s.drop_last();
        assert forall|i: int| 0 <= i < t.len() - 1 implies !(#[trigger] t[i] == '-' && t[i + 1] == '-') by {
            assert(t[i] == s[i] && t[i + 1] == s[i + 1]);
        }
        assert forall|i: int| 0 <= i < t.len() implies spec_ascii_alnum(#[trigger] t[i]) || t[i] == '-' by {
            assert(t[i] == s[i]);
        }
        lemma_trim_end_dashes(t);
    }
}

/// A slug is never empty and holds only ASCII letters, digits and single
/// dashes between them (none at either end).
pub proof fn lemma_slug_is_url_safe(lowered: Seq<char>)
    ensures
        spec_slug(lowered).len() > 0,
        slug_shaped(spec_slug(lowered)),
        spec_slug(lowered).last() != '-',
{
    lemma_slug_scan_shape(lowered);
    lemma_trim_end_dashes(slug_scan(lowered).0);
    if trim_end_dashes(slug_scan(lowered).0).len() == 0 {
        reveal_strlit("workspace");
        let w = "workspace"@;
        assert(w.len() == 9);
        assert forall|i: int| 0 <= i < w.len() implies spec_ascii_alnum(#[trigger] w[i]) || w[i] == '-' by {}
    }
}

proof fn lemma_scan_of_shaped(s: Seq<char>)
    requires
        slug_shaped(s),
    ensures
        slug_scan(s) == (s, s.len() == 0 || s.last() == '-'),
    decreases s.len(),
{
    if s.len() > 0 {
        let t = s.drop_last();
        assert forall|i: int| 0 <= i < t.len() - 1 implies !(#[trigger] t[i] == '-' && t[i + 1] == '-') by {
            assert(t[i] == s[i] && t[i + 1] == s[i + 1]);
        }
        assert forall|i: int| 0 <= i < t.len() implies spec_ascii_alnum(#[trigger] t[i]) || t[i] == '-' by {
            assert(t[i] == s[i]);
        }
        lemma_scan_of_shaped(t);
        assert(spec_ascii_alnum(s[s.len() - 1]) || s[s.len() - 1] == '-');
        if s.last() == '-' && t.len() > 0 {
            assert(t.last() == s[s.len() - 2]);
        }
        assert(t.push(s.last()) =~= s);
    }
}

/// Slugging a slug again changes nothing.
pub proof fn lemma_slug_of_slug_is_unchanged(lowered: Seq<char>)
    ensures
        spec_slug(spec_slug(lowered)) == spec_slug(lowered),
{
    let s = spec_slug(lowered);
    lemma_slug_is_url_safe(lowered);
    lemma_scan_of_shaped(s);
}

/// The URL-safe slug of an already lower-cased name.
pub fn slugify_lowered(lowered: &str) -> (r: String)
    ensures
        r@ == spec_slug(lowered@),
{
    let v = to_chars(lowered);
    let n = v.len();
    let mut out: Vec<char> = Vec::new();
    let mut prev_dash = true;
    let mut i: usize = 0;
    while i < n
        invariant
            n == v@.len(),
            v@ == lowered@,
            i <= n,
            (out@, prev_dash) == slug_scan(lowered@.subrange(0, i as int)),
        decreases n - i,
    {
        proof {
            assert(lowered@.subrange(0, i + 1).drop_last() =~= lowered@.subrange(0, i as int));
            assert(lowered@.subrange(0, i + 1).last() == v@[i as int]);
        }
        let c = fold_lower(v[i]);
        if is_ascii_alnum(c) {
            out.push(c);
            prev_dash = false;
        } else if !prev_dash {
            out.push('-');
            prev_dash = true;
        }
        i = i + 1;
    }
    assert(lowered@.subrange(0, n as int) =~= lowered@);
    let ghost scanned = out@;
    let mut end = out.len();
    assert(scanned.subrange(0, end as int) =~= scanned);
    while end > 0 && out[end - 1] == '-'
        invariant
            end <= out@.len(),
            out@ == scanned,
            trim_end_dashes(scanned) == trim_end_dashes(scanned.subrange(0, end as int)),
        decreases end,
    {
        assert(scanned.subrange(0, end as int).drop_last() =~= scanned.subrange(0, end - 1));
        end = end - 1;
    }
    assert(trim_end_dashes(scanned.subrange(0, end as int)) == scanned.subrange(0, end as int));
    if end == 0 {
        owned("workspace")
    } else {
        from_char_range(&out, 0, end)
    }
}

/// A text with its Turkish letters (either case) folded to ASCII.
pub open spec fn fold_text(s: Seq<char>) -> Seq<char> {
    Seq::new(s.len(), |i: int| fold_turkish(s[i]))
}

fn fold_text_exec(s: &str) -> (r: String)
    ensures
        r@ == fold_text(s@),
{
    let v = to_chars(s);
    let mut out: Vec<char> = Vec::new();
    let mut i: usize = 0;
    while i < v.len()
        invariant
            v@ == s@,
            i <= v@.len(),
            out@ == fold_text(s@).subrange(0, i as int),
        decreases v@.len() - i,
    {
        out.push(fold_any(v[i]));
        i = i + 1;
        assert(out@ =~= fold_text(s@).subrange(0, i as int));
    }
    assert(fold_text(s@).subrange(0, v@.len() as int) =~= fold_text(s@));
    from_chars(&out)
}

/// A character of a finished slug: a lower-case ASCII letter, a digit or `-`.
pub open spec fn slug_char(c: char) -> bool {
    ('a' <= c <= 'z') || ('0' <= c <= '9') || c == '-'
}

/// A finished slug: not empty, only lower-case letters, digits and single
/// inner dashes.
pub open spec fn is_lower_slug(s: Seq<char>) -> bool {
    &&& s.len() > 0
    &&& slug_shaped(s)
    &&& s.last() != '-'
    &&& forall|i: int| 0 <= i < s.len() ==> slug_char(#[trigger] s[i])
}

proof fn lemma_scan_lower(s: Seq<char>)
    requires
        no_ascii_capital(s),
    ensures
        forall|i: int| 0 <= i < slug_scan(s).0.len() ==> slug_char(#[trigger] slug_scan(s).0[i]),
    decreases s.len(),
{
    if s.len() > 0 {
        let t = s.drop_last();
        assert forall|i: int| 0 <= i < t.len() implies !is_ascii_capital(#[trigger] t[i]) by {
            assert(t[i] == s[i]);
        }
        lemma_scan_lower(t);
        assert(!is_ascii_capital(s[s.len() - 1]));
        let prev = slug_scan(t).0;
        let c = fold_turkish_lower(s.last());
        if spec_ascii_alnum(c) {
            assert forall|i: int| 0 <= i < prev.push(c).len() implies slug_char(#[trigger] prev.push(c)[i]) by {
                if i < prev.len() {
                    assert(prev.push(c)[i] == prev[i]);
                }
            }
        } else {
            assert forall|i: int| 0 <= i < prev.push('-').len() implies slug_char(#[trigger] prev.push('-')[i]) by {
                if i < prev.len() {
                    assert(prev.push('-')[i] == prev[i]);
                }
            }
        }
    }
}

proof fn lemma_trim_end_dashes_prefix(s: Seq<char>)
    ensures
        trim_end_dashes(s).len() <= s.len(),
        trim_end_dashes(s) == s.subrange(0, trim_end_dashes(s).len() as int),
    decreases s.len(),
{
    if s.len() > 0 && s.last() == '-' {
        lemma_trim_end_dashes_prefix(s.drop_last());
        assert(s.drop_last().subrange(0, trim_end_dashes(s).len() as int) =~= s.subrange(0, trim_end_dashes(s).len() as int));
    } else {
        assert(s.subrange(0, s.len() as int) =~= s);
    }
}

/// The slug of a text without ASCII capitals is a finished slug.
proof fn lemma_slug_is_lower(lowered: Seq<char>)
    requires
        no_ascii_capital(lowered),
    ensures
        is_lower_slug(spec_slug(lowered)),
{
    lemma_slug_is_url_safe(lowered);
    lemma_scan_lower(lowered);
    let scanned = slug_scan(lowered).0;
    lemma_trim_end_dashes_prefix(scanned);
    let t = trim_end_dashes(scanned);
    if t.len() == 0 {
        reveal_strlit("workspace");
        let w = "workspace"@;
        assert forall|i: int| 0 <= i < w.len() implies slug_char(#[trigger] w[i]) by {}
    } else {
        assert forall|i: int| 0 <= i < t.len() implies slug_char(#[trigger] t[i]) by {
            assert(t[i] == scanned[i]);
        }
    }
}

/// A finished slug is its own slug.
proof fn lemma_lower_slug_fixed(s: Seq<char>)
    requires
        is_lower_slug(s),
    ensures
        fold_text(s) == s,
        all_ascii(s),
        ascii_lowered(s) == s,
        spec_slug(s) == s,
{
    assert(fold_text(s) =~= s);
    assert(ascii_lowered(s) =~= s);
    assert forall|i: int| 0 <= i < s.len() implies is_ascii_char(#[trigger] s[i]) by {
        assert(slug_char(s[i]));
    }
    assert forall|i: int| 0 <= i < s.len() implies spec_ascii_alnum(#[trigger] s[i]) || s[i] == '-' by {
        assert(slug_char(s[i]));
    }
    lemma_scan_of_shaped(s);
}

/// The URL-safe slug of a workspace name: Turkish letters (capitals too)
/// folded to ASCII, then lower-cased, runs of other characters collapsed to
/// one `-`, no `-` at either end, and `workspace` when nothing is left. The
/// slug is never empty and holds only lower-case ASCII letters, digits and
/// single inner dashes; a text that is already such a slug comes back
/// unchanged, so slugging a slug changes nothing.
pub fn slugify(input: &str) -> (r: String)
    ensures
        r@ == spec_slug(unicode_lowercase(fold_text(input@))),
        is_lower_slug(r@),
        is_lower_slug(input@) ==> r@ == input@,
{
    let folded = fold_text_exec(input);
    let lowered = lowercase(folded.as_str());
    let r = slugify_lowered(lowered.as_str());
    proof {
        lemma_slug_is_lower(lowered@);
        if is_lower_slug(input@) {
            lemma_lower_slug_fixed(input@);
        }
    }
    r
}

// ---------------------------------------------------------------------------
// Uploaded file names
// ---------------------------------------------------------------------------

/// One character of a safe file name: Turkish letters folded, ASCII letters,
/// digits and `.`, `_`, `-` kept, everything else an underscore.
pub open spec fn file_char(c: char) -> char {
    let f = fold_turkish(c);
    if spec_ascii_alnum(f) || f == '.' || f == '_' || f == '-' {
        f
    } else {
        '_'
    }
}

pub open spec fn is_edge_mark(c: char) -> bool {
    c == '.' || c == '_'
}

pub open spec fn trim_start_marks(s: Seq<char>) -> Seq<char>
    decreases s.len(),
{
    if s.len() > 0 && is_edge_mark(s[0]) {
        trim_start_marks(s.drop_first())
    } else {
        s
    }
}

pub open spec fn trim_end_marks(s: Seq<char>) -> Seq<char>
    decreases s.len(),
{
    if s.len() > 0 && is_edge_mark(s.last()) {
        trim_end_marks(s.drop_last())
    } else {
        s
    }
}

pub open spec fn spec_safe_file_name(name: Seq<char>) -> Seq<char> {
    let mapped = Seq::new(name.len(), |i: int| file_char(name[i]));
    let trimmed = trim_end_marks(trim_start_marks(mapped));
    if trimmed.len() == 0 {
        "dosya"@
    } else {
        trimmed
    }
}

/// A character that may stand in a stored file name.
pub open spec fn safe_name_char(c: char) -> bool {
    spec_ascii_alnum(c) || c == '.' || c == '_' || c == '-'
}

proof fn lemma_trim_start_marks(s: Seq<char>)
    requires
        forall|i: int| 0 <= i < s.len() ==> safe_name_char(#[trigger] s[i]),
    ensures
        forall|i: int| 0 <= i < trim_start_marks(s).len() ==> safe_name_char(#[trigger] trim_start_marks(s)[i]),
        trim_start_marks(s).len() > 0 ==> !is_edge_mark(trim_start_marks(s)[0]),
    decreases s.len(),
{
    if s.len() > 0 && is_edge_mark(s[0]) {
        let t = s.drop_first();
        assert forall|i: int| 0 <= i < t.len() implies safe_name_char(#[trigger] t[i]) by {
            assert(t[i] == s[i + 1]);
        }
        lemma_trim_start_marks(t);
    }
}

proof fn lemma_trim_end_marks(s: Seq<char>)
    requires
        forall|i: int| 0 <= i < s.len() ==> safe_name_char(#[trigger] s[i]),
    ensures
        trim_end_marks(s).len() <= s.len(),
        trim_end_marks(s) == s.subrange(0, trim_end_marks(s).len() as int),
        trim_end_marks(s).len() > 0 ==> !is_edge_mark(trim_end_marks(s).last()),
    decreases s.len(),
{
    if s.len() > 0 && is_edge_mark(s.last()) {
        let t = s.drop_last();
        assert forall|i: int| 0 <= i < t.len() implies safe_name_char(#[trigger] t[i]) by {
            assert(t[i] == s[i]);
        }
        lemma_trim_end_marks(t);
        assert(t.subrange(0, trim_end_marks(t).len() as int) =~= s.subrange(0, trim_end_marks(t).len() as int));
    } else {
        assert(s.subrange(0, s.len() as int) =~= s);
    }
}

/// A stored file name is never empty, holds only ASCII letters and digits,
/// `.`, `_` and `-` (so no path separator), and neither starts nor ends
/// with `.` or `_`.
pub proof fn lemma_safe_file_name_is_safe(name: Seq<char>)
    ensures
        spec_safe_file_name(name).len() > 0,
        forall|i: int| 0 <= i < spec_safe_file_name(name).len() ==> safe_name_char(
            #[trigger] spec_safe_file_name(name)[i],
        ),
        !is_edge_mark(spec_safe_file_name(name)[0]),
        !is_edge_mark(spec_safe_file_name(name).last()),
{
    let mapped = Seq::new(name.len(), |i: int| file_char(name[i]));
    assert forall|i: int| 0 <= i < mapped.len() implies safe_name_char(#[trigger] mapped[i]) by {
        assert(mapped[i] == file_char(name[i]));
    }
    lemma_trim_start_marks(mapped);
    let a = trim_start_marks(mapped);
    lemma_trim_end_marks(a);
    let b = trim_end_marks(a);
    if b.len() == 0 {
        reveal_strlit("dosya");
        assert(spec_safe_file_name(name) == "dosya"@);
    } else {
        assert forall|i: int| 0 <= i < b.len() implies safe_name_char(#[trigger] b[i]) by {
            assert(b[i] == a.subrange(0, b.len() as int)[i]);
        }
        assert(b[0] == a[0]);
    }
}

/// Making a name safe a second time changes nothing: a stored file name is
/// already safe.
pub proof fn lemma_safe_file_name_idempotent(name: Seq<char>)
    ensures
        spec_safe_file_name(spec_safe_file_name(name)) == spec_safe_file_name(name),
{
    let s = spec_safe_file_name(name);
    lemma_safe_file_name_is_safe(name);
    let mapped = Seq::new(s.len(), |i: int| file_char(s[i]));
    assert forall|i: int| 0 <= i < s.len() implies mapped[i] == s[i] by {
        assert(safe_name_char(s[i]));
    }
    assert(mapped =~= s);
    assert(trim_start_marks(s) == s);
    assert(trim_end_marks(s) == s);
}

/// Makes an uploaded file name safe: Turkish letters folded to ASCII, every
/// character other than ASCII letters, digits, `.`, `_` and `-` replaced by
/// `_`, leading and trailing `.`/`_` removed, and `dosya` when nothing is
/// left.
pub fn sanitize_file_name(name: &str) -> (r: String)
    ensures
        r@ == spec_safe_file_name(name@),
{
    let v = to_chars(name);
    let n = v.len();
    let ghost mapped = Seq::new(name@.len(), |i: int| file_char(name@[i]));
    let mut m: Vec<char> = Vec::new();
    let mut i: usize = 0;
    while i < n
        invariant
            n == v@.len(),
            v@ == name@,
            i <= n,
            mapped == Seq::new(name@.len(), |i: int| file_char(name@[i])),
            m@ == mapped.subrange(0, i as int),
        decreases n - i,
    {
        let f = fold_any(v[i]);
        let c = if is_ascii_alnum(f) || f == '.' || f == '_' || f == '-' {
            f
        } else {
            '_'
        };
        m.push(c);
        i = i + 1;
        assert(m@ =~= mapped.subrange(0, i as int));
    }
    assert(m@ =~= mapped);
    let mut lo: usize = 0;
    while lo < n && (m[lo] == '.' || m[lo] == '_')
        invariant
            lo <= n,
            n == m@.len(),
            trim_start_marks(mapped) == trim_start_marks(mapped.subrange(lo as int, n as int)),
            m@ == mapped,
        decreases n - lo,
    {
        assert(mapped.subrange(lo as int, n as int).drop_first() =~= mapped.subrange(lo + 1, n as int));
        lo = lo + 1;
    }
    let ghost started = mapped.subrange(lo as int, n as int);
    assert(trim_start_marks(started) == started);
    let mut hi: usize = n;
    while hi > lo && (m[hi - 1] == '.' || m[hi - 1] == '_')
        invariant
            lo <= hi <= n,
            n == m@.len(),
            m@ == mapped,
            trim_end_marks(started) == trim_end_marks(mapped.subrange(lo as int, hi as int)),
        decreases hi,
    {
        assert(mapped.subrange(lo as int, hi as int).drop_last() =~= mapped.subrange(lo as int, hi - 1));
        hi = hi - 1;
    }
    assert(trim_end_marks(mapped.subrange(lo as int, hi as int)) == mapped.subrange(lo as int, hi as int));
    if hi == lo {
        owned("dosya")
    } else {
        from_char_range(&m, lo, hi)
    }
}

// ---------------------------------------------------------------------------
// Upload extensions
// ---------------------------------------------------------------------------

/// The text after the last `.`, or the whole text when there is none.
pub open spec fn last_segment(s: Seq<char>) -> Seq<char>
    decreases s.len(),
{
    if s.len() == 0 {
        s
    } else if s.last() == '.' {
        Seq::empty()
    } else {
        last_segment(s.drop_last()).push(s.last())
    }
}

fn last_segment_of(s: &str) -> (r: String)
    ensures
        r@ == last_segment(s@),
{
    let v = to_chars(s);
    let n = v.len();
    let mut start: usize = n;
    assert(s@.subrange(0, n as int) =~= s@);
    assert(s@.subrange(n as int, n as int) =~= Seq::<char>::empty());
    assert(last_segment(s@) + Seq::<char>::empty() =~= last_segment(s@));
    while start > 0 && v[start - 1] != '.'
        invariant
            start <= n,
            n == v@.len(),
            v@ == s@,
            last_segment(s@) == last_segment(s@.subrange(0, start as int)) + s@.subrange(start as int, n as int),
        decreases start,
    {
        let ghost pre = s@.subrange(0, start as int);
        assert(pre.drop_last() =~= s@.subrange(0, start - 1));
        assert(s@.subrange(start - 1, n as int) =~= seq![pre.last()] + s@.subrange(start as int, n as int));
        assert(last_segment(s@.subrange(0, start - 1)).push(pre.last()) + s@.subrange(start as int, n as int)
            =~= last_segment(s@.subrange(0, start - 1)) + s@.subrange(start - 1, n as int));
        start = start - 1;
    }
    assert(last_segment(s@.subrange(0, start as int)) =~= Seq::<char>::empty());
    assert(Seq::<char>::empty() + s@.subrange(start as int, n as int) =~= s@.subrange(start as int, n as int));
    from_char_range(&v, start, n)
}

pub open spec fn spec_allowed_extension(ext: Seq<char>) -> bool {
    ||| ext == "jpg"@
    ||| ext == "jpeg"@
    ||| ext == "png"@
    ||| ext == "webp"@
    ||| ext == "pdf"@
    ||| ext == "xlsx"@
    ||| ext == "dwg"@
    ||| ext == "dxf"@
}

/// The accepted upload types are exactly jpg, jpeg, png, webp, pdf, xlsx,
/// dwg and dxf, the types that the refusal message lists (jpeg being the
/// long form of jpg).
pub proof fn lemma_accepted_upload_types(ext: Seq<char>)
    ensures
        spec_allowed_extension(ext) <==> (ext == "jpg"@ || ext == "jpeg"@ || ext == "png"@ || ext == "webp"@
            || ext == "pdf"@ || ext == "xlsx"@ || ext == "dwg"@ || ext == "dxf"@),
{
}

/// Is an already lower-cased extension one of the accepted upload types
/// (jpg, jpeg, png, webp, pdf, xlsx, dwg, dxf)?
pub fn is_allowed_extension(ext: &str) -> (r: bool)
    ensures
        r == spec_allowed_extension(ext@),
{
    str_eq(ext, "jpg") || str_eq(ext, "jpeg") || str_eq(ext, "png") || str_eq(ext, "webp")
        || str_eq(ext, "pdf") || str_eq(ext, "xlsx") || str_eq(ext, "dwg") || str_eq(ext, "dxf")
}

/// Extension check of an upload, independent of the declared MIME type: the
/// text after the last `.`, lower-cased, must be an accepted extension.
pub fn extension_allowed(file_name: &str) -> (r: bool)
    ensures
        r == spec_allowed_extension(unicode_lowercase(last_segment(file_name@))),
        all_ascii(last_segment(file_name@)) ==> r == spec_allowed_extension(ascii_lowered(last_segment(file_name@))),
{
    let ext = last_segment_of(file_name);
    let lowered = lowercase(ext.as_str());
    is_allowed_extension(lowered.as_str())
}

// ---------------------------------------------------------------------------
// Live event names
// ---------------------------------------------------------------------------

/// The live-stream event name of an already lower-cased event type.
pub fn event_name_from_lowered(lowered: &str) -> (r: String)
    ensures
        r@ == "process."@ + replace_all(lowered@, "_"@, "."@),
{
    proof {
        reveal_strlit("_");
    }
    let dotted = replace_text(lowered, "_", ".");
    join2("process.", dotted.as_str())
}

/// The live-stream event name of a process event type:
/// `STARTED` -> `process.started`, `NOTE_ADDED` -> `process.note.added`.
pub fn process_event_name(event_type: &str) -> (r: String)
    ensures
        r@ == "process."@ + replace_all(unicode_lowercase(event_type@), "_"@, "."@),
        all_ascii(event_type@) ==> r@ == "process."@ + replace_all(ascii_lowered(event_type@), "_"@, "."@),
{
    let lowered = lowercase(event_type);
    event_name_from_lowered(lowered.as_str())
}

// ---------------------------------------------------------------------------
// Database URLs
// ---------------------------------------------------------------------------

/// The text before the first `?`.
pub open spec fn before_query(s: Seq<char>) -> Seq<char>
    decreases s.len(),
{
    if s.len() == 0 {
        s
    } else if s[0] == '?' {
        Seq::empty()
    } else {
        seq![s[0]] + before_query(s.drop_first())
    }
}

pub open spec fn spec_sqlite_path(url: Seq<char>) -> Option<Seq<char>> {
    let prefix = "sqlite://"@;
    if url.len() >= prefix.len() && url.subrange(0, prefix.len() as int) == prefix {
        let path = before_query(url.subrange(prefix.len() as int, url.len() as int));
        if path.len() == 0 || path == ":memory:"@ {
            None
        } else {
            Some(path)
        }
    } else {
        None
    }
}

/// The file path of a `sqlite://` URL without its query
/// (`sqlite://data/app.db?mode=rwc` -> `data/app.db`); none for other URLs,
/// an empty path or the in-memory database.
pub fn strip_sqlite_prefix(url: &str) -> (r: Option<String>)
    ensures
        match spec_sqlite_path(url@) {
            Some(p) => r matches Some(x) && x@ == p,
            None => r is None,
        },
{
    proof {
        reveal_strlit("sqlite://");
    }
    let v = to_chars(url);
    let p = to_chars("sqlite://");
    let n = v.len();
    let plen = p.len();
    if n < plen {
        return None;
    }
    let mut j: usize = 0;
    while j < plen
        invariant
            j <= plen,
            plen == p@.len(),
            plen <= n,
            n == v@.len(),
            v@ == url@,
            p@ == "sqlite://"@,
            forall|k: int| 0 <= k < j ==> v@[k] == p@[k],
        decreases plen - j,
    {
        if v[j] != p[j] {
            assert(url@.subrange(0, plen as int)[j as int] != p@[j as int]);
            return None;
        }
        j = j + 1;
    }
    assert(url@.subrange(0, plen as int) =~= p@);
    let mut end: usize = plen;
    while end < n && v[end] != '?'
        invariant
            plen <= end <= n,
            n == v@.len(),
            v@ == url@,
            before_query(url@.subrange(plen as int, n as int)) == url@.subrange(plen as int, end as int)
                + before_query(url@.subrange(end as int, n as int)),
        decreases n - end,
    {
        assert(url@.subrange(end as int, n as int).drop_first() =~= url@.subrange(end + 1, n as int));
        assert(url@.subrange(plen as int, end + 1) =~= url@.subrange(plen as int, end as int) + seq![v@[end as int]]);
        end = end + 1;
    }
    proof {
        if end < n {
            assert(url@.subrange(end as int, n as int)[0] == '?');
        }
        assert(url@.subrange(plen as int, end as int) + Seq::<char>::empty() =~= url@.subrange(plen as int, end as int));
    }
    let path = from_char_range(&v, plen, end);
    if path.as_str().unicode_len() == 0 || str_eq(path.as_str(), ":memory:") {
        None
    } else {
        Some(path)
    }
}

// ---------------------------------------------------------------------------
// Attachments and storage keys
// ---------------------------------------------------------------------------

pub open spec fn spec_entity_type_ok(t: Seq<char>) -> bool {
    ||| t == "PROJECT"@
    ||| t == "SECTION"@
    ||| t == "WORK_ITEM"@
    ||| t == "PROCESS_EXECUTION"@
}

/// Attachments may belong to a project, a section, a work item or a process
/// execution; any other entity type is a validation error.
pub fn ensure_entity_type(t: &str) -> (r: Result<(), DomainError>)
    ensures
        spec_entity_type_ok(t@) ==> r is Ok,
        !spec_entity_type_ok(t@) ==> is_validation_err(r, "Geçersiz entity_type."@),
{
    if str_eq(t, "PROJECT") || str_eq(t, "SECTION") || str_eq(t, "WORK_ITEM") || str_eq(
        t,
        "PROCESS_EXECUTION",
    ) {
        Ok(())
    } else {
        Err(validation("Geçersiz entity_type."))
    }
}

/// Characters a storage key may hold.
pub open spec fn key_char_ok(c: char) -> bool {
    spec_ascii_alnum(c) || c == '/' || c == '_' || c == '-' || c == '.'
}

/// Two consecutive dots somewhere in the text.
pub open spec fn has_double_dot(s: Seq<char>) -> bool {
    exists|i: int| 0 <= i < s.len() - 1 && s[i] == '.' && #[trigger] s[i + 1] == '.'
}

/// A storage key is accepted when it is non-empty, relative (no leading
/// `/`), uses only ASCII letters, digits and `/`, `_`, `-`, `.`, and holds no
/// `..`.
pub open spec fn spec_key_ok(key: Seq<char>) -> bool {
    &&& key.len() > 0
    &&& key[0] != '/'
    &&& forall|i: int| 0 <= i < key.len() ==> key_char_ok(#[trigger] key[i])
    &&& !has_double_dot(key)
}

/// Refuses storage keys that could leave the storage root.
pub fn check_storage_key(key: &str) -> (r: Result<(), DomainError>)
    ensures
        spec_key_ok(key@) ==> r is Ok,
        !spec_key_ok(key@) ==> is_validation_err(r, "Geçersiz depolama anahtarı."@),
{
    let v = to_chars(key);
    let n = v.len();
    let mut ok = n > 0;
    let mut i: usize = 0;
    while i < n
        invariant
            n == v@.len(),
            v@ == key@,
            i <= n,
            ok == (n > 0 && (forall|j: int| 0 <= j < i ==> key_char_ok(#[trigger] v@[j]))
                && !(exists|j: int| 0 <= j < i - 1 && v@[j] == '.' && #[trigger] v@[j + 1] == '.')),
        decreases n - i,
    {
        let c = v[i];
        let good = is_ascii_alnum(c) || c == '/' || c == '_' || c == '-' || c == '.';
        let dd = i > 0 && v[i - 1] == '.' && c == '.';
        proof {
            if dd {
                assert(v@[i - 1] == '.' && v@[(i - 1) + 1] == '.');
            }
            if !dd && (exists|j: int| 0 <= j < i + 1 - 1 && v@[j] == '.' && #[trigger] v@[j + 1] == '.') {
                let j = choose|j: int| 0 <= j < i + 1 - 1 && v@[j] == '.' && #[trigger] v@[j + 1] == '.';
                assert(j < i - 1);
            }
        }
        if !good || dd {
            ok = false;
        }
        i = i + 1;
    }
    if ok && v[0] != '/' {
        Ok(())
    } else {
        Err(validation("Geçersiz depolama anahtarı."))
    }
}

/// std `Path::join` on Unix, rendered back to text: an absolute `key`
/// replaces the root; otherwise `key` is appended, with a `/` between when
/// the root is non-empty and does not already end in one.
#[verifier::external_body]
fn join_path(root: &str, key: &str) -> (r: String)
    ensures
        key@.len() > 0 && key@[0] == '/' ==> r@ == key@,
        !(key@.len() > 0 && key@[0] == '/') && root@.len() > 0 && root@.last() != '/' ==> r@
            == root@ + "/"@ + key@,
        !(key@.len() > 0 && key@[0] == '/') && (root@.len() == 0 || root@.last() == '/') ==> r@
            == root@ + key@,
{
    std::path::Path::new(root).join(key).to_string_lossy().into_owned()
}

/// Local file storage: attachments live under a root directory, one file per
/// storage key.
#[derive(Debug)]
pub struct LocalFileStorage {
    pub root: String,
}

impl LocalFileStorage {
    pub fn new(root: String) -> (r: LocalFileStorage)
        ensures
            r.root == root,
    {
        LocalFileStorage { root }
    }

    /// The file path of a storage key under the root; keys that could escape
    /// the root are refused, so every path given starts with the root.
    pub fn path_of(&self, key: &str) -> (r: Result<String, DomainError>)
        ensures
            spec_key_ok(key@) ==> (r matches Ok(p) && (self.root@.len() > 0 && self.root@.last() != '/'
                ==> p@ == self.root@ + "/"@ + key@) && ((self.root@.len() == 0 || self.root@.last() == '/')
                ==> p@ == self.root@ + key@)),
            !spec_key_ok(key@) ==> is_validation_err(r, "Geçersiz depolama anahtarı."@),
            r matches Ok(p) ==> p@.len() >= self.root@.len() && p@.subrange(0, self.root@.len() as int)
                == self.root@,
    {
        match check_storage_key(key) {
            Ok(()) => {
                let p = join_path(self.root.as_str(), key);
                proof {
                    reveal_strlit("/");
                    if self.root@.len() > 0 && self.root@.last() != '/' {
                        assert((self.root@ + "/"@ + key@).subrange(0, self.root@.len() as int) =~= self.root@);
                    } else {
                        assert((self.root@ + key@).subrange(0, self.root@.len() as int) =~= self.root@);
                    }
                }
                Ok(p)
            },
            Err(e) => Err(e),
        }
    }
}

} // verus!
