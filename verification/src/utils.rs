//! File-name cleaning, id extraction, and the rules that keep every path the
//! program reads or writes inside the places it is meant for.
use vstd::prelude::*;
use vstd::string::*;
use crate::error::{DownloadError, PathLabel};
use crate::text::{
    is_whitespace, lemma_trim_of_trimmed, lemma_trim_shape, all_ascii_digits, ascii_lowercase, is_ascii_alphanumeric, is_ascii_alphanumeric_char,
    is_ascii_digit, is_ascii_digit_char, is_ascii_lower, is_ascii_upper, push_char, str_eq,
    to_ascii_lowercase_char, trim, trim_spec,
};

verus! {

// ---------------------------------------------------------------- file names

/// Characters that may not stand in a file name.
pub open spec fn is_forbidden_name_char(c: char) -> bool {
    c == '<' || c == '>' || c == ':' || c == '"' || c == '/' || c == '\\' || c == '|' || c == '?'
        || c == '*'
}

/// `s` without its forbidden characters, in order.
pub open spec fn drop_forbidden(s: Seq<char>) -> Seq<char>
    decreases s.len(),
{
    if s.len() == 0 {
        s
    } else if is_forbidden_name_char(s.last()) {
        drop_forbidden(s.drop_last())
    } else {
        drop_forbidden(s.drop_last()).push(s.last())
    }
}

/// The cleaned file name: forbidden characters removed, then surrounding
/// whitespace trimmed.
pub open spec fn sanitize_file_name_spec(name: Seq<char>) -> Seq<char> {
    trim_spec(drop_forbidden(name))
}

proof fn lemma_drop_forbidden_clean(s: Seq<char>)
    ensures
        forall|i: int|
            0 <= i < drop_forbidden(s).len() ==> !is_forbidden_name_char(
                #[trigger] drop_forbidden(s)[i],
            ),
    decreases s.len(),
{
    if s.len() > 0 {
        lemma_drop_forbidden_clean(s.drop_last());
        let r = drop_forbidden(s.drop_last());
        if !is_forbidden_name_char(s.last()) {
            assert forall|i: int| 0 <= i < r.push(s.last()).len() implies !is_forbidden_name_char(
                #[trigger] r.push(s.last())[i],
            ) by {
                if i < r.len() {
                    assert(r.push(s.last())[i] == r[i]);
                }
            }
        }
    }
}

proof fn lemma_drop_forbidden_of_clean(s: Seq<char>)
    requires
        forall|i: int| 0 <= i < s.len() ==> !is_forbidden_name_char(#[trigger] s[i]),
    ensures
        drop_forbidden(s) == s,
    decreases s.len(),
{
    if s.len() > 0 {
        lemma_drop_forbidden_of_clean(s.drop_last());
        assert(s.drop_last().push(s.last()) =~= s);
    }
}

/// A cleaned file name holds none of `< > : " / \ | ? *`, and neither
/// starts nor ends with whitespace.
pub proof fn lemma_sanitized_file_name_is_clean(name: Seq<char>)
    ensures
        forall|i: int|
            0 <= i < sanitize_file_name_spec(name).len() ==> !is_forbidden_name_char(
                #[trigger] sanitize_file_name_spec(name)[i],
            ),
        sanitize_file_name_spec(name).len() > 0 ==> !is_whitespace(
            sanitize_file_name_spec(name)[0],
        ) && !is_whitespace(sanitize_file_name_spec(name).last()),
{
    let d = drop_forbidden(name);
    lemma_drop_forbidden_clean(name);
    lemma_trim_shape(d);
    let (i, j) = choose|i: int, j: int| 0 <= i <= j <= d.len() && trim_spec(d) == d.subrange(i, j);
    assert forall|k: int| 0 <= k < sanitize_file_name_spec(name).len() implies !is_forbidden_name_char(
        #[trigger] sanitize_file_name_spec(name)[k],
    ) by {
        assert(sanitize_file_name_spec(name)[k] == d[i + k]);
    }
}

/// Cleaning a cleaned file name changes nothing.
pub proof fn lemma_sanitize_file_name_idempotent(name: Seq<char>)
    ensures
        sanitize_file_name_spec(sanitize_file_name_spec(name)) == sanitize_file_name_spec(name),
{
    let r = sanitize_file_name_spec(name);
    lemma_sanitized_file_name_is_clean(name);
    lemma_drop_forbidden_of_clean(r);
    lemma_trim_of_trimmed(r);
}

/// Cleaning keeps every character but `< > : " / \ | ? *`: a name that holds
/// none of them and has no whitespace at either end comes back unchanged.
pub proof fn lemma_sanitize_keeps_plain_name(name: Seq<char>)
    requires
        forall|i: int|
            0 <= i < name.len() ==> {
                let c = #[trigger] name[i];
                c != '<' && c != '>' && c != ':' && c != '"' && c != '/' && c != '\\' && c != '|'
                    && c != '?' && c != '*'
            },
        name.len() > 0 ==> !is_whitespace(name[0]) && !is_whitespace(name.last()),
    ensures
        sanitize_file_name_spec(name) == name,
{
    assert forall|i: int| 0 <= i < name.len() implies !is_forbidden_name_char(#[trigger] name[i]) by {
        let c = name[i];
    }
    lemma_drop_forbidden_of_clean(name);
    lemma_trim_of_trimmed(name);
}

proof fn lemma_drop_forbidden_concat(a: Seq<char>, b: Seq<char>)
    ensures
        drop_forbidden(a + b) == drop_forbidden(a) + drop_forbidden(b),
    decreases b.len(),
{
    if b.len() == 0 {
        assert(a + b =~= a);
        assert(drop_forbidden(a) + drop_forbidden(b) =~= drop_forbidden(a));
    } else {
        lemma_drop_forbidden_concat(a, b.drop_last());
        assert((a + b).drop_last() =~= a + b.drop_last());
        assert((a + b).last() == b.last());
        if !is_forbidden_name_char(b.last()) {
            assert(drop_forbidden(a) + drop_forbidden(b.drop_last()).push(b.last()) =~= (
            drop_forbidden(a) + drop_forbidden(b.drop_last())).push(b.last()));
        }
    }
}

/// A character of `< > : " / \ | ? *` anywhere in a name is simply dropped:
/// the name cleans to what it cleans to without that character.
pub proof fn lemma_sanitize_drops_forbidden_char(before: Seq<char>, c: char, after: Seq<char>)
    requires
        c == '<' || c == '>' || c == ':' || c == '"' || c == '/' || c == '\\' || c == '|' || c
            == '?' || c == '*',
    ensures
        sanitize_file_name_spec(before + seq![c] + after) == sanitize_file_name_spec(
            before + after,
        ),
{
    lemma_drop_forbidden_concat(before + seq![c], after);
    lemma_drop_forbidden_concat(before, seq![c]);
    lemma_drop_forbidden_concat(before, after);
    assert(is_forbidden_name_char(c));
    assert(seq![c].last() == c);
    assert(seq![c].drop_last() =~= Seq::<char>::empty());
    assert(drop_forbidden(Seq::<char>::empty()) =~= Seq::<char>::empty());
    assert(drop_forbidden(seq![c]) =~= Seq::<char>::empty());
    assert(drop_forbidden(before) + Seq::<char>::empty() =~= drop_forbidden(before));
}

/// Removes `< > : " / \ | ? *` from `name`, then trims surrounding whitespace.
pub fn sanitize_file_name(name: &str) -> (r: String)
    ensures
        r@ == sanitize_file_name_spec(name@),
{
    let n = name.unicode_len();
    let mut kept = String::new();
    let mut i: usize = 0;
    assert(name@.take(0) =~= Seq::<char>::empty());
    while i < n
        invariant
            i <= n,
            n == name@.len(),
            kept@ == drop_forbidden(name@.take(i as int)),
        decreases n - i,
    {
        let c = name.get_char(i);
        if !(c == '<' || c == '>' || c == ':' || c == '"' || c == '/' || c == '\\' || c == '|' || c
            == '?' || c == '*') {
            push_char(&mut kept, c);
        }
        assert(name@.take(i + 1).drop_last() =~= name@.take(i as int));
        i += 1;
    }
    assert(name@.take(n as int) =~= name@);
    trim(kept.as_str())
}

/// `s` restricted to its ASCII letters and digits, each lowercased.
pub open spec fn alnum_lowercase(s: Seq<char>) -> Seq<char>
    decreases s.len(),
{
    if s.len() == 0 {
        s
    } else if is_ascii_alphanumeric(s.last()) {
        alnum_lowercase(s.drop_last()).push(ascii_lowercase(s.last()))
    } else {
        alnum_lowercase(s.drop_last())
    }
}

/// The cleaned extension: its ASCII letters and digits, lowercased, or `mp3`
/// when none remain.
pub open spec fn sanitize_extension_spec(ext: Seq<char>) -> Seq<char> {
    if alnum_lowercase(ext).len() == 0 {
        "mp3"@
    } else {
        alnum_lowercase(ext)
    }
}

proof fn lemma_alnum_lowercase_clean(s: Seq<char>)
    ensures
        forall|i: int|
            0 <= i < alnum_lowercase(s).len() ==> (is_ascii_digit(#[trigger] alnum_lowercase(s)[i])
                || is_ascii_lower(alnum_lowercase(s)[i])),
    decreases s.len(),
{
    if s.len() > 0 {
        lemma_alnum_lowercase_clean(s.drop_last());
        let r = alnum_lowercase(s.drop_last());
        let c = ascii_lowercase(s.last());
        if is_ascii_alphanumeric(s.last()) {
            assert(is_ascii_digit(c) || is_ascii_lower(c));
            assert forall|i: int| 0 <= i < r.push(c).len() implies (is_ascii_digit(
                #[trigger] r.push(c)[i],
            ) || is_ascii_lower(r.push(c)[i])) by {
                if i < r.len() {
                    assert(r.push(c)[i] == r[i]);
                }
            }
        }
    }
}

proof fn lemma_alnum_lowercase_of_clean(s: Seq<char>)
    requires
        forall|i: int| 0 <= i < s.len() ==> (is_ascii_digit(#[trigger] s[i]) || is_ascii_lower(s[i])),
    ensures
        alnum_lowercase(s) == s,
    decreases s.len(),
{
    if s.len() > 0 {
        lemma_alnum_lowercase_of_clean(s.drop_last());
        assert(s.drop_last().push(s.last()) =~= s);
    }
}

/// A cleaned extension is never empty and holds only ASCII digits and
/// lowercase letters.
pub proof fn lemma_sanitized_extension_is_clean(ext: Seq<char>)
    ensures
        sanitize_extension_spec(ext).len() > 0,
        forall|i: int|
            0 <= i < sanitize_extension_spec(ext).len() ==> (is_ascii_digit(
                #[trigger] sanitize_extension_spec(ext)[i],
            ) || is_ascii_lower(sanitize_extension_spec(ext)[i])),
{
    reveal_strlit("mp3");
    lemma_alnum_lowercase_clean(ext);
}

/// Cleaning a cleaned extension changes nothing.
pub proof fn lemma_sanitize_extension_idempotent(ext: Seq<char>)
    ensures
        sanitize_extension_spec(sanitize_extension_spec(ext)) == sanitize_extension_spec(ext),
{
    lemma_sanitized_extension_is_clean(ext);
    lemma_alnum_lowercase_of_clean(sanitize_extension_spec(ext));
}

/// Keeps the ASCII letters and digits of `ext`, lowercased; `mp3` if none.
pub fn sanitize_extension(ext: &str) -> (r: String)
    ensures
        r@ == sanitize_extension_spec(ext@),
{
    let n = ext.unicode_len();
    let mut kept = String::new();
    let mut i: usize = 0;
    assert(ext@.take(0) =~= Seq::<char>::empty());
    while i < n
        invariant
            i <= n,
            n == ext@.len(),
            kept@ == alnum_lowercase(ext@.take(i as int)),
        decreases n - i,
    {
        let c = ext.get_char(i);
        if is_ascii_alphanumeric_char(c) {
            push_char(&mut kept, to_ascii_lowercase_char(c));
        }
        assert(ext@.take(i + 1).drop_last() =~= ext@.take(i as int));
        i += 1;
    }
    assert(ext@.take(n as int) =~= ext@);
    if kept.unicode_len() == 0 {
        String::from_str("mp3")
    } else {
        kept
    }
}

// ---------------------------------------------------------------- ids

/// The first capture group of the first match of the regular expression
/// `pattern` in `haystack`, as the `regex` crate finds it.
pub uninterp spec fn regex_first_group(pattern: Seq<char>, haystack: Seq<char>) -> Option<
    Seq<char>,
>;

/// Runs `regex::Regex::new(pattern)` and `Regex::captures(haystack)`, and
/// hands back the text of group 1. The result is what the `regex` crate
/// computes from the two strings alone; `None` when the pattern does not
/// compile, when nothing matches, or when group 1 did not take part.
#[verifier::external_body]
fn regex_capture_group1(pattern: &str, haystack: &str) -> (r: Option<String>)
    ensures
        r.deep_view() == regex_first_group(pattern@, haystack@),
{
    let re = match regex::Regex::new(pattern) {
        Ok(re) => re,
        Err(_) => return None,
    };
    match re.captures(haystack) {
        Some(caps) => match caps.get(1) {
            Some(group) => Some(group.as_str().to_string()),
            None => None,
        },
        None => None,
    }
}

/// The pattern that finds a song or album id in a link.
pub open spec fn id_pattern() -> Seq<char> {
    "id=(\\d+)"@
}

/// The id named by `input`, given what the id pattern captured in it: the
/// input itself when it is all ASCII digits (the empty input included), else
/// the captured digits, else an error.
pub open spec fn extract_id_spec(input: Seq<char>, captured: Option<Seq<char>>) -> Option<
    Seq<char>,
> {
    if all_ascii_digits(input) {
        Some(input)
    } else {
        captured
    }
}

fn all_ascii_digits_str(s: &str) -> (r: bool)
    ensures
        r == all_ascii_digits(s@),
{
    let n = s.unicode_len();
    let mut i: usize = 0;
    while i < n
        invariant
            i <= n,
            n == s@.len(),
            forall|k: int| 0 <= k < i ==> is_ascii_digit(#[trigger] s@[k]),
        decreases n - i,
    {
        if !is_ascii_digit_char(s.get_char(i)) {
            return false;
        }
        i += 1;
    }
    true
}

/// Picks the id from `input` and what the id pattern captured in it.
pub fn extract_id_from(input: &str, captured: Option<String>) -> (r: Result<
    String,
    DownloadError,
>)
    ensures
        match extract_id_spec(input@, captured.deep_view()) {
            Some(id) => r matches Ok(s) && s@ == id,
            None => r matches Err(DownloadError::InvalidId(s)) && s@ == input@,
        },
{
    if all_ascii_digits_str(input) {
        return Ok(String::from_str(input));
    }
    match captured {
        Some(id) => Ok(id),
        None => Err(DownloadError::InvalidId(String::from_str(input))),
    }
}

/// Takes a song or album id from a bare id or from a link with `id=<digits>`.
pub fn extract_id(input: &str) -> (r: Result<String, DownloadError>)
    ensures
        all_ascii_digits(input@) ==> (r matches Ok(s) && s@ == input@),
        match extract_id_spec(input@, regex_first_group(id_pattern(), input@)) {
            Some(id) => r matches Ok(s) && s@ == id,
            None => r matches Err(DownloadError::InvalidId(s)) && s@ == input@,
        },
{
    if all_ascii_digits_str(input) {
        return Ok(String::from_str(input));
    }
    let captured = regex_capture_group1("id=(\\d+)", input);
    extract_id_from(input, captured)
}

// ---------------------------------------------------------------- paths

pub open spec fn is_separator(c: char) -> bool {
    c == '/' || c == '\\'
}

/// Whether `..` stands as a whole component of `s`, components being split
/// at `/` and `\`.
pub open spec fn has_parent_component(s: Seq<char>) -> bool {
    exists|i: int|
        #![trigger s[i], s[i + 1]]
        0 <= i && i + 2 <= s.len() && s[i] == '.' && s[i + 1] == '.' && (i == 0 || is_separator(
            s[i - 1],
        )) && (i + 2 == s.len() || is_separator(s[i + 2]))
}

/// A Windows drive prefix such as `C:\` or `c:/`.
pub open spec fn has_drive_prefix(s: Seq<char>) -> bool {
    s.len() >= 3 && (is_ascii_upper(s[0]) || is_ascii_lower(s[0])) && s[1] == ':' && is_separator(
        s[2],
    )
}

/// A path that starts at a root: `/`, `\`, or a drive prefix.
pub open spec fn is_absolute_spec(s: Seq<char>) -> bool {
    (s.len() > 0 && is_separator(s[0])) || has_drive_prefix(s)
}

/// A name that is fit to be one component of a path.
pub open spec fn is_valid_component(c: Seq<char>) -> bool {
    c.len() > 0 && c != seq!['.'] && c != seq!['.', '.'] && !c.contains('/') && !c.contains('\\')
}

/// Why `c` cannot be a path component, in the order the checks are made.
pub open spec fn component_error(c: Seq<char>, label: PathLabel) -> Option<DownloadError> {
    if c.len() == 0 {
        Some(DownloadError::EmptyComponent(label))
    } else if c == seq!['.'] || c == seq!['.', '.'] {
        Some(DownloadError::DotComponent(label))
    } else if c.contains('/') || c.contains('\\') {
        Some(DownloadError::SeparatorInComponent(label))
    } else {
        None
    }
}

/// Every non-empty name other than `.` and `..` that holds neither `/` nor
/// `\` is a valid path component; a download file of that name goes to
/// `downloads/<name>`.
pub proof fn lemma_plain_name_is_component(c: Seq<char>, label: PathLabel)
    requires
        c.len() > 0,
        c != seq!['.'],
        c != seq!['.', '.'],
        forall|i: int| 0 <= i < c.len() ==> #[trigger] c[i] != '/' && c[i] != '\\',
    ensures
        component_error(c, label) is None,
        is_valid_component(c),
        (DownloadPathView { album_dir: None, file_name: c }).wf(),
        (DownloadPathView { album_dir: None, file_name: c }).text() == "downloads/"@ + c,
{
    assert(!c.contains('/'));
    assert(!c.contains('\\'));
    reveal_strlit("downloads/");
    reveal_strlit("downloads");
    assert(downloads_dir() + seq!['/'] =~= "downloads/"@);
}

/// A name is refused as a path component exactly when it is empty, `.` or
/// `..`, or holds `/` or `\`.
pub proof fn lemma_component_refusals(c: Seq<char>, label: PathLabel)
    ensures
        (component_error(c, label) is Some) == (c.len() == 0 || c == seq!['.'] || c == seq![
            '.',
            '.',
        ] || exists|i: int| 0 <= i < c.len() && (#[trigger] c[i] == '/' || c[i] == '\\')),
{
    if c.contains('/') {
        let i = choose|i: int| 0 <= i < c.len() && c[i] == '/';
    }
    if c.contains('\\') {
        let i = choose|i: int| 0 <= i < c.len() && c[i] == '\\';
    }
}

fn contains_char(s: &str, c: char) -> (r: bool)
    ensures
        r == s@.contains(c),
{
    let n = s.unicode_len();
    let mut i: usize = 0;
    while i < n
        invariant
            i <= n,
            n == s@.len(),
            forall|k: int| 0 <= k < i ==> s@[k] != c,
        decreases n - i,
    {
        if s.get_char(i) == c {
            assert(s@[i as int] == c);
            return true;
        }
        i += 1;
    }
    false
}

/// Checks that `component` can stand as one path component.
fn validate_single_path_component(component: &str, label: PathLabel) -> (r: Result<
    (),
    DownloadError,
>)
    ensures
        match component_error(component@, label) {
            Some(e) => r == Err::<(), DownloadError>(e),
            None => r is Ok,
        },
        r is Ok <==> is_valid_component(component@),
{
    let n = component.unicode_len();
    if n == 0 {
        return Err(DownloadError::EmptyComponent(label));
    }
    if (n == 1 && component.get_char(0) == '.') || (n == 2 && component.get_char(0) == '.'
        && component.get_char(1) == '.') {
        proof {
            if n == 1 {
                assert(component@ =~= seq!['.']);
            } else {
                assert(component@ =~= seq!['.', '.']);
            }
        }
        return Err(DownloadError::DotComponent(label));
    }
    assert(component@ != seq!['.'] && component@ != seq!['.', '.']) by {
        if component@ == seq!['.'] {
            assert(component@[0] == '.');
        }
        if component@ == seq!['.', '.'] {
            assert(component@[0] == '.' && component@[1] == '.');
        }
    }
    if contains_char(component, '/') || contains_char(component, '\\') {
        return Err(DownloadError::SeparatorInComponent(label));
    }
    Ok(())
}

/// Whether `..` is one of the components of `raw_path`.
fn has_parent_traversal(raw_path: &str) -> (r: bool)
    ensures
        r == has_parent_component(raw_path@),
{
    let n = raw_path.unicode_len();
    let ghost s = raw_path@;
    let mut i: usize = 0;
    while n >= 2 && i <= n - 2
        invariant
            n == s.len(),
            s == raw_path@,
            i <= n,
            forall|j: int|
                #![trigger s[j], s[j + 1]]
                0 <= j < i && j + 2 <= s.len() ==> !(s[j] == '.' && s[j + 1] == '.' && (j == 0
                    || is_separator(s[j - 1])) && (j + 2 == s.len() || is_separator(s[j + 2]))),
        decreases n - i,
    {
        let a = raw_path.get_char(i);
        let b = raw_path.get_char(i + 1);
        let before_ok = i == 0 || {
            let p = raw_path.get_char(i - 1);
            p == '/' || p == '\\'
        };
        let after_ok = i + 2 == n || {
            let q = raw_path.get_char(i + 2);
            q == '/' || q == '\\'
        };
        if a == '.' && b == '.' && before_ok && after_ok {
            assert(s[i as int] == '.' && s[i + 1] == '.');
            return true;
        }
        i += 1;
    }
    false
}

/// Refuses a path that has `..` as one of its components.
fn reject_parent_traversal(raw_path: &str, label: PathLabel) -> (r: Result<(), DownloadError>)
    ensures
        has_parent_component(raw_path@) ==> r == Err::<(), DownloadError>(
            DownloadError::ParentTraversal(label),
        ),
        !has_parent_component(raw_path@) ==> r is Ok,
{
    if has_parent_traversal(raw_path) {
        Err(DownloadError::ParentTraversal(label))
    } else {
        Ok(())
    }
}

fn has_windows_drive_prefix(raw_path: &str) -> (r: bool)
    ensures
        r == has_drive_prefix(raw_path@),
{
    let n = raw_path.unicode_len();
    if n < 3 {
        return false;
    }
    let c0 = raw_path.get_char(0);
    let c2 = raw_path.get_char(2);
    (('A' <= c0 && c0 <= 'Z') || ('a' <= c0 && c0 <= 'z')) && raw_path.get_char(1) == ':' && (c2
        == '/' || c2 == '\\')
}

fn is_absolute_input_path(raw_path: &str) -> (r: bool)
    ensures
        r == is_absolute_spec(raw_path@),
{
    let n = raw_path.unicode_len();
    if n > 0 {
        let c = raw_path.get_char(0);
        if c == '/' || c == '\\' {
            return true;
        }
    }
    has_windows_drive_prefix(raw_path)
}

/// A file to read ids from, named relative to the current directory.
#[derive(Clone, Debug)]
pub struct InputFilePath {
    inner: String,
}

impl View for InputFilePath {
    type V = Seq<char>;

    closed spec fn view(&self) -> Seq<char> {
        self.inner@
    }
}

/// Why an input path is refused, in the order the checks are made.
pub open spec fn input_path_error(raw: Seq<char>) -> Option<DownloadError> {
    if raw.len() == 0 {
        Some(DownloadError::EmptyInputPath)
    } else if is_absolute_spec(raw) {
        Some(DownloadError::AbsoluteInputPath)
    } else if has_parent_component(raw) {
        Some(DownloadError::ParentTraversal(PathLabel::InputFilePath))
    } else {
        None
    }
}

impl InputFilePath {
    /// Accepts `raw_path` when it is non-empty, relative, and free of `..`
    /// components.
    pub fn resolve(raw_path: &str) -> (r: Result<InputFilePath, DownloadError>)
        ensures
            match input_path_error(raw_path@) {
                Some(e) => r == Err::<InputFilePath, DownloadError>(e),
                None => r matches Ok(p) && p@ == raw_path@,
            },
    {
        if raw_path.unicode_len() == 0 {
            return Err(DownloadError::EmptyInputPath);
        }
        if is_absolute_input_path(raw_path) {
            return Err(DownloadError::AbsoluteInputPath);
        }
        match reject_parent_traversal(raw_path, PathLabel::InputFilePath) {
            Err(e) => Err(e),
            Ok(()) => Ok(InputFilePath { inner: String::from_str(raw_path) }),
        }
    }

    /// The path as given, relative to the current directory.
    pub fn as_str(&self) -> (r: &str)
        ensures
            r@ == self@,
    {
        self.inner.as_str()
    }
}

/// Checks a path to a file of ids (see `InputFilePath::resolve`).
pub fn resolve_input_file_path(path: &str) -> (r: Result<InputFilePath, DownloadError>)
    ensures
        match input_path_error(path@) {
            Some(e) => r == Err::<InputFilePath, DownloadError>(e),
            None => r matches Ok(p) && p@ == path@,
        },
{
    InputFilePath::resolve(path)
}

/// Where a download is written: a file in the downloads directory, or in one
/// album directory inside it.
#[derive(Clone, Debug)]
pub struct DownloadPath {
    album_dir: Option<String>,
    file_name: String,
}

pub ghost struct DownloadPathView {
    pub album_dir: Option<Seq<char>>,
    pub file_name: Seq<char>,
}

impl View for DownloadPath {
    type V = DownloadPathView;

    closed spec fn view(&self) -> DownloadPathView {
        DownloadPathView { album_dir: self.album_dir.deep_view(), file_name: self.file_name@ }
    }
}

/// The directory, relative to the current one, that downloads go to.
pub open spec fn downloads_dir() -> Seq<char> {
    "downloads"@
}

impl DownloadPathView {
    /// Every component is a single valid name, so the path stays inside the
    /// downloads directory.
    pub open spec fn wf(self) -> bool {
        is_valid_component(self.file_name) && match self.album_dir {
            Some(d) => is_valid_component(d),
            None => true,
        }
    }

    /// The path as text, relative to the current directory.
    pub open spec fn text(self) -> Seq<char> {
        match self.album_dir {
            Some(d) => downloads_dir() + seq!['/'] + d + seq!['/'] + self.file_name,
            None => downloads_dir() + seq!['/'] + self.file_name,
        }
    }
}

impl DownloadPath {
    /// The album directory, if the file is in one.
    pub fn album_dir(&self) -> (r: Option<&String>)
        ensures
            match r {
                Some(d) => self@.album_dir == Some(d@),
                None => self@.album_dir is None,
            },
    {
        match &self.album_dir {
            Some(d) => Some(d),
            None => None,
        }
    }

    /// The file's own name.
    pub fn file_name(&self) -> (r: &String)
        ensures
            r@ == self@.file_name,
    {
        &self.file_name
    }

    /// The path as text, relative to the current directory.
    pub fn display(&self) -> (r: String)
        ensures
            r@ == self@.text(),
    {
        let mut s = String::from_str("downloads");
        push_char(&mut s, '/');
        match &self.album_dir {
            Some(d) => {
                s.append(d.as_str());
                push_char(&mut s, '/');
            },
            None => {},
        }
        s.append(self.file_name.as_str());
        assert(s@ =~= self@.text());
        s
    }
}

/// The path for a downloaded file: `downloads/<file>`, or
/// `downloads/<album>/<file>` when `kind` is `album` and an album is named.
/// The file name, and the album name when it is used, must each be one valid
/// path component.
pub fn get_download_path(kind: &str, file_name: &str, album_name: Option<&str>) -> (r: Result<
    DownloadPath,
    DownloadError,
>)
    ensures
        match component_error(file_name@, PathLabel::FileName) {
            Some(e) => r == Err::<DownloadPath, DownloadError>(e),
            None => if kind@ == "album"@ && album_name is Some {
                match component_error(album_name.unwrap()@, PathLabel::AlbumDirectory) {
                    Some(e) => r == Err::<DownloadPath, DownloadError>(e),
                    None => r matches Ok(p) && p@ == (DownloadPathView {
                        album_dir: Some(album_name.unwrap()@),
                        file_name: file_name@,
                    }),
                }
            } else {
                r matches Ok(p) && p@ == (DownloadPathView {
                    album_dir: None,
                    file_name: file_name@,
                })
            },
        },
        r matches Ok(p) ==> p@.wf(),
{
    match validate_single_path_component(file_name, PathLabel::FileName) {
        Err(e) => {
            return Err(e);
        },
        Ok(()) => {},
    }
    if str_eq(kind, "album") {
        match album_name {
            Some(album) => {
                match validate_single_path_component(album, PathLabel::AlbumDirectory) {
                    Err(e) => {
                        return Err(e);
                    },
                    Ok(()) => {},
                }
                return Ok(
                    DownloadPath {
                        album_dir: Some(String::from_str(album)),
                        file_name: String::from_str(file_name),
                    },
                );
            },
            None => {},
        }
    }
    Ok(DownloadPath { album_dir: None, file_name: String::from_str(file_name) })
}

} // verus!
