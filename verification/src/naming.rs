//! Which key part names are refused: names that mark a credential or a
//! session, and names that say how or where a result is shown.
//!
//! A name is first normalized: camelCase is split with `_` before an
//! uppercase letter that follows a lowercase letter or a digit, or that
//! starts a capitalized word after an acronym; ASCII letters are lowercased;
//! and `-`, ` ` and `.` become `_`.

use vstd::prelude::*;
use crate::text::chars_of;

verus! {

pub open spec fn is_upper(c: char) -> bool {
    'A' <= c && c <= 'Z'
}

pub open spec fn is_lower(c: char) -> bool {
    'a' <= c && c <= 'z'
}

pub open spec fn is_digit(c: char) -> bool {
    '0' <= c && c <= '9'
}

/// Whether normalizing puts a `_` before position `i` of `s`.
pub open spec fn boundary(s: Seq<char>, i: int) -> bool {
    &&& 0 < i < s.len()
    &&& is_upper(s[i])
    &&& {
        ||| is_lower(s[i - 1])
        ||| is_digit(s[i - 1])
        ||| (is_upper(s[i - 1]) && i + 1 < s.len() && is_lower(s[i + 1]))
    }
}

/// One character lowercased, with the separators `-`, ` ` and `.` read as `_`.
pub open spec fn fold_char(c: char) -> char {
    if c == '-' || c == ' ' || c == '.' {
        '_'
    } else if is_upper(c) {
        ((c as u32) + 32) as char
    } else {
        c
    }
}

/// The normalized form of the first `k` characters of `s`.
pub open spec fn normalized_prefix(s: Seq<char>, k: nat) -> Seq<char>
    decreases k,
{
    if k == 0 {
        Seq::empty()
    } else {
        let before = normalized_prefix(s, (k - 1) as nat);
        let split = if boundary(s, k - 1) { before.push('_') } else { before };
        split.push(fold_char(s[k - 1]))
    }
}

/// The normalized form of `s`.
pub open spec fn normalized(s: Seq<char>) -> Seq<char> {
    normalized_prefix(s, s.len())
}

/// `s` with every `_` removed.
pub open spec fn squashed(s: Seq<char>) -> Seq<char>
    decreases s.len(),
{
    if s.len() == 0 {
        s
    } else if s.last() == '_' {
        squashed(s.drop_last())
    } else {
        squashed(s.drop_last()).push(s.last())
    }
}

/// `needle` occurs in `hay` starting at `i`.
pub open spec fn occurs_at(hay: Seq<char>, needle: Seq<char>, i: int) -> bool {
    0 <= i && i + needle.len() <= hay.len() && hay.subrange(i, i + needle.len()) == needle
}

pub open spec fn contains_text(hay: Seq<char>, needle: Seq<char>) -> bool {
    exists|i: int| occurs_at(hay, needle, i)
}

/// `word` is a whole `_`-delimited word of `hay` starting at `i`.
pub open spec fn word_at(hay: Seq<char>, word: Seq<char>, i: int) -> bool {
    &&& occurs_at(hay, word, i)
    &&& (i == 0 || hay[i - 1] == '_')
    &&& (i + word.len() == hay.len() || hay[i + word.len()] == '_')
}

pub open spec fn has_word(hay: Seq<char>, word: Seq<char>) -> bool {
    exists|i: int| word_at(hay, word, i)
}

/// Name words that mark a credential or a session.
pub open spec fn forbidden_words() -> Seq<Seq<char>> {
    seq![
        "token"@, "tokens"@, "secret"@, "password"@, "passwd"@, "credential"@,
        "credentials"@, "authorization"@, "bearer"@, "cookie"@, "apikey"@,
    ]
}

/// Substrings that mark a credential, matched with every `_` removed, so
/// `access_key`, `accessKey` and `ACCESSKEY` all match `accesskey`.
pub open spec fn forbidden_substrings() -> Seq<Seq<char>> {
    seq![
        "apikey"@, "accesskey"@, "privatekey"@, "secretkey"@, "accesstoken"@,
        "authtoken"@, "apitoken"@, "bearertoken"@, "idtoken"@, "refreshtoken"@,
        "sessiontoken"@, "csrftoken"@, "xsrftoken"@, "sessionid"@, "clientsecret"@,
        "passphrase"@,
    ]
}

/// Whole names that describe how or where a result is shown, or which
/// request asked for it.
pub open spec fn forbidden_names() -> Seq<Seq<char>> {
    seq![
        "format"@, "output"@, "output_format"@, "destination"@, "dest"@, "path"@,
        "request_id"@, "requestid"@,
    ]
}

/// Whether a key part may not be called `name`.
pub open spec fn is_forbidden(name: Seq<char>) -> bool {
    let norm = normalized(name);
    ||| forbidden_names().contains(norm)
    ||| exists|j: int|
        0 <= j < forbidden_substrings().len() && contains_text(
            squashed(norm),
            #[trigger] forbidden_substrings()[j],
        )
    ||| exists|j: int|
        0 <= j < forbidden_words().len() && has_word(norm, #[trigger] forbidden_words()[j])
}

fn upper(c: char) -> (b: bool)
    ensures
        b == is_upper(c),
{
    'A' <= c && c <= 'Z'
}

fn lower(c: char) -> (b: bool)
    ensures
        b == is_lower(c),
{
    'a' <= c && c <= 'z'
}

fn digit(c: char) -> (b: bool)
    ensures
        b == is_digit(c),
{
    '0' <= c && c <= '9'
}

fn fold(c: char) -> (d: char)
    ensures
        d == fold_char(c),
{
    if c == '-' || c == ' ' || c == '.' {
        '_'
    } else if upper(c) {
        ((c as u8) + 32) as char
    } else {
        c
    }
}

/// The normalized form of `name`.
pub fn normalize(name: &Vec<char>) -> (out: Vec<char>)
    ensures
        out@ == normalized(name@),
{
    let mut out: Vec<char> = Vec::new();
    let mut i: usize = 0;
    while i < name.len()
        invariant
            i <= name.len(),
            out@ == normalized_prefix(name@, i as nat),
        decreases name.len() - i,
    {
        if i > 0 && upper(name[i]) {
            let previous = name[i - 1];
            let next_lower = i + 1 < name.len() && lower(name[i + 1]);
            if lower(previous) || digit(previous) || (upper(previous) && next_lower) {
                out.push('_');
            }
        }
        out.push(fold(name[i]));
        i = i + 1;
    }
    out
}

/// `text` with every `_` removed.
pub fn squash(text: &Vec<char>) -> (out: Vec<char>)
    ensures
        out@ == squashed(text@),
{
    let mut out: Vec<char> = Vec::new();
    let mut i: usize = 0;
    while i < text.len()
        invariant
            i <= text.len(),
            out@ == squashed(text@.take(i as int)),
        decreases text.len() - i,
    {
        assert(text@.take(i + 1).drop_last() == text@.take(i as int));
        if text[i] != '_' {
            out.push(text[i]);
        }
        i = i + 1;
    }
    assert(text@.take(text.len() as int) == text@);
    out
}

/// Whether `needle` occurs in `hay` at `i`.
fn matches_at(hay: &Vec<char>, needle: &Vec<char>, i: usize) -> (b: bool)
    ensures
        b == occurs_at(hay@, needle@, i as int),
{
    if i > hay.len() || needle.len() > hay.len() - i {
        return false;
    }
    let mut k: usize = 0;
    while k < needle.len()
        invariant
            k <= needle.len(),
            i + needle.len() <= hay.len(),
            forall|m: int| 0 <= m < k ==> hay@[i + m] == needle@[m],
        decreases needle.len() - k,
    {
        if hay[i + k] != needle[k] {
            return false;
        }
        k = k + 1;
    }
    assert(hay@.subrange(i as int, i + needle.len()) =~= needle@);
    true
}

fn contains(hay: &Vec<char>, needle: &Vec<char>) -> (b: bool)
    ensures
        b == contains_text(hay@, needle@),
{
    if needle.len() > hay.len() {
        return false;
    }
    let last = hay.len() - needle.len();
    let mut i: usize = 0;
    while i < last
        invariant
            i <= last,
            last == hay.len() - needle.len(),
            forall|m: int| 0 <= m < i ==> !occurs_at(hay@, needle@, m),
        decreases last - i,
    {
        if matches_at(hay, needle, i) {
            return true;
        }
        i = i + 1;
    }
    if matches_at(hay, needle, last) {
        return true;
    }
    assert forall|m: int| !occurs_at(hay@, needle@, m) by {
        if 0 <= m < i {
        }
    }
    false
}

/// Whether `word` is a whole `_`-delimited word of `hay` at `i`.
fn word_at_exec(hay: &Vec<char>, word: &Vec<char>, i: usize) -> (b: bool)
    ensures
        b == word_at(hay@, word@, i as int),
{
    if matches_at(hay, word, i) {
        let length = hay.len();
        let end = i + word.len();
        let before = i == 0 || hay[i - 1] == '_';
        let after = end == length || hay[end] == '_';
        before && after
    } else {
        false
    }
}

fn word_in(hay: &Vec<char>, word: &Vec<char>) -> (b: bool)
    ensures
        b == has_word(hay@, word@),
{
    if word.len() > hay.len() {
        return false;
    }
    let last = hay.len() - word.len();
    let mut i: usize = 0;
    while i < last
        invariant
            last == hay.len() - word.len(),
            i <= last,
            forall|m: int| 0 <= m < i ==> !word_at(hay@, word@, m),
        decreases last - i,
    {
        if word_at_exec(hay, word, i) {
            return true;
        }
        i = i + 1;
    }
    if word_at_exec(hay, word, last) {
        return true;
    }
    assert forall|m: int| !word_at(hay@, word@, m) by {
        if 0 <= m < i {
        }
    }
    false
}

fn same(a: &Vec<char>, b: &Vec<char>) -> (r: bool)
    ensures
        r == (a@ == b@),
{
    if a.len() != b.len() {
        return false;
    }
    let r = matches_at(a, b, 0);
    assert(a@.subrange(0, b@.len() as int) == a@);
    r
}

/// Whether a key part may not be called `name`: a name that marks a
/// credential (`token`, `secret`, `api_key`, `authorization`, …), an output
/// format, a destination path, or a request id.
pub fn forbidden(name: &str) -> (refused: bool)
    ensures
        refused == is_forbidden(name@),
{
    let norm = normalize(&chars_of(name));
    let squashed_norm = squash(&norm);
    let names: Vec<&str> = vec![
        "format", "output", "output_format", "destination", "dest", "path", "request_id",
        "requestid",
    ];
    let substrings: Vec<&str> = vec![
        "apikey", "accesskey", "privatekey", "secretkey", "accesstoken", "authtoken",
        "apitoken", "bearertoken", "idtoken", "refreshtoken", "sessiontoken", "csrftoken",
        "xsrftoken", "sessionid", "clientsecret", "passphrase",
    ];
    let words: Vec<&str> = vec![
        "token", "tokens", "secret", "password", "passwd", "credential", "credentials",
        "authorization", "bearer", "cookie", "apikey",
    ];
    let ghost name_views = names@.map_values(|s: &str| s@);
    let ghost substring_views = substrings@.map_values(|s: &str| s@);
    let ghost word_views = words@.map_values(|s: &str| s@);
    assert(name_views =~= forbidden_names());
    assert(substring_views =~= forbidden_substrings());
    assert(word_views =~= forbidden_words());

    let mut j: usize = 0;
    let mut whole = false;
    while j < names.len()
        invariant
            j <= names.len(),
            name_views == forbidden_names(),
            name_views == names@.map_values(|s: &str| s@),
            whole == exists|m: int| 0 <= m < j && forbidden_names()[m] == norm@,
        decreases names.len() - j,
    {
        assert(name_views[j as int] == names@[j as int]@);
        if same(&chars_of(names[j]), &norm) {
            whole = true;
        }
        j = j + 1;
    }
    assert(whole == forbidden_names().contains(norm@));

    let mut k: usize = 0;
    let mut inside = false;
    while k < substrings.len()
        invariant
            k <= substrings.len(),
            substring_views == forbidden_substrings(),
            substring_views == substrings@.map_values(|s: &str| s@),
            squashed_norm@ == squashed(norm@),
            inside == exists|m: int|
                0 <= m < k && contains_text(squashed(norm@), #[trigger] forbidden_substrings()[m]),
        decreases substrings.len() - k,
    {
        assert(substring_views[k as int] == substrings@[k as int]@);
        if contains(&squashed_norm, &chars_of(substrings[k])) {
            inside = true;
        }
        k = k + 1;
    }

    let mut w: usize = 0;
    let mut word = false;
    while w < words.len()
        invariant
            w <= words.len(),
            word_views == forbidden_words(),
            word_views == words@.map_values(|s: &str| s@),
            word == exists|m: int|
                0 <= m < w && has_word(norm@, #[trigger] forbidden_words()[m]),
        decreases words.len() - w,
    {
        assert(word_views[w as int] == words@[w as int]@);
        if word_in(&norm, &chars_of(words[w])) {
            word = true;
        }
        w = w + 1;
    }
    whole || inside || word
}

} // verus!
