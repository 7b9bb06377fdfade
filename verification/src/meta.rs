//! The persisted vault metadata: a JSON object with the keys `salt` and
//! `sentinel`, both holding base64 text.
//!
//! The vault writes the canonical serialization (salt first, no extra
//! whitespace) and reads back any JSON object of one or two plain string
//! members: whitespace between tokens and either key order are accepted,
//! and when a key repeats the later member wins. Anything else is
//! malformed metadata.

use vstd::prelude::*;

verus! {

use crate::textcodec::{b64_decode, b64_decoding, is_b64_char, is_b64_text};
use crate::VaultError;
use vstd::string::StrSliceExecFns;

/// The text before the salt field's value in the canonical serialization.
pub open spec fn meta_prefix() -> Seq<char> {
    "{\"salt\":\""@
}

/// The text between the salt and sentinel values.
pub open spec fn meta_middle() -> Seq<char> {
    "\",\"sentinel\":\""@
}

/// The text after the sentinel field's value.
pub open spec fn meta_suffix() -> Seq<char> {
    "\"}"@
}

/// The canonical serialization of metadata with the given field texts.
pub open spec fn meta_chars_of(salt_b64: Seq<char>, sentinel_b64: Seq<char>) -> Seq<char> {
    meta_prefix() + salt_b64 + meta_middle() + sentinel_b64 + meta_suffix()
}

/// True of a character that may stand in a metadata field: anything that
/// needs no JSON escaping. Base64 text qualifies.
pub open spec fn is_field_char(c: char) -> bool {
    c != '"' && c != '\\'
}

/// True when every character of `s` may stand in a metadata field.
pub open spec fn is_field_text(s: Seq<char>) -> bool {
    forall|i: int| 0 <= i < s.len() ==> is_field_char(#[trigger] s[i])
}

/// JSON whitespace.
pub open spec fn is_json_ws(c: char) -> bool {
    c == ' ' || c == '\t' || c == '\n' || c == '\r'
}

/// The first position at or after `i` that does not hold whitespace.
pub open spec fn skip_ws(s: Seq<char>, i: int) -> int
    decreases s.len() - i
        when 0 <= i <= s.len()
{
    if i < s.len() && is_json_ws(s[i]) {
        skip_ws(s, i + 1)
    } else {
        i
    }
}

/// The position of the quote closing a plain string value whose content
/// starts at `i`: the first quote at or after `i`, provided no escape
/// intervenes.
pub open spec fn scan_string_value(s: Seq<char>, i: int) -> Option<int>
    decreases s.len() - i
        when 0 <= i <= s.len()
{
    if i >= s.len() {
        None
    } else if s[i] == '"' {
        Some(i)
    } else if s[i] == '\\' {
        None
    } else {
        scan_string_value(s, i + 1)
    }
}

/// One `"key": "value"` member read from position `i`: the key, the value,
/// and the position after the value's closing quote.
pub open spec fn parse_member(s: Seq<char>, i: int) -> Option<(Seq<char>, Seq<char>, int)> {
    let k0 = skip_ws(s, i);
    if k0 < s.len() && s[k0] == '"' {
        match scan_string_value(s, k0 + 1) {
            Option::None => Option::None,
            Option::Some(k1) => {
                let c0 = skip_ws(s, k1 + 1);
                if c0 < s.len() && s[c0] == ':' {
                    let v0 = skip_ws(s, c0 + 1);
                    if v0 < s.len() && s[v0] == '"' {
                        match scan_string_value(s, v0 + 1) {
                            Option::None => Option::None,
                            Option::Some(v1) => Option::Some(
                                (s.subrange(k0 + 1, k1), s.subrange(v0 + 1, v1), v1 + 1),
                            ),
                        }
                    } else {
                        Option::None
                    }
                } else {
                    Option::None
                }
            },
        }
    } else {
        Option::None
    }
}

/// The members of a metadata object: a JSON object of one or two plain
/// string members, with optional whitespace between tokens.
pub open spec fn parse_object(s: Seq<char>) -> Option<Seq<(Seq<char>, Seq<char>)>> {
    let o0 = skip_ws(s, 0);
    if o0 < s.len() && s[o0] == '{' {
        match parse_member(s, o0 + 1) {
            Option::None => Option::None,
            Option::Some(m1) => {
                let a0 = skip_ws(s, m1.2);
                if a0 < s.len() && s[a0] == ',' {
                    match parse_member(s, a0 + 1) {
                        Option::None => Option::None,
                        Option::Some(m2) => {
                            let e0 = skip_ws(s, m2.2);
                            if e0 < s.len() && s[e0] == '}' && skip_ws(s, e0 + 1) == s.len() {
                                Option::Some(seq![(m1.0, m1.1), (m2.0, m2.1)])
                            } else {
                                Option::None
                            }
                        },
                    }
                } else if a0 < s.len() && s[a0] == '}' && skip_ws(s, a0 + 1) == s.len() {
                    Option::Some(seq![(m1.0, m1.1)])
                } else {
                    Option::None
                }
            },
        }
    } else {
        Option::None
    }
}

/// The value of the member named `key`, the later member winning when a
/// key repeats.
pub open spec fn lookup_field(pairs: Seq<(Seq<char>, Seq<char>)>, key: Seq<char>) -> Option<
    Seq<char>,
>
    decreases pairs.len(),
{
    if pairs.len() == 0 {
        None
    } else if pairs.last().0 == key {
        Some(pairs.last().1)
    } else {
        lookup_field(pairs.drop_last(), key)
    }
}

/// The salt field of a metadata text, if it parses and has one.
pub open spec fn meta_salt_of(meta: Seq<char>) -> Option<Seq<char>> {
    match parse_object(meta) {
        Option::None => Option::None,
        Option::Some(pairs) => lookup_field(pairs, "salt"@),
    }
}

/// The sentinel field of a metadata text, if it parses and has one.
pub open spec fn meta_sentinel_of(meta: Seq<char>) -> Option<Seq<char>> {
    match parse_object(meta) {
        Option::None => Option::None,
        Option::Some(pairs) => lookup_field(pairs, "sentinel"@),
    }
}

/// Both fields of a metadata text, when both are present.
pub open spec fn meta_fields_of(meta: Seq<char>) -> Option<(Seq<char>, Seq<char>)> {
    match (meta_salt_of(meta), meta_sentinel_of(meta)) {
        (Option::Some(s), Option::Some(t)) => Option::Some((s, t)),
        _ => Option::None,
    }
}

/// What looking a key up in a two-member object yields.
proof fn lemma_lookup_pair(p1: (Seq<char>, Seq<char>), p2: (Seq<char>, Seq<char>), key: Seq<char>)
    ensures
        lookup_field(seq![p1, p2], key) == (if p2.0 == key {
            Some(p2.1)
        } else if p1.0 == key {
            Some(p1.1)
        } else {
            None::<Seq<char>>
        }),
{
    let ps = seq![p1, p2];
    assert(ps.last() == p2);
    assert(ps.drop_last() =~= seq![p1]);
    if p2.0 != key {
        assert(lookup_field(ps, key) == lookup_field(seq![p1], key));
        lemma_lookup_single(p1, key);
    }
}

/// What looking a key up in a one-member object yields.
proof fn lemma_lookup_single(p1: (Seq<char>, Seq<char>), key: Seq<char>)
    ensures
        lookup_field(seq![p1], key) == (if p1.0 == key {
            Some(p1.1)
        } else {
            None::<Seq<char>>
        }),
{
    assert(seq![p1].last() == p1);
    assert(seq![p1].drop_last() =~= Seq::<(Seq<char>, Seq<char>)>::empty());
    if p1.0 != key {
        assert(lookup_field(seq![p1], key) == lookup_field(
            Seq::<(Seq<char>, Seq<char>)>::empty(),
            key,
        ));
    }
}

/// Base64 text may stand in a metadata field.
pub proof fn lemma_b64_text_is_field_text(s: Seq<char>)
    requires
        is_b64_text(s),
    ensures
        is_field_text(s),
{
    assert forall|i: int| 0 <= i < s.len() implies is_field_char(s[i]) by {
        assert(is_b64_char(s[i]));
    }
}

/// Scanning a string value runs to the first quote when nothing before it
/// needs escaping.
proof fn lemma_scan_to_quote(m: Seq<char>, i: int, end: int)
    requires
        0 <= i <= end < m.len(),
        m[end] == '"',
        forall|j: int| i <= j < end ==> m[j] != '"' && m[j] != '\\',
    ensures
        scan_string_value(m, i) == Some(end),
    decreases end - i,
{
    if i < end {
        lemma_scan_to_quote(m, i + 1, end);
    }
}

/// The canonical serialization of a pair of field texts parses back to
/// exactly that pair: the round-trip law of the metadata format.
pub proof fn lemma_meta_fields_canonical(s: Seq<char>, t: Seq<char>)
    requires
        is_field_text(s),
        is_field_text(t),
    ensures
        meta_salt_of(meta_chars_of(s, t)) == Some(s),
        meta_sentinel_of(meta_chars_of(s, t)) == Some(t),
        meta_fields_of(meta_chars_of(s, t)) == Some((s, t)),
{
    reveal_strlit("{\"salt\":\"");
    reveal_strlit("\",\"sentinel\":\"");
    reveal_strlit("\"}");
    reveal_strlit("salt");
    reveal_strlit("sentinel");
    let m = meta_chars_of(s, t);
    let sl = s.len() as int;
    let tl = t.len() as int;
    assert(m.len() == 25 + sl + tl);
    assert(m[0] == '{' && m[1] == '"' && m[6] == '"' && m[7] == ':' && m[8] == '"');
    assert(m.subrange(2, 6) =~= "salt"@);
    assert(m[9 + sl] == '"' && m[10 + sl] == ',' && m[11 + sl] == '"');
    assert(m.subrange(12 + sl, 20 + sl) =~= "sentinel"@);
    assert(m[20 + sl] == '"' && m[21 + sl] == ':' && m[22 + sl] == '"');
    assert(m.subrange(9, 9 + sl) =~= s);
    assert(m.subrange(23 + sl, 23 + sl + tl) =~= t);
    assert(m[23 + sl + tl] == '"' && m[24 + sl + tl] == '}');
    // first member: "salt": s
    assert(skip_ws(m, 0) == 0);
    assert(skip_ws(m, 1) == 1);
    assert forall|j: int| 2 <= j < 6 implies m[j] != '"' && m[j] != '\\' by {
        assert(m[j] == "salt"@[j - 2]);
    }
    lemma_scan_to_quote(m, 2, 6);
    assert(skip_ws(m, 7) == 7);
    assert(skip_ws(m, 8) == 8);
    assert forall|j: int| 9 <= j < 9 + sl implies m[j] != '"' && m[j] != '\\' by {
        assert(m[j] == s[j - 9]);
        assert(is_field_char(s[j - 9]));
    }
    lemma_scan_to_quote(m, 9, 9 + sl);
    assert(parse_member(m, 1) == Some(("salt"@, s, 10 + sl)));
    // separator and second member: "sentinel": t
    assert(skip_ws(m, 10 + sl) == 10 + sl);
    assert(skip_ws(m, 11 + sl) == 11 + sl);
    assert forall|j: int| 12 + sl <= j < 20 + sl implies m[j] != '"' && m[j] != '\\' by {
        assert(m[j] == "sentinel"@[j - 12 - sl]);
    }
    lemma_scan_to_quote(m, 12 + sl, 20 + sl);
    assert(skip_ws(m, 21 + sl) == 21 + sl);
    assert(skip_ws(m, 22 + sl) == 22 + sl);
    assert forall|j: int| 23 + sl <= j < 23 + sl + tl implies m[j] != '"' && m[j] != '\\' by {
        assert(m[j] == t[j - 23 - sl]);
        assert(is_field_char(t[j - 23 - sl]));
    }
    lemma_scan_to_quote(m, 23 + sl, 23 + sl + tl);
    assert(parse_member(m, 11 + sl) == Some(("sentinel"@, t, 24 + sl + tl)));
    // closing brace and end
    assert(skip_ws(m, 24 + sl + tl) == 24 + sl + tl);
    assert(skip_ws(m, 25 + sl + tl) == 25 + sl + tl);
    let ps = seq![("salt"@, s), ("sentinel"@, t)];
    assert(parse_object(m) == Some(ps));
    // field lookup: the keys differ, so each lookup finds its own member
    assert("salt"@.len() == 4 && "sentinel"@.len() == 8);
    lemma_lookup_pair(("salt"@, s), ("sentinel"@, t), "salt"@);
    lemma_lookup_pair(("salt"@, s), ("sentinel"@, t), "sentinel"@);
}

/// The first non-whitespace position at or after `from`.
fn skip_ws_at(s: &str, from: usize) -> (r: usize)
    requires
        from <= s@.len(),
    ensures
        r == skip_ws(s@, from as int),
        from <= r <= s@.len(),
{
    let n = s.unicode_len();
    let mut i: usize = from;
    while i < n
        invariant
            from <= i <= n,
            n == s@.len(),
            skip_ws(s@, from as int) == skip_ws(s@, i as int),
        decreases n - i,
    {
        let c = s.get_char(i);
        if !(c == ' ' || c == '\t' || c == '\n' || c == '\r') {
            return i;
        }
        i = i + 1;
    }
    i
}

/// The closing quote of a plain string value starting at `from`, if any.
fn scan_value_at(s: &str, from: usize) -> (r: Option<usize>)
    requires
        from <= s@.len(),
    ensures
        match r {
            Some(j) => from <= j < s@.len() && scan_string_value(s@, from as int) == Some(j as int),
            None => scan_string_value(s@, from as int) is None,
        },
{
    let n = s.unicode_len();
    let mut i: usize = from;
    while i < n
        invariant
            from <= i <= n,
            n == s@.len(),
            scan_string_value(s@, from as int) == scan_string_value(s@, i as int),
        decreases n - i,
    {
        let c = s.get_char(i);
        if c == '"' {
            return Some(i);
        }
        if c == '\\' {
            return None;
        }
        i = i + 1;
    }
    None
}

/// Read one `"key": "value"` member starting at `from`.
fn member_at(s: &str, from: usize) -> (r: Option<(String, String, usize)>)
    requires
        from <= s@.len(),
    ensures
        match r {
            Some(m) => parse_member(s@, from as int) == Some((m.0@, m.1@, m.2 as int)) && from
                <= m.2 <= s@.len(),
            None => parse_member(s@, from as int) is None,
        },
{
    let n = s.unicode_len();
    let k0 = skip_ws_at(s, from);
    if k0 == n {
        return None;
    }
    if s.get_char(k0) != '"' {
        return None;
    }
    let k1 = match scan_value_at(s, k0 + 1) {
        Some(j) => j,
        None => {
            return None;
        },
    };
    let key = s.substring_char(k0 + 1, k1);
    let c0 = skip_ws_at(s, k1 + 1);
    if c0 == n {
        return None;
    }
    if s.get_char(c0) != ':' {
        return None;
    }
    let v0 = skip_ws_at(s, c0 + 1);
    if v0 == n {
        return None;
    }
    if s.get_char(v0) != '"' {
        return None;
    }
    let v1 = match scan_value_at(s, v0 + 1) {
        Some(j) => j,
        None => {
            return None;
        },
    };
    let value = s.substring_char(v0 + 1, v1);
    Some((key.to_owned(), value.to_owned(), v1 + 1))
}

/// The salt and sentinel fields of a metadata text, each when present.
fn object_fields(s: &str) -> (r: (Option<String>, Option<String>))
    ensures
        (match r.0 {
            Some(v) => meta_salt_of(s@) == Some(v@),
            None => meta_salt_of(s@) is None,
        }),
        (match r.1 {
            Some(v) => meta_sentinel_of(s@) == Some(v@),
            None => meta_sentinel_of(s@) is None,
        }),
{
    let n = s.unicode_len();
    let o0 = skip_ws_at(s, 0);
    if o0 == n || s.get_char(o0) != '{' {
        return (None, None);
    }
    let m1 = match member_at(s, o0 + 1) {
        Some(m) => m,
        None => {
            return (None, None);
        },
    };
    let a0 = skip_ws_at(s, m1.2);
    if a0 == n {
        return (None, None);
    }
    let salt_key = "salt".to_owned();
    let sentinel_key = "sentinel".to_owned();
    if s.get_char(a0) == ',' {
        let m2 = match member_at(s, a0 + 1) {
            Some(m) => m,
            None => {
                return (None, None);
            },
        };
        let e0 = skip_ws_at(s, m2.2);
        if e0 == n || s.get_char(e0) != '}' || skip_ws_at(s, e0 + 1) != n {
            return (None, None);
        }
        proof {
            let ps = seq![(m1.0@, m1.1@), (m2.0@, m2.1@)];
            assert(parse_object(s@) == Some(ps));
            lemma_lookup_pair((m1.0@, m1.1@), (m2.0@, m2.1@), "salt"@);
            lemma_lookup_pair((m1.0@, m1.1@), (m2.0@, m2.1@), "sentinel"@);
        }
        let salt = if m2.0 == salt_key {
            Some(m2.1.clone())
        } else if m1.0 == salt_key {
            Some(m1.1.clone())
        } else {
            None
        };
        let sentinel = if m2.0 == sentinel_key {
            Some(m2.1.clone())
        } else if m1.0 == sentinel_key {
            Some(m1.1.clone())
        } else {
            None
        };
        (salt, sentinel)
    } else if s.get_char(a0) == '}' {
        if skip_ws_at(s, a0 + 1) != n {
            return (None, None);
        }
        proof {
            let ps = seq![(m1.0@, m1.1@)];
            assert(parse_object(s@) == Some(ps));
            lemma_lookup_single((m1.0@, m1.1@), "salt"@);
            lemma_lookup_single((m1.0@, m1.1@), "sentinel"@);
        }
        let salt = if m1.0 == salt_key {
            Some(m1.1.clone())
        } else {
            None
        };
        let sentinel = if m1.0 == sentinel_key {
            Some(m1.1.clone())
        } else {
            None
        };
        (salt, sentinel)
    } else {
        (None, None)
    }
}

/// Parse metadata into its salt and sentinel fields. Succeeds exactly when
/// the text is a metadata object carrying both.
pub fn parse_meta(meta: &str) -> (r: Result<(String, String), VaultError>)
    ensures
        match r {
            Ok(f) => meta_fields_of(meta@) == Some((f.0@, f.1@)),
            Err(e) => e == VaultError::InputError && meta_fields_of(meta@) is None,
        },
{
    let f = object_fields(meta);
    match (f.0, f.1) {
        (Some(salt), Some(sentinel)) => Ok((salt, sentinel)),
        _ => Err(VaultError::InputError),
    }
}

/// Extract the salt field from metadata and check that it is valid base64.
pub fn parse_salt(meta: &str) -> (r: Result<String, VaultError>)
    ensures
        match r {
            Ok(s) => meta_salt_of(meta@) == Some(s@) && b64_decoding(s@) is Some,
            Err(e) => e == VaultError::InputError && (meta_salt_of(meta@) is None || (meta_salt_of(
                meta@,
            ) matches Some(sb) && b64_decoding(sb) is None)),
        },
{
    let f = object_fields(meta);
    match f.0 {
        Some(salt) => match b64_decode(salt.as_str()) {
            Some(_) => Ok(salt),
            None => Err(VaultError::InputError),
        },
        None => Err(VaultError::InputError),
    }
}

/// Serialize metadata from its two field texts.
pub fn build_meta(salt_b64: &str, sentinel_b64: &str) -> (meta: String)
    ensures
        meta@ == meta_chars_of(salt_b64@, sentinel_b64@),
{
    let mut m = "{\"salt\":\"".to_owned();
    m.append(salt_b64);
    m.append("\",\"sentinel\":\"");
    m.append(sentinel_b64);
    m.append("\"}");
    proof {
        assert(m@ =~= meta_chars_of(salt_b64@, sentinel_b64@));
    }
    m
}

} // verus!
