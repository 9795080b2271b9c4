use vstd::prelude::*;
use crate::text::{dec_str, is_digit_char, lemma_dec_str_digits, u16_decimal};

verus! {

/// The user-facing formatting options, as one immutable value per run.
#[derive(Debug)]
pub struct FormatConfiguration {
    /// Characters allowed per line.
    pub line_length: u8,
    /// Already-normalized, comma-joined target version tags; empty when
    /// the daemon should auto-detect.
    pub target_version: String,
    /// Do not normalize string quotes or prefixes.
    pub skip_string_normalization: bool,
    /// Do not treat magic trailing commas as a reason to split lines.
    pub skip_magic_trailing_comma: bool,
    /// Skip the daemon's sanity checks.
    pub fast: bool,
    /// Explicitly request the sanity checks; wins over `fast`.
    pub safe: bool,
    /// Ask for a diff instead of rewritten sources.
    pub diff: bool,
}

/// Characters this client ever puts in a header name: lowercase ASCII
/// letters, digits and dashes, which HTTP header names admit unchanged.
pub open spec fn valid_header_name_char(c: char) -> bool {
    ('a' <= c && c <= 'z') || is_digit_char(c) || c == '-'
}

pub open spec fn valid_header_name(s: Seq<char>) -> bool {
    forall|i: int| 0 <= i < s.len() ==> valid_header_name_char(#[trigger] s[i])
}

/// Characters an HTTP header value admits: visible ASCII, space and tab.
pub open spec fn valid_header_value_char(c: char) -> bool {
    c == '\t' || (' ' <= c && c <= '~')
}

pub open spec fn valid_header_value(s: Seq<char>) -> bool {
    forall|i: int| 0 <= i < s.len() ==> valid_header_value_char(#[trigger] s[i])
}

/// The protocol metadata a configuration translates to: which header
/// names are sent, and with which values.
pub open spec fn headers_model(c: FormatConfiguration) -> Map<Seq<char>, Seq<char>> {
    let m = Map::<Seq<char>, Seq<char>>::empty().insert("x-protocol-version"@, "1"@).insert(
        "x-line-length"@,
        dec_str(c.line_length as int),
    );
    let m = if c.skip_string_normalization {
        m.insert("x-skip-string-normalization"@, "true"@)
    } else {
        m
    };
    let m = if c.skip_magic_trailing_comma {
        m.insert("x-skip-magic-trailing-comma"@, "true"@)
    } else {
        m
    };
    let m = m.insert(
        "x-fast-or-safe"@,
        if c.fast && !c.safe {
            "fast"@
        } else {
            "safe"@
        },
    );
    let m = if c.target_version@.len() > 0 {
        m.insert("x-python-variant"@, c.target_version@)
    } else {
        m
    };
    let m = if c.diff {
        m.insert("x-diff"@, "true"@)
    } else {
        m
    };
    m
}

/// The entries a header map holds, keyed by header name.
pub uninterp spec fn header_entries(m: reqwest::header::HeaderMap) -> Map<Seq<char>, Seq<char>>;

/// How many entries a header map holds; the map type caps this at
/// 32768 and refuses (by panicking) to grow past the cap, so the
/// wrappers track it.
pub uninterp spec fn header_count(m: reqwest::header::HeaderMap) -> nat;

/// A metadata map with nothing in it yet.
pub open spec fn no_entries() -> Map<Seq<char>, Seq<char>> {
    Map::empty()
}

#[verifier::external_type_specification]
#[verifier::external_body]
pub struct ExHeaderValue(reqwest::header::HeaderValue);

#[verifier::external_type_specification]
#[verifier::external_body]
#[verifier::reject_recursive_types(T)]
pub struct ExHeaderMap<T>(reqwest::header::HeaderMap<T>);

/// Relies on `HeaderMap::new`: a freshly created map holds no entries.
#[verifier::external_body]
pub(crate) fn new_header_map() -> (m: reqwest::header::HeaderMap)
    ensures
        header_entries(m) == no_entries(),
        header_count(m) == 0,
{
    reqwest::header::HeaderMap::new()
}

/// Relies on `HeaderMap::insert`, with `HeaderName::from_bytes` and
/// `HeaderValue::from_str` converting the arguments: for the admitted
/// characters (one to 65535 of them, so the name-length cap cannot
/// trip) both conversions succeed and keep the text unchanged (no case
/// folding applies to lowercase names), and `insert` replaces any
/// previous value stored under the same name. The entry-count bound
/// keeps `insert` below the map's own capacity, where it would panic.
#[verifier::external_body]
pub(crate) fn insert_header(m: &mut reqwest::header::HeaderMap, name: &str, value: &str)
    requires
        0 < name@.len() <= 65535,
        valid_header_name(name@),
        valid_header_value(value@),
        header_count(*old(m)) < 32768,
    ensures
        header_entries(*final(m)) == header_entries(*old(m)).insert(name@, value@),
        header_count(*final(m)) <= header_count(*old(m)) + 1,
{
    let n = reqwest::header::HeaderName::from_bytes(name.as_bytes()).unwrap();
    let v = reqwest::header::HeaderValue::from_str(value).unwrap();
    m.insert(n, v);
}

/// Relies on `HeaderMap::clone`: the clone holds the same entries.
#[verifier::external_body]
pub(crate) fn clone_header_map(m: &reqwest::header::HeaderMap) -> (r: reqwest::header::HeaderMap)
    ensures
        header_entries(r) == header_entries(*m),
        header_count(r) == header_count(*m),
{
    m.clone()
}

/// Decides whether a string may stand as a header value.
pub fn header_value_ok(s: &str) -> (b: bool)
    ensures
        b == valid_header_value(s@),
{
    let n = s.unicode_len();
    let mut i: usize = 0;
    while i < n
        invariant
            n == s@.len(),
            0 <= i <= n,
            forall|j: int| 0 <= j < i ==> valid_header_value_char(#[trigger] s@[j]),
        decreases n - i,
    {
        let c = s.get_char(i);
        if !(c == '\t' || (' ' <= c && c <= '~')) {
            return false;
        }
        i = i + 1;
    }
    true
}

/// Translates a configuration into the protocol metadata sent with every
/// request; pure aside from allocating the map.
pub fn headers_from_cli_options(options: &FormatConfiguration) -> (r: reqwest::header::HeaderMap)
    requires
        valid_header_value(options.target_version@),
    ensures
        header_entries(r) == headers_model(*options),
{
    let mut headers = new_header_map();
    proof {
        reveal_strlit("x-protocol-version");
        reveal_strlit("x-line-length");
        reveal_strlit("x-skip-string-normalization");
        reveal_strlit("x-skip-magic-trailing-comma");
        reveal_strlit("x-fast-or-safe");
        reveal_strlit("x-python-variant");
        reveal_strlit("x-diff");
        reveal_strlit("1");
        reveal_strlit("true");
        reveal_strlit("fast");
        reveal_strlit("safe");
    }
    insert_header(&mut headers, "x-protocol-version", "1");
    let line_length = u16_decimal(options.line_length as u16);
    proof {
        lemma_dec_str_digits(options.line_length as int);
    }
    insert_header(&mut headers, "x-line-length", line_length.as_str());
    if options.skip_string_normalization {
        insert_header(&mut headers, "x-skip-string-normalization", "true");
    }
    if options.skip_magic_trailing_comma {
        insert_header(&mut headers, "x-skip-magic-trailing-comma", "true");
    }
    if options.fast && !options.safe {
        insert_header(&mut headers, "x-fast-or-safe", "fast");
    } else {
        insert_header(&mut headers, "x-fast-or-safe", "safe");
    }
    if options.target_version.as_str().unicode_len() > 0 {
        insert_header(&mut headers, "x-python-variant", options.target_version.as_str());
    }
    if options.diff {
        insert_header(&mut headers, "x-diff", "true");
    }
    headers
}

/// Translation is deterministic: two metadata maps produced from the
/// same configuration hold the same entries.
pub proof fn lemma_translate_deterministic(
    c: FormatConfiguration,
    m1: Map<Seq<char>, Seq<char>>,
    m2: Map<Seq<char>, Seq<char>>,
)
    requires
        m1 == headers_model(c),
        m2 == headers_model(c),
    ensures
        m1 == m2,
{
}

/// Which headers a configuration sends: the protocol-version and
/// line-length markers always, the mode marker always, and each optional
/// marker exactly when its flag or list asks for it.
pub proof fn lemma_header_presence(c: FormatConfiguration)
    ensures
        headers_model(c).contains_key("x-protocol-version"@),
        headers_model(c)["x-protocol-version"@] == "1"@,
        headers_model(c).contains_key("x-line-length"@),
        headers_model(c)["x-line-length"@] == dec_str(c.line_length as int),
        headers_model(c).contains_key("x-fast-or-safe"@),
        headers_model(c)["x-fast-or-safe"@] == (if c.fast && !c.safe {
            "fast"@
        } else {
            "safe"@
        }),
        headers_model(c).contains_key("x-skip-string-normalization"@)
            == c.skip_string_normalization,
        c.skip_string_normalization ==> headers_model(c)["x-skip-string-normalization"@]
            == "true"@,
        headers_model(c).contains_key("x-skip-magic-trailing-comma"@)
            == c.skip_magic_trailing_comma,
        c.skip_magic_trailing_comma ==> headers_model(c)["x-skip-magic-trailing-comma"@]
            == "true"@,
        headers_model(c).contains_key("x-python-variant"@) == (c.target_version@.len() > 0),
        c.target_version@.len() > 0 ==> headers_model(c)["x-python-variant"@]
            == c.target_version@,
        headers_model(c).contains_key("x-diff"@) == c.diff,
        c.diff ==> headers_model(c)["x-diff"@] == "true"@,
{
    reveal_strlit("x-protocol-version");
    reveal_strlit("x-line-length");
    reveal_strlit("x-skip-string-normalization");
    reveal_strlit("x-skip-magic-trailing-comma");
    reveal_strlit("x-fast-or-safe");
    reveal_strlit("x-python-variant");
    reveal_strlit("x-diff");
    assert("x-protocol-version"@.len() == 18);
    assert("x-line-length"@.len() == 13);
    assert("x-skip-string-normalization"@.len() == 27);
    assert("x-skip-magic-trailing-comma"@.len() == 27);
    assert("x-fast-or-safe"@.len() == 14);
    assert("x-python-variant"@.len() == 16);
    assert("x-diff"@.len() == 6);
    assert("x-skip-string-normalization"@[7] == 's');
    assert("x-skip-magic-trailing-comma"@[7] == 'm');
    assert("x-skip-string-normalization"@ != "x-skip-magic-trailing-comma"@);
}

} // verus!
