//! Parsing of the one-key JSON body `{"origin": "<value>"}` that the
//! address service returns.
//!
//! Only this fixed shape is accepted: optional JSON whitespace around the
//! punctuation, the key `"origin"`, and a string value without escape
//! sequences. Anything else is rejected.

use vstd::prelude::*;
use vstd::string::StrSliceExecFns;
use vstd::string::StringExecFns;

verus! {

/// JSON insignificant whitespace.
pub open spec fn is_json_ws(c: char) -> bool {
    c == ' ' || c == '\t' || c == '\n' || c == '\r'
}

/// A character that may stand unescaped inside a JSON string value:
/// anything but the closing quote and the escape character.
pub open spec fn is_plain_str_char(c: char) -> bool {
    c != '"' && c != '\\'
}

/// The quoted key that the address service's body carries.
pub open spec fn origin_key() -> Seq<char> {
    seq!['"', 'o', 'r', 'i', 'g', 'i', 'n', '"']
}

/// Index of the first character at or after `i` that is not JSON
/// whitespace; the sequence's length when all the rest is whitespace.
pub open spec fn ws_end(s: Seq<char>, i: int) -> int
    decreases s.len() - i,
{
    if i < 0 || i >= s.len() {
        s.len() as int
    } else if is_json_ws(s[i]) {
        ws_end(s, i + 1)
    } else {
        i
    }
}

/// Index of the first character at or after `i` that cannot stand
/// unescaped inside a JSON string value; the sequence's length when every
/// remaining character can.
pub open spec fn plain_end(s: Seq<char>, i: int) -> int
    decreases s.len() - i,
{
    if i < 0 || i >= s.len() {
        s.len() as int
    } else if is_plain_str_char(s[i]) {
        plain_end(s, i + 1)
    } else {
        i
    }
}

/// What parsing the body yields: the characters between the value's quotes
/// when the sequence is exactly `{"origin": "<value>"}` with optional JSON
/// whitespace around the punctuation and no escape in the value, and
/// nothing otherwise.
pub open spec fn parse_origin_spec(s: Seq<char>) -> Option<Seq<char>> {
    let i1 = ws_end(s, 0);
    let i2 = ws_end(s, i1 + 1);
    let i3 = ws_end(s, i2 + 8);
    let i4 = ws_end(s, i3 + 1);
    let e = plain_end(s, i4 + 1);
    let i5 = ws_end(s, e + 1);
    if i1 < s.len() && s[i1] == '{' && i2 + 8 <= s.len() && s.subrange(i2, i2 + 8)
        == origin_key() && i3 < s.len() && s[i3] == ':' && i4 < s.len() && s[i4] == '"' && e
        < s.len() && s[e] == '"' && i5 < s.len() && s[i5] == '}' && ws_end(s, i5 + 1) == s.len() {
        Some(s.subrange(i4 + 1, e))
    } else {
        None
    }
}

/// Every character of `s` is JSON whitespace.
pub open spec fn all_json_ws(s: Seq<char>) -> bool {
    forall|k: int| 0 <= k < s.len() ==> is_json_ws(#[trigger] s[k])
}

/// Every character of `s` may stand unescaped inside a JSON string value.
pub open spec fn all_plain(s: Seq<char>) -> bool {
    forall|k: int| 0 <= k < s.len() ==> is_plain_str_char(#[trigger] s[k])
}

/// The accepted body shape, assembled from its parts: whitespace runs
/// `w0`..`w5` around the punctuation, the key, and the value `o`.
pub open spec fn origin_body(
    w0: Seq<char>,
    w1: Seq<char>,
    w2: Seq<char>,
    w3: Seq<char>,
    w4: Seq<char>,
    w5: Seq<char>,
    o: Seq<char>,
) -> Seq<char> {
    w0 + seq!['{'] + w1 + origin_key() + w2 + seq![':'] + w3 + seq!['"'] + o + seq!['"'] + w4
        + seq!['}'] + w5
}

/// Scanning for the end of whitespace from inside a whitespace run lands
/// on the first non-whitespace character after it (or the end).
proof fn lemma_ws_end_skips(s: Seq<char>, i: int, j: int)
    requires
        0 <= i <= j <= s.len(),
        forall|k: int| i <= k < j ==> is_json_ws(#[trigger] s[k]),
        j == s.len() || !is_json_ws(s[j]),
    ensures
        ws_end(s, i) == j,
    decreases j - i,
{
    if i < j {
        lemma_ws_end_skips(s, i + 1, j);
    }
}

/// Scanning for the end of plain characters from inside a plain run lands
/// on the first quote or escape character after it (or the end).
proof fn lemma_plain_end_skips(s: Seq<char>, i: int, j: int)
    requires
        0 <= i <= j <= s.len(),
        forall|k: int| i <= k < j ==> is_plain_str_char(#[trigger] s[k]),
        j == s.len() || !is_plain_str_char(s[j]),
    ensures
        plain_end(s, i) == j,
    decreases j - i,
{
    if i < j {
        lemma_plain_end_skips(s, i + 1, j);
    }
}

/// Up to where the whitespace scan stops, everything is whitespace.
proof fn lemma_ws_end_all_ws(s: Seq<char>, i: int)
    requires
        0 <= i <= s.len(),
    ensures
        i <= ws_end(s, i) <= s.len(),
        forall|k: int| i <= k < ws_end(s, i) ==> is_json_ws(#[trigger] s[k]),
        ws_end(s, i) < s.len() ==> !is_json_ws(s[ws_end(s, i)]),
    decreases s.len() - i,
{
    if i < s.len() && is_json_ws(s[i]) {
        lemma_ws_end_all_ws(s, i + 1);
    }
}

/// Up to where the plain scan stops, everything is plain.
proof fn lemma_plain_end_all_plain(s: Seq<char>, i: int)
    requires
        0 <= i <= s.len(),
    ensures
        i <= plain_end(s, i) <= s.len(),
        forall|k: int| i <= k < plain_end(s, i) ==> is_plain_str_char(#[trigger] s[k]),
        plain_end(s, i) < s.len() ==> !is_plain_str_char(s[plain_end(s, i)]),
    decreases s.len() - i,
{
    if i < s.len() && is_plain_str_char(s[i]) {
        lemma_plain_end_all_plain(s, i + 1);
    }
}

/// Completeness of the parser's specification: every body of the accepted
/// shape parses, and to exactly the value it carries. Together with
/// `lemma_parse_origin_sound` this says on precisely which bodies a
/// refresh succeeds.
pub proof fn lemma_parse_origin_complete(
    w0: Seq<char>,
    w1: Seq<char>,
    w2: Seq<char>,
    w3: Seq<char>,
    w4: Seq<char>,
    w5: Seq<char>,
    o: Seq<char>,
)
    requires
        all_json_ws(w0),
        all_json_ws(w1),
        all_json_ws(w2),
        all_json_ws(w3),
        all_json_ws(w4),
        all_json_ws(w5),
        all_plain(o),
    ensures
        parse_origin_spec(origin_body(w0, w1, w2, w3, w4, w5, o)) == Some(o),
{
    let s = origin_body(w0, w1, w2, w3, w4, w5, o);
    let at_open = w0.len() as int;
    let at_key = at_open + 1 + w1.len();
    let at_colon = at_key + 8 + w2.len();
    let at_quote = at_colon + 1 + w3.len();
    let at_end_quote = at_quote + 1 + o.len();
    let at_close = at_end_quote + 1 + w4.len();
    let at_end = at_close + 1 + w5.len();
    assert(s.len() == at_end);
    assert(s[at_open] == '{');
    assert(s[at_colon] == ':');
    assert(s[at_quote] == '"');
    assert(s[at_end_quote] == '"');
    assert(s[at_close] == '}');
    assert(!is_json_ws('{') && !is_json_ws(':') && !is_json_ws('"') && !is_json_ws('}'));
    assert(!is_plain_str_char('"'));
    lemma_ws_end_skips(s, 0, at_open);
    lemma_ws_end_skips(s, at_open + 1, at_key);
    assert(s.subrange(at_key, at_key + 8) =~= origin_key());
    lemma_ws_end_skips(s, at_key + 8, at_colon);
    lemma_ws_end_skips(s, at_colon + 1, at_quote);
    lemma_plain_end_skips(s, at_quote + 1, at_end_quote);
    lemma_ws_end_skips(s, at_end_quote + 1, at_close);
    lemma_ws_end_skips(s, at_close + 1, s.len() as int);
    assert(s.subrange(at_quote + 1, at_end_quote) =~= o);
}

/// Soundness of the parser's specification: a body that parses has the
/// accepted shape, and the parsed value is exactly what stands between the
/// value's quotes.
pub proof fn lemma_parse_origin_sound(s: Seq<char>, o: Seq<char>)
    requires
        parse_origin_spec(s) == Some(o),
    ensures
        all_plain(o),
        exists|w:
            (Seq<char>, Seq<char>, Seq<char>, Seq<char>, Seq<char>, Seq<char>)|
            {
                &&& all_json_ws(w.0)
                &&& all_json_ws(w.1)
                &&& all_json_ws(w.2)
                &&& all_json_ws(w.3)
                &&& all_json_ws(w.4)
                &&& all_json_ws(w.5)
                &&& s == origin_body(w.0, w.1, w.2, w.3, w.4, w.5, o)
            },
{
    let i1 = ws_end(s, 0);
    let i2 = ws_end(s, i1 + 1);
    let i3 = ws_end(s, i2 + 8);
    let i4 = ws_end(s, i3 + 1);
    let e = plain_end(s, i4 + 1);
    let i5 = ws_end(s, e + 1);
    lemma_ws_end_all_ws(s, 0);
    lemma_ws_end_all_ws(s, i1 + 1);
    lemma_ws_end_all_ws(s, i2 + 8);
    lemma_ws_end_all_ws(s, i3 + 1);
    lemma_plain_end_all_plain(s, i4 + 1);
    lemma_ws_end_all_ws(s, e + 1);
    lemma_ws_end_all_ws(s, i5 + 1);
    let w = (
        s.subrange(0, i1),
        s.subrange(i1 + 1, i2),
        s.subrange(i2 + 8, i3),
        s.subrange(i3 + 1, i4),
        s.subrange(e + 1, i5),
        s.subrange(i5 + 1, s.len() as int),
    );
    assert(o =~= s.subrange(i4 + 1, e));
    assert(s == origin_body(w.0, w.1, w.2, w.3, w.4, w.5, o)) by {
        assert(origin_body(w.0, w.1, w.2, w.3, w.4, w.5, o) =~= s);
    }
    assert(all_json_ws(w.0));
    assert(all_json_ws(w.1));
    assert(all_json_ws(w.2));
    assert(all_json_ws(w.3));
    assert(all_json_ws(w.4));
    assert(all_json_ws(w.5));
    assert({
        &&& all_json_ws(w.0)
        &&& all_json_ws(w.1)
        &&& all_json_ws(w.2)
        &&& all_json_ws(w.3)
        &&& all_json_ws(w.4)
        &&& all_json_ws(w.5)
        &&& s == origin_body(w.0, w.1, w.2, w.3, w.4, w.5, o)
    });
}

/// True exactly when `c` is JSON whitespace.
fn is_ws_char(c: char) -> (r: bool)
    ensures
        r == is_json_ws(c),
{
    c == ' ' || c == '\t' || c == '\n' || c == '\r'
}

/// True exactly when `c` may stand unescaped inside a JSON string value.
fn is_plain_char(c: char) -> (r: bool)
    ensures
        r == is_plain_str_char(c),
{
    c != '"' && c != '\\'
}

/// First index at or after `from` holding a non-whitespace character.
fn skip_ws(s: &str, from: usize, n: usize) -> (r: usize)
    requires
        n == s@.len(),
        from <= n,
    ensures
        from <= r <= n,
        r == ws_end(s@, from as int),
{
    let mut i = from;
    loop
        invariant
            from <= i <= n,
            n == s@.len(),
            ws_end(s@, from as int) == ws_end(s@, i as int),
        ensures
            from <= i <= n,
            i == ws_end(s@, from as int),
        decreases n - i,
    {
        if i >= n {
            assert(ws_end(s@, i as int) == i as int);
            break ;
        }
        let c = s.get_char(i);
        if !is_ws_char(c) {
            assert(ws_end(s@, i as int) == i as int);
            break ;
        }
        assert(ws_end(s@, i as int) == ws_end(s@, i as int + 1));
        i = i + 1;
    }
    i
}

/// First index at or after `from` holding a quote or an escape character.
fn scan_plain(s: &str, from: usize, n: usize) -> (r: usize)
    requires
        n == s@.len(),
        from <= n,
    ensures
        from <= r <= n,
        r == plain_end(s@, from as int),
{
    let mut i = from;
    loop
        invariant
            from <= i <= n,
            n == s@.len(),
            plain_end(s@, from as int) == plain_end(s@, i as int),
        ensures
            from <= i <= n,
            i == plain_end(s@, from as int),
        decreases n - i,
    {
        if i >= n {
            assert(plain_end(s@, i as int) == i as int);
            break ;
        }
        let c = s.get_char(i);
        if !is_plain_char(c) {
            assert(plain_end(s@, i as int) == i as int);
            break ;
        }
        assert(plain_end(s@, i as int) == plain_end(s@, i as int + 1));
        i = i + 1;
    }
    i
}

/// True exactly when the eight characters of `s` starting at `i` spell the
/// quoted key `"origin"`.
fn has_origin_key(s: &str, i: usize, n: usize) -> (r: bool)
    requires
        n == s@.len(),
        i + 8 <= n,
    ensures
        r == (s@.subrange(i as int, i as int + 8) == origin_key()),
{
    let r = s.get_char(i) == '"' && s.get_char(i + 1) == 'o' && s.get_char(i + 2) == 'r'
        && s.get_char(i + 3) == 'i' && s.get_char(i + 4) == 'g' && s.get_char(i + 5) == 'i'
        && s.get_char(i + 6) == 'n' && s.get_char(i + 7) == '"';
    proof {
        let sub = s@.subrange(i as int, i as int + 8);
        if r {
            assert(sub =~= origin_key());
        } else {
            if sub == origin_key() {
                assert(s@[i as int] == origin_key()[0]);
                assert(s@[i as int + 1] == origin_key()[1]);
                assert(s@[i as int + 2] == origin_key()[2]);
                assert(s@[i as int + 3] == origin_key()[3]);
                assert(s@[i as int + 4] == origin_key()[4]);
                assert(s@[i as int + 5] == origin_key()[5]);
                assert(s@[i as int + 6] == origin_key()[6]);
                assert(s@[i as int + 7] == origin_key()[7]);
                assert(false);
            }
        }
    }
    r
}

/// Parse the address service's body. Returns the origin value exactly when
/// the body has the accepted shape, and nothing otherwise.
pub fn parse_origin(s: &str) -> (r: Option<String>)
    ensures
        match r {
            Some(o) => parse_origin_spec(s@) == Some(o@),
            None => parse_origin_spec(s@) is None,
        },
{
    let n = s.unicode_len();
    let i1 = skip_ws(s, 0, n);
    if i1 >= n || s.get_char(i1) != '{' {
        return None;
    }
    let i2 = skip_ws(s, i1 + 1, n);
    if n - i2 < 8 {
        return None;
    }
    if !has_origin_key(s, i2, n) {
        return None;
    }
    let i3 = skip_ws(s, i2 + 8, n);
    if i3 >= n || s.get_char(i3) != ':' {
        return None;
    }
    let i4 = skip_ws(s, i3 + 1, n);
    if i4 >= n || s.get_char(i4) != '"' {
        return None;
    }
    let e = scan_plain(s, i4 + 1, n);
    if e >= n || s.get_char(e) != '"' {
        return None;
    }
    let i5 = skip_ws(s, e + 1, n);
    if i5 >= n || s.get_char(i5) != '}' {
        return None;
    }
    let rest = skip_ws(s, i5 + 1, n);
    if rest != n {
        return None;
    }
    let value = s.substring_char(i4 + 1, e);
    Some(String::from_str(value))
}

} // verus!
