//! JSON reading through `serde_json`, behind trusted wrappers whose results
//! are named spec functions, and verified JSON string framing for the wire
//! formats this crate emits itself.

use vstd::prelude::*;

verus! {

/// The string value of field `key` when `obj` parses as JSON carrying a
/// string at that key.
pub uninterp spec fn json_field_str_of(obj: Seq<char>, key: Seq<char>) -> Option<Seq<char>>;

/// The compact JSON text of field `key` when `obj` parses as JSON carrying
/// that key.
pub uninterp spec fn json_field_raw_of(obj: Seq<char>, key: Seq<char>) -> Option<Seq<char>>;

/// The value of field `key` when `obj` parses as JSON carrying an unsigned
/// integer there.
pub uninterp spec fn json_field_u64_of(obj: Seq<char>, key: Seq<char>) -> Option<u64>;

/// The value of field `key` when `obj` parses as JSON carrying a boolean
/// there.
pub uninterp spec fn json_field_bool_of(obj: Seq<char>, key: Seq<char>) -> Option<bool>;

/// The elements of `s` when it parses as a JSON array, each rendered back
/// to compact JSON text.
pub uninterp spec fn json_array_items_of(s: Seq<char>) -> Option<Seq<Seq<char>>>;

/// Relies on `serde_json::from_str`, `Value::get` and `Value::as_str`:
/// returns the string held at `key` when `obj` parses and holds one there.
#[verifier::external_body]
pub fn json_field_str(obj: &str, key: &str) -> (r: Option<String>)
    ensures
        match r {
            Some(s) => json_field_str_of(obj@, key@) == Some(s@),
            None => json_field_str_of(obj@, key@) is None,
        },
{
    match serde_json::from_str::<serde_json::Value>(obj) {
        Ok(v) => v.get(key).and_then(|f| f.as_str()).map(|s| s.to_string()),
        Err(_) => None,
    }
}

/// Relies on `serde_json::from_str`, `Value::get` and `Value`'s `Display`:
/// returns the compact JSON text of the value held at `key` when `obj`
/// parses and has that key.
#[verifier::external_body]
pub fn json_field_raw(obj: &str, key: &str) -> (r: Option<String>)
    ensures
        match r {
            Some(s) => json_field_raw_of(obj@, key@) == Some(s@),
            None => json_field_raw_of(obj@, key@) is None,
        },
{
    match serde_json::from_str::<serde_json::Value>(obj) {
        Ok(v) => v.get(key).map(|f| f.to_string()),
        Err(_) => None,
    }
}

/// Relies on `serde_json::from_str`, `Value::get` and `Value::as_u64`:
/// returns the unsigned integer held at `key` when `obj` parses and holds
/// one there.
#[verifier::external_body]
pub fn json_field_u64(obj: &str, key: &str) -> (r: Option<u64>)
    ensures
        r == json_field_u64_of(obj@, key@),
{
    match serde_json::from_str::<serde_json::Value>(obj) {
        Ok(v) => v.get(key).and_then(|f| f.as_u64()),
        Err(_) => None,
    }
}

/// Relies on `serde_json::from_str`, `Value::get` and `Value::as_bool`:
/// returns the boolean held at `key` when `obj` parses and holds one there.
#[verifier::external_body]
pub fn json_field_bool(obj: &str, key: &str) -> (r: Option<bool>)
    ensures
        r == json_field_bool_of(obj@, key@),
{
    match serde_json::from_str::<serde_json::Value>(obj) {
        Ok(v) => v.get(key).and_then(|f| f.as_bool()),
        Err(_) => None,
    }
}

/// Relies on `serde_json::from_str` for `Vec<Value>` and `Value`'s
/// `Display`: splits a JSON array literal into the compact JSON text of its
/// elements.
#[verifier::external_body]
pub fn json_array_items(s: &str) -> (r: Option<Vec<String>>)
    ensures
        match r {
            Some(items) => json_array_items_of(s@) == Some(items.deep_view()),
            None => json_array_items_of(s@) is None,
        },
{
    match serde_json::from_str::<Vec<serde_json::Value>>(s) {
        Ok(items) => Some(items.iter().map(|v| v.to_string()).collect()),
        Err(_) => None,
    }
}

/// The parse failure for `s`: the parser's message when `s` is not valid
/// JSON, nothing when it is.
pub uninterp spec fn json_parse_error_of(s: Seq<char>) -> Option<Seq<char>>;

/// Relies on `serde_json::from_str` and its error's `Display`: reports the
/// parse failure for `s`, or nothing when `s` is valid JSON.
#[verifier::external_body]
pub fn json_parse_error(s: &str) -> (r: Option<String>)
    ensures
        match r {
            Some(e) => json_parse_error_of(s@) == Some(e@),
            None => json_parse_error_of(s@) is None,
        },
{
    match serde_json::from_str::<serde_json::Value>(s) {
        Ok(_) => None,
        Err(e) => Some(e.to_string()),
    }
}

/// The escape of one character inside a JSON string literal, matching the
/// compact form `serde_json` emits.
pub open spec fn json_escape_char(c: char) -> Seq<char> {
    if c == '"' {
        seq!['\\', '"']
    } else if c == '\\' {
        seq!['\\', '\\']
    } else if c == '\u{8}' {
        seq!['\\', 'b']
    } else if c == '\u{c}' {
        seq!['\\', 'f']
    } else if c == '\n' {
        seq!['\\', 'n']
    } else if c == '\r' {
        seq!['\\', 'r']
    } else if c == '\t' {
        seq!['\\', 't']
    } else if (c as u32) < 0x20 {
        seq!['\\', 'u', '0', '0', hex_digit(((c as u32) / 16) as nat), hex_digit(
            ((c as u32) % 16) as nat,
        )]
    } else {
        seq![c]
    }
}

/// One lowercase hex digit.
pub open spec fn hex_digit(d: nat) -> char {
    if d == 0 { '0' }
    else if d == 1 { '1' }
    else if d == 2 { '2' }
    else if d == 3 { '3' }
    else if d == 4 { '4' }
    else if d == 5 { '5' }
    else if d == 6 { '6' }
    else if d == 7 { '7' }
    else if d == 8 { '8' }
    else if d == 9 { '9' }
    else if d == 10 { 'a' }
    else if d == 11 { 'b' }
    else if d == 12 { 'c' }
    else if d == 13 { 'd' }
    else if d == 14 { 'e' }
    else if d == 15 { 'f' }
    else { '?' }
}

/// The body of a JSON string literal for `s`: each character escaped.
pub open spec fn json_escaped(s: Seq<char>) -> Seq<char>
    decreases s.len(),
{
    if s.len() == 0 {
        Seq::empty()
    } else {
        json_escape_char(s[0]) + json_escaped(s.drop_first())
    }
}

/// The JSON string literal for `s`, quotes included.
pub open spec fn json_quoted(s: Seq<char>) -> Seq<char> {
    seq!['"'] + json_escaped(s) + seq!['"']
}

proof fn lemma_json_escaped_snoc(s: Seq<char>, c: char)
    ensures
        json_escaped(s.push(c)) =~= json_escaped(s) + json_escape_char(c),
    decreases s.len(),
{
    if s.len() == 0 {
        assert(s.push(c)[0] == c);
        assert(s.push(c).drop_first() =~= Seq::<char>::empty());
        assert(json_escaped(Seq::<char>::empty()) == Seq::<char>::empty());
        assert(json_escaped(s.push(c)) == json_escape_char(c) + json_escaped(
            s.push(c).drop_first(),
        ));
        assert(json_escape_char(c) + Seq::<char>::empty() =~= json_escape_char(c));
        assert(json_escaped(s.push(c)) =~= json_escape_char(c));
        assert(json_escaped(s) + json_escape_char(c) =~= json_escape_char(c));
    } else {
        assert(s.push(c)[0] == s[0]);
        assert(s.push(c).drop_first() =~= s.drop_first().push(c));
        lemma_json_escaped_snoc(s.drop_first(), c);
        assert(json_escape_char(s[0]) + (json_escaped(s.drop_first()) + json_escape_char(c))
            =~= (json_escape_char(s[0]) + json_escaped(s.drop_first())) + json_escape_char(c));
    }
}

/// Appends the escaped body of `s` to `out`.
fn push_json_escaped(out: &mut String, s: &str)
    ensures
        final(out)@ == old(out)@ + json_escaped(s@),
{
    let n: usize = s.unicode_len();
    let mut i: usize = 0;
    proof {
        assert(s@.subrange(0, 0) =~= Seq::<char>::empty());
        assert(out@ + json_escaped(s@.subrange(0, 0)) =~= out@);
    }
    while i < n
        invariant
            0 <= i <= n,
            n == s@.len(),
            out@ =~= old(out)@ + json_escaped(s@.subrange(0, i as int)),
        decreases n - i,
    {
        let c = s.get_char(i);
        if c == '"' {
            crate::text::push_str(out, "\\\"");
            proof {
                reveal_strlit("\\\"");
            }
        } else if c == '\\' {
            crate::text::push_str(out, "\\\\");
            proof {
                reveal_strlit("\\\\");
            }
        } else if c == '\u{8}' {
            crate::text::push_str(out, "\\b");
            proof {
                reveal_strlit("\\b");
            }
        } else if c == '\u{c}' {
            crate::text::push_str(out, "\\f");
            proof {
                reveal_strlit("\\f");
            }
        } else if c == '\n' {
            crate::text::push_str(out, "\\n");
            proof {
                reveal_strlit("\\n");
            }
        } else if c == '\r' {
            crate::text::push_str(out, "\\r");
            proof {
                reveal_strlit("\\r");
            }
        } else if (c as u32) < 0x20 {
            let code: u32 = c as u32;
            if code == 9 {
                crate::text::push_str(out, "\\t");
                proof {
                    reveal_strlit("\\t");
                }
            } else {
                crate::text::push_str(out, "\\u00");
                proof {
                    reveal_strlit("\\u00");
                }
                crate::text::push_char(out, hex_digit_char(code / 16));
                crate::text::push_char(out, hex_digit_char(code % 16));
            }
        } else {
            crate::text::push_char(out, c);
        }
        proof {
            assert(s@.subrange(0, i as int + 1) =~= s@.subrange(0, i as int).push(c));
            lemma_json_escaped_snoc(s@.subrange(0, i as int), c);
            assert(out@ =~= old(out)@ + json_escaped(s@.subrange(0, i as int + 1)));
        }
        i = i + 1;
    }
    proof {
        assert(s@.subrange(0, n as int) =~= s@);
    }
}

/// One lowercase hex digit.
fn hex_digit_char(d: u32) -> (c: char)
    requires
        d < 16,
    ensures
        c == hex_digit(d as nat),
{
    if d == 0 { '0' }
    else if d == 1 { '1' }
    else if d == 2 { '2' }
    else if d == 3 { '3' }
    else if d == 4 { '4' }
    else if d == 5 { '5' }
    else if d == 6 { '6' }
    else if d == 7 { '7' }
    else if d == 8 { '8' }
    else if d == 9 { '9' }
    else if d == 10 { 'a' }
    else if d == 11 { 'b' }
    else if d == 12 { 'c' }
    else if d == 13 { 'd' }
    else if d == 14 { 'e' }
    else { 'f' }
}

/// Appends the JSON string literal for `s`, quotes included, to `out`.
pub fn push_json_string(out: &mut String, s: &str)
    ensures
        final(out)@ == old(out)@ + json_quoted(s@),
{
    crate::text::push_char(out, '"');
    push_json_escaped(out, s);
    crate::text::push_char(out, '"');
    proof {
        assert(old(out)@ + json_quoted(s@)
            =~= ((old(out)@ + seq!['"']) + json_escaped(s@)).push('"'));
    }
}

/// The JSON string literal for `s`, quotes included.
pub fn json_string(s: &str) -> (r: String)
    ensures
        r@ == json_quoted(s@),
{
    let mut out = String::new();
    push_json_string(&mut out, s);
    proof {
        assert(Seq::<char>::empty() + json_quoted(s@) =~= json_quoted(s@));
    }
    out
}

} // verus!
