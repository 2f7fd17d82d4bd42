//! Character-level text helpers shared by the adapters, the transcript
//! export/import format, and the wire-frame builders.

use vstd::prelude::*;

verus! {

/// ASCII whitespace, the set honoured by [`trim_str`].
pub open spec fn is_ws_char(c: char) -> bool {
    c == ' ' || c == '\t' || c == '\n' || c == '\r' || c == '\u{b}' || c == '\u{c}'
}

/// `s` without leading whitespace.
pub open spec fn trim_start_rec(s: Seq<char>) -> Seq<char>
    decreases s.len(),
{
    if s.len() > 0 && is_ws_char(s[0]) {
        trim_start_rec(s.drop_first())
    } else {
        s
    }
}

/// `s` without trailing whitespace.
pub open spec fn trim_end_rec(s: Seq<char>) -> Seq<char>
    decreases s.len(),
{
    if s.len() > 0 && is_ws_char(s[s.len() - 1]) {
        trim_end_rec(s.drop_last())
    } else {
        s
    }
}

/// `s` without leading or trailing whitespace.
pub open spec fn trimmed(s: Seq<char>) -> Seq<char> {
    trim_end_rec(trim_start_rec(s))
}

/// A string equal to its own trim: empty, or bordered by non-whitespace.
pub open spec fn is_trimmed(s: Seq<char>) -> bool {
    s.len() == 0 || (!is_ws_char(s[0]) && !is_ws_char(s[s.len() - 1]))
}

proof fn lemma_trim_start_skip(s: Seq<char>, i: int)
    requires
        0 <= i <= s.len(),
        forall|k: int| 0 <= k < i ==> is_ws_char(s[k]),
        i == s.len() || !is_ws_char(s[i]),
    ensures
        trim_start_rec(s) == s.subrange(i, s.len() as int),
    decreases i,
{
    if i == 0 {
        assert(trim_start_rec(s) == s);
        assert(s.subrange(0, s.len() as int) =~= s);
    } else {
        let t = s.drop_first();
        assert(is_ws_char(s[0]));
        assert(forall|k: int| 0 <= k < i - 1 ==> is_ws_char(t[k]));
        lemma_trim_start_skip(t, i - 1);
        assert(t.subrange(i - 1, t.len() as int) =~= s.subrange(i, s.len() as int));
    }
}

proof fn lemma_trim_end_take(s: Seq<char>, j: int)
    requires
        0 <= j <= s.len(),
        forall|k: int| j <= k < s.len() ==> is_ws_char(s[k]),
        j == 0 || !is_ws_char(s[j - 1]),
    ensures
        trim_end_rec(s) == s.subrange(0, j),
    decreases s.len() - j,
{
    if j == s.len() {
        assert(trim_end_rec(s) == s);
        assert(s.subrange(0, s.len() as int) =~= s);
    } else {
        let t = s.drop_last();
        assert(is_ws_char(s[s.len() - 1]));
        assert(forall|k: int| j <= k < t.len() ==> is_ws_char(t[k]));
        lemma_trim_end_take(t, j);
        assert(t.subrange(0, j) =~= s.subrange(0, j));
    }
}

/// Relies on `String::push` of std: appends exactly one character.
#[verifier::external_body]
pub fn push_char(s: &mut String, c: char)
    ensures
        final(s)@ == old(s)@.push(c),
{
    s.push(c);
}

/// Appends `suffix` to `s`; a named front for vstd's `String::append`.
pub fn push_str(s: &mut String, suffix: &str)
    ensures
        final(s)@ == old(s)@ + suffix@,
{
    s.append(suffix);
}

/// True iff `p` is a prefix of `s`.
pub fn starts_with(s: &str, p: &str) -> (b: bool)
    ensures
        b == (s@.len() >= p@.len() && s@.subrange(0, p@.len() as int) =~= p@),
{
    let n: usize = s.unicode_len();
    let pn: usize = p.unicode_len();
    if pn > n {
        return false;
    }
    let mut i: usize = 0;
    while i < pn
        invariant
            0 <= i <= pn,
            pn <= n,
            n == s@.len(),
            pn == p@.len(),
            forall|k: int| 0 <= k < i ==> s@[k] == p@[k],
        decreases pn - i,
    {
        if s.get_char(i) != p.get_char(i) {
            assert(s@.subrange(0, pn as int)[i as int] != p@[i as int]);
            return false;
        }
        i = i + 1;
    }
    assert(s@.subrange(0, pn as int) =~= p@);
    true
}

/// `s` with the prefix `p` removed, when `p` is a prefix of `s`.
pub fn strip_prefix(s: &str, p: &str) -> (r: Option<String>)
    ensures
        match r {
            Some(t) => s@.len() >= p@.len() && s@.subrange(0, p@.len() as int) == p@
                && t@ == s@.subrange(p@.len() as int, s@.len() as int),
            None => !(s@.len() >= p@.len() && s@.subrange(0, p@.len() as int) =~= p@),
        },
{
    if starts_with(s, p) {
        let n: usize = s.unicode_len();
        let pn: usize = p.unicode_len();
        Some(s.substring_char(pn, n).to_owned())
    } else {
        None
    }
}

/// Index of the first occurrence of `c` in `s`, if any.
pub fn find_char(s: &str, c: char) -> (r: Option<usize>)
    ensures
        match r {
            Some(i) => i < s@.len() && s@[i as int] == c
                && forall|k: int| 0 <= k < i ==> s@[k] != c,
            None => forall|k: int| 0 <= k < s@.len() ==> s@[k] != c,
        },
{
    let n: usize = s.unicode_len();
    let mut i: usize = 0;
    while i < n
        invariant
            0 <= i <= n,
            n == s@.len(),
            forall|k: int| 0 <= k < i ==> s@[k] != c,
        decreases n - i,
    {
        if s.get_char(i) == c {
            return Some(i);
        }
        i = i + 1;
    }
    None
}

/// True iff `c` occurs in `s`.
pub fn contains_char(s: &str, c: char) -> (b: bool)
    ensures
        b == exists|k: int| 0 <= k < s@.len() && s@[k] == c,
{
    match find_char(s, c) {
        Some(i) => {
            assert(0 <= i < s@.len() && s@[i as int] == c);
            true
        },
        None => false,
    }
}

/// True iff `sub` occurs in `s` starting at some position.
pub open spec fn occurs_at(s: Seq<char>, sub: Seq<char>, i: int) -> bool {
    0 <= i && i + sub.len() <= s.len() && s.subrange(i, i + sub.len() as int) =~= sub
}

/// True iff `sub` occurs somewhere in `s`.
pub fn contains_sub(s: &str, sub: &str) -> (b: bool)
    ensures
        b == exists|i: int| occurs_at(s@, sub@, i),
{
    let n: usize = s.unicode_len();
    let sn: usize = sub.unicode_len();
    if sn > n {
        assert(forall|i: int| !occurs_at(s@, sub@, i));
        return false;
    }
    let mut i: usize = 0;
    while i <= n - sn
        invariant
            0 <= i,
            i <= n - sn + 1,
            sn <= n,
            n == s@.len(),
            sn == sub@.len(),
            forall|k: int| 0 <= k < i ==> !occurs_at(s@, sub@, k),
        decreases n - i,
    {
        let piece = s.substring_char(i, i + sn);
        if str_eq(piece, sub) {
            assert(occurs_at(s@, sub@, i as int));
            return true;
        }
        assert(!occurs_at(s@, sub@, i as int));
        i = i + 1;
    }
    assert(forall|k: int| occurs_at(s@, sub@, k) ==> 0 <= k < i);
    false
}

/// Character-for-character string equality.
pub fn str_eq(a: &str, b: &str) -> (r: bool)
    ensures
        r == (a@ =~= b@),
{
    let an: usize = a.unicode_len();
    let bn: usize = b.unicode_len();
    if an != bn {
        return false;
    }
    let mut i: usize = 0;
    while i < an
        invariant
            0 <= i <= an,
            an == a@.len(),
            an == b@.len(),
            forall|k: int| 0 <= k < i ==> a@[k] == b@[k],
        decreases an - i,
    {
        if a.get_char(i) != b.get_char(i) {
            return false;
        }
        i = i + 1;
    }
    true
}

/// `s` without leading or trailing ASCII whitespace.
pub fn trim_str(s: &str) -> (r: String)
    ensures
        r@ == trimmed(s@),
{
    let n: usize = s.unicode_len();
    let mut start: usize = 0;
    while start < n && is_ws(s.get_char(start))
        invariant
            0 <= start <= n,
            n == s@.len(),
            forall|k: int| 0 <= k < start ==> is_ws_char(s@[k]),
        decreases n - start,
    {
        start = start + 1;
    }
    proof {
        lemma_trim_start_skip(s@, start as int);
    }
    if start == n {
        assert(trimmed(s@) =~= Seq::<char>::empty());
        return String::new();
    }
    let mut end: usize = n;
    while end > start && is_ws(s.get_char(end - 1))
        invariant
            start <= end <= n,
            n == s@.len(),
            forall|k: int| end <= k < n ==> is_ws_char(s@[k]),
            !is_ws_char(s@[start as int]),
        decreases end,
    {
        end = end - 1;
    }
    proof {
        let t = trim_start_rec(s@);
        assert(t == s@.subrange(start as int, n as int));
        assert(forall|k: int| end - start <= k < t.len() ==> is_ws_char(t[k]));
        assert(t[end - start - 1] == s@[end as int - 1]);
        lemma_trim_end_take(t, end - start);
        assert(t.subrange(0, end - start) =~= s@.subrange(start as int, end as int));
    }
    s.substring_char(start, end).to_owned()
}

/// Executable front for [`is_ws_char`].
pub fn is_ws(c: char) -> (b: bool)
    ensures
        b == is_ws_char(c),
{
    c == ' ' || c == '\t' || c == '\n' || c == '\r' || c == '\u{b}' || c == '\u{c}'
}

} // verus!

verus! {

/// A line with one trailing carriage return removed, as `str::lines` does.
pub open spec fn strip_cr(line: Seq<char>) -> Seq<char> {
    if line.len() > 0 && line[line.len() - 1] == '\r' {
        line.drop_last()
    } else {
        line
    }
}

/// Line splitting with an accumulator holding the line under construction.
pub open spec fn lines_acc(s: Seq<char>, cur: Seq<char>) -> Seq<Seq<char>>
    decreases s.len(),
{
    if s.len() == 0 {
        if cur.len() == 0 {
            Seq::empty()
        } else {
            seq![strip_cr(cur)]
        }
    } else if s[0] == '\n' {
        seq![strip_cr(cur)] + lines_acc(s.drop_first(), Seq::empty())
    } else {
        lines_acc(s.drop_first(), cur.push(s[0]))
    }
}

/// The lines of `s`: pieces split on `'\n'`, one trailing `'\r'` removed from
/// each, and no final empty piece (matching how `str::lines` reads text).
pub open spec fn lines_of(s: Seq<char>) -> Seq<Seq<char>> {
    lines_acc(s, Seq::empty())
}

/// Splits `s` into its lines.
pub fn split_lines(s: &str) -> (r: Vec<String>)
    ensures
        r.deep_view() =~= lines_of(s@),
{
    let n: usize = s.unicode_len();
    let mut out: Vec<String> = Vec::new();
    let mut cur: String = String::new();
    let mut i: usize = 0;
    proof {
        assert(s@.subrange(0, n as int) =~= s@);
        assert(out.deep_view() =~= Seq::<Seq<char>>::empty());
    }
    while i < n
        invariant
            0 <= i <= n,
            n == s@.len(),
            lines_of(s@) =~= out.deep_view() + lines_acc(s@.subrange(i as int, n as int), cur@),
        decreases n - i,
    {
        let c = s.get_char(i);
        let ghost rest = s@.subrange(i as int, n as int);
        proof {
            assert(rest[0] == c);
            assert(rest.drop_first() =~= s@.subrange(i as int + 1, n as int));
        }
        if c == '\n' {
            let finished = strip_cr_exec(&cur);
            let ghost old_out = out.deep_view();
            out.push(finished);
            proof {
                assert(out.deep_view() =~= old_out.push(strip_cr(cur@)));
                assert(lines_acc(rest, cur@) =~= seq![strip_cr(cur@)] + lines_acc(rest.drop_first(), Seq::empty()));
                assert(old_out + lines_acc(rest, cur@)
                    =~= old_out.push(strip_cr(cur@)) + lines_acc(rest.drop_first(), Seq::empty()));
            }
            cur = String::new();
        } else {
            push_char(&mut cur, c);
        }
        i = i + 1;
    }
    proof {
        assert(s@.subrange(n as int, n as int) =~= Seq::<char>::empty());
    }
    if cur.as_str().unicode_len() > 0 {
        let finished = strip_cr_exec(&cur);
        let ghost old_out = out.deep_view();
        out.push(finished);
        proof {
            assert(out.deep_view() =~= old_out.push(strip_cr(cur@)));
            assert(old_out + seq![strip_cr(cur@)] =~= old_out.push(strip_cr(cur@)));
        }
    }
    out
}

/// `line` with one trailing carriage return removed.
pub fn strip_cr_exec(line: &String) -> (r: String)
    ensures
        r@ == strip_cr(line@),
{
    let n: usize = line.as_str().unicode_len();
    if n > 0 && line.as_str().get_char(n - 1) == '\r' {
        assert(line@.subrange(0, n as int - 1) =~= line@.drop_last());
        line.as_str().substring_char(0, n - 1).to_owned()
    } else {
        line.clone()
    }
}

/// The decimal digits of `n`, most significant first.
pub open spec fn dec_of(n: nat) -> Seq<char>
    decreases n,
{
    if n < 10 {
        seq![dec_digit(n)]
    } else {
        dec_of(n / 10) + seq![dec_digit(n % 10)]
    }
}

/// The character for one decimal digit.
pub open spec fn dec_digit(d: nat) -> char {
    if d == 0 { '0' }
    else if d == 1 { '1' }
    else if d == 2 { '2' }
    else if d == 3 { '3' }
    else if d == 4 { '4' }
    else if d == 5 { '5' }
    else if d == 6 { '6' }
    else if d == 7 { '7' }
    else if d == 8 { '8' }
    else if d == 9 { '9' }
    else { '?' }
}

/// Renders `n` in decimal.
pub fn u64_to_string(n: u64) -> (r: String)
    ensures
        r@ == dec_of(n as nat),
{
    let mut digits: Vec<char> = Vec::new();
    let mut m: u64 = n;
    loop
        invariant_except_break
            dec_of(n as nat) =~= dec_of(m as nat) + digits@.reverse(),
        ensures
            dec_of(n as nat) =~= digits@.reverse(),
        decreases m,
    {
        let d: u64 = m % 10;
        let c = digit_char(d);
        let ghost old_digits = digits@;
        digits.push(c);
        proof {
            assert(digits@.reverse() =~= seq![c] + old_digits.reverse());
            if m >= 10 {
                assert(dec_of(m as nat) == dec_of((m / 10) as nat) + seq![dec_digit((m % 10) as nat)]);
                assert(dec_of((m / 10) as nat) + (seq![c] + old_digits.reverse())
                    =~= (dec_of((m / 10) as nat) + seq![c]) + old_digits.reverse());
            } else {
                assert(dec_of(m as nat) =~= seq![c]);
                assert(dec_of(n as nat) =~= digits@.reverse());
            }
        }
        if m < 10 {
            break;
        }
        m = m / 10;
    }
    let mut out: String = String::new();
    let mut i: usize = digits.len();
    while i > 0
        invariant
            0 <= i <= digits@.len(),
            out@ =~= digits@.subrange(i as int, digits@.len() as int).reverse(),
        decreases i,
    {
        i = i - 1;
        push_char(&mut out, digits[i]);
        proof {
            let tail = digits@.subrange(i as int + 1, digits@.len() as int);
            let full = digits@.subrange(i as int, digits@.len() as int);
            assert(full.drop_first() =~= tail);
            assert(full.reverse() =~= tail.reverse().push(digits@[i as int]));
        }
    }
    proof {
        assert(digits@.subrange(0, digits@.len() as int) =~= digits@);
    }
    out
}

/// The character for one decimal digit.
pub fn digit_char(d: u64) -> (c: char)
    requires
        d < 10,
    ensures
        c == dec_digit(d as nat),
{
    if d == 0 { '0' }
    else if d == 1 { '1' }
    else if d == 2 { '2' }
    else if d == 3 { '3' }
    else if d == 4 { '4' }
    else if d == 5 { '5' }
    else if d == 6 { '6' }
    else if d == 7 { '7' }
    else if d == 8 { '8' }
    else { '9' }
}

/// The decimal rendering of a signed count, a minus sign ahead of a
/// negative value's magnitude.
pub open spec fn dec_of_i64(n: int) -> Seq<char> {
    if n >= 0 {
        dec_of(n as nat)
    } else {
        seq!['-'] + dec_of((-n) as nat)
    }
}

/// Renders `n` in decimal with its sign.
pub fn i64_to_string(n: i64) -> (r: String)
    ensures
        r@ == dec_of_i64(n as int),
{
    if n >= 0 {
        u64_to_string(n as u64)
    } else {
        let mag: u64 = if n == i64::MIN {
            9223372036854775808u64
        } else {
            (-n) as u64
        };
        let mut out = String::from_str("-");
        proof {
            reveal_strlit("-");
        }
        let digits = u64_to_string(mag);
        push_str(&mut out, digits.as_str());
        assert(out@ =~= seq!['-'] + dec_of(mag as nat));
        out
    }
}

/// ASCII lowercase of one character; other characters pass unchanged.
pub open spec fn lower_char(c: char) -> char {
    if 'A' <= c <= 'Z' {
        ((c as u8) + 0x20) as char
    } else {
        c
    }
}

/// ASCII uppercase of one character; other characters pass unchanged.
pub open spec fn upper_char(c: char) -> char {
    if 'a' <= c <= 'z' {
        ((c as u8) - 0x20) as char
    } else {
        c
    }
}

/// `s` mapped through [`lower_char`].
pub open spec fn ascii_lower(s: Seq<char>) -> Seq<char> {
    s.map_values(|c: char| lower_char(c))
}

/// `s` mapped through [`upper_char`].
pub open spec fn ascii_upper(s: Seq<char>) -> Seq<char> {
    s.map_values(|c: char| upper_char(c))
}

/// ASCII-lowercases `s`.
pub fn to_ascii_lower(s: &str) -> (r: String)
    ensures
        r@ =~= ascii_lower(s@),
{
    let n: usize = s.unicode_len();
    let mut out: String = String::new();
    let mut i: usize = 0;
    while i < n
        invariant
            0 <= i <= n,
            n == s@.len(),
            out@ =~= s@.subrange(0, i as int).map_values(|c: char| lower_char(c)),
        decreases n - i,
    {
        let c = s.get_char(i);
        let lc: char = if 'A' <= c && c <= 'Z' {
            (((c as u8) + 0x20) as char)
        } else {
            c
        };
        push_char(&mut out, lc);
        proof {
            assert(s@.subrange(0, i as int + 1) =~= s@.subrange(0, i as int).push(c));
            assert(s@.subrange(0, i as int + 1).map_values(|x: char| lower_char(x))
                =~= s@.subrange(0, i as int).map_values(|x: char| lower_char(x)).push(lower_char(c)));
        }
        i = i + 1;
    }
    proof {
        assert(s@.subrange(0, n as int) =~= s@);
    }
    out
}

/// ASCII-uppercases `s`.
pub fn to_ascii_upper(s: &str) -> (r: String)
    ensures
        r@ =~= ascii_upper(s@),
{
    let n: usize = s.unicode_len();
    let mut out: String = String::new();
    let mut i: usize = 0;
    while i < n
        invariant
            0 <= i <= n,
            n == s@.len(),
            out@ =~= s@.subrange(0, i as int).map_values(|c: char| upper_char(c)),
        decreases n - i,
    {
        let c = s.get_char(i);
        let uc: char = if 'a' <= c && c <= 'z' {
            (((c as u8) - 0x20) as char)
        } else {
            c
        };
        push_char(&mut out, uc);
        proof {
            assert(s@.subrange(0, i as int + 1) =~= s@.subrange(0, i as int).push(c));
            assert(s@.subrange(0, i as int + 1).map_values(|x: char| upper_char(x))
                =~= s@.subrange(0, i as int).map_values(|x: char| upper_char(x)).push(upper_char(c)));
        }
        i = i + 1;
    }
    proof {
        assert(s@.subrange(0, n as int) =~= s@);
    }
    out
}

} // verus!

verus! {

/// The index of the first `c` at or after `i`, if any.
pub open spec fn find_from(s: Seq<char>, c: char, i: int) -> Option<int>
    decreases s.len() - i,
{
    if i < 0 || i >= s.len() {
        None
    } else if s[i] == c {
        Some(i)
    } else {
        find_from(s, c, i + 1)
    }
}

pub proof fn lemma_find_from_some(s: Seq<char>, c: char, i: int, j: int)
    requires
        0 <= j <= i < s.len(),
        s[i] == c,
        forall|k: int| j <= k < i ==> s[k] != c,
    ensures
        find_from(s, c, j) == Some(i),
    decreases i - j,
{
    if j < i {
        lemma_find_from_some(s, c, i, j + 1);
    }
}

pub proof fn lemma_find_from_none(s: Seq<char>, c: char, j: int)
    requires
        0 <= j <= s.len(),
        forall|k: int| j <= k < s.len() ==> s[k] != c,
    ensures
        find_from(s, c, j) is None,
    decreases s.len() - j,
{
    if j < s.len() {
        lemma_find_from_none(s, c, j + 1);
    }
}

} // verus!

verus! {

/// What [`find_from`] returns: the first occurrence at or after `j`, or a
/// guarantee that none exists.
pub proof fn lemma_find_from_props(s: Seq<char>, c: char, j: int)
    requires
        0 <= j <= s.len(),
    ensures
        match find_from(s, c, j) {
            Some(p) => j <= p < s.len() && s[p] == c && forall|k: int| j <= k < p ==> s[k] != c,
            None => forall|k: int| j <= k < s.len() ==> s[k] != c,
        },
    decreases s.len() - j,
{
    if j < s.len() && s[j] != c {
        lemma_find_from_props(s, c, j + 1);
    }
}

} // verus!
