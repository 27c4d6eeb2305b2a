//! Character-level helpers on strings: equality, decimal numbers, Unicode
//! whitespace, splitting and trimming.

use vstd::prelude::*;

verus! {

/// The Unicode `White_Space` property, the set that `char::is_whitespace` tests.
pub open spec fn is_ws(c: char) -> bool {
    let v = c as u32;
    (0x09 <= v && v <= 0x0D) || v == 0x20 || v == 0x85 || v == 0xA0 || v == 0x1680
        || (0x2000 <= v && v <= 0x200A) || v == 0x2028 || v == 0x2029 || v == 0x202F
        || v == 0x205F || v == 0x3000
}

/// Whether `c` is Unicode whitespace.
pub fn is_whitespace_char(c: char) -> (r: bool)
    ensures
        r == is_ws(c),
{
    let v = c as u32;
    (0x09 <= v && v <= 0x0D) || v == 0x20 || v == 0x85 || v == 0xA0 || v == 0x1680
        || (0x2000 <= v && v <= 0x200A) || v == 0x2028 || v == 0x2029 || v == 0x202F
        || v == 0x205F || v == 0x3000
}

/// Character-by-character equality of two strings.
pub fn str_eq(a: &str, b: &str) -> (r: bool)
    ensures
        r == (a@ == b@),
{
    let n = a.unicode_len();
    let m = b.unicode_len();
    if n != m {
        return false;
    }
    let mut i: usize = 0;
    while i < n
        invariant
            n == a@.len(),
            m == b@.len(),
            n == m,
            i <= n,
            a@.subrange(0, i as int) == b@.subrange(0, i as int),
        decreases n - i,
    {
        if a.get_char(i) != b.get_char(i) {
            return false;
        }
        assert(a@.subrange(0, i + 1) == a@.subrange(0, i as int).push(a@[i as int]));
        assert(b@.subrange(0, i + 1) == b@.subrange(0, i as int).push(b@[i as int]));
        i = i + 1;
    }
    assert(a@ == a@.subrange(0, n as int));
    assert(b@ == b@.subrange(0, n as int));
    true
}

/// Whether `c` is one of the ASCII digits `0`..`9`.
pub open spec fn is_digit(c: char) -> bool {
    '0' <= c && c <= '9'
}

/// The value of an ASCII digit.
pub open spec fn digit_value(c: char) -> nat {
    (c as u32 - '0' as u32) as nat
}

/// Whether every character of `s` is an ASCII digit.
pub open spec fn all_digits(s: Seq<char>) -> bool {
    forall|k: int| 0 <= k < s.len() ==> is_digit(#[trigger] s[k])
}

/// The number that the digits of `s` write in base ten.
pub open spec fn digits_value(s: Seq<char>) -> nat
    decreases s.len(),
{
    if s.len() == 0 {
        0
    } else {
        10 * digits_value(s.drop_last()) + digit_value(s.last())
    }
}

/// The digits after an optional leading `+`.
pub open spec fn unsigned_body(s: Seq<char>) -> Seq<char> {
    if s.len() > 0 && s[0] == '+' {
        s.drop_first()
    } else {
        s
    }
}

/// What parsing `s` as a `u64` gives: an optional `+`, then one or more
/// decimal digits whose value fits in 64 bits.
pub open spec fn parse_u64_spec(s: Seq<char>) -> Option<u64> {
    let body = unsigned_body(s);
    if body.len() > 0 && all_digits(body) && digits_value(body) <= u64::MAX {
        Some(digits_value(body) as u64)
    } else {
        None
    }
}

proof fn lemma_digits_prefix_le(s: Seq<char>, j: int)
    requires
        0 <= j <= s.len(),
        all_digits(s),
    ensures
        digits_value(s.subrange(0, j)) <= digits_value(s),
    decreases s.len(),
{
    if j < s.len() {
        let t = s.drop_last();
        assert(all_digits(t)) by {
            assert forall|k: int| 0 <= k < t.len() implies is_digit(#[trigger] t[k]) by {
                assert(t[k] == s[k]);
            }
        }
        lemma_digits_prefix_le(t, j);
        assert(t.subrange(0, j) == s.subrange(0, j));
    } else {
        assert(s.subrange(0, j) == s);
    }
}

/// Parses a decimal `u64`, as `str::parse::<u64>` does.
pub fn parse_u64(s: &str) -> (r: Option<u64>)
    ensures
        r == parse_u64_spec(s@),
{
    let n = s.unicode_len();
    let mut start: usize = 0;
    if n > 0 && s.get_char(0) == '+' {
        start = 1;
    }
    let ghost body = unsigned_body(s@);
    assert(body == s@.subrange(start as int, n as int));
    if start == n {
        return None;
    }
    let mut acc: u64 = 0;
    let mut i: usize = start;
    while i < n
        invariant
            n == s@.len(),
            start <= i <= n,
            body == s@.subrange(start as int, n as int),
            body == unsigned_body(s@),
            all_digits(body.subrange(0, i - start)),
            acc as nat == digits_value(body.subrange(0, i - start)),
        decreases n - i,
    {
        let c = s.get_char(i);
        let ghost pre = body.subrange(0, i - start);
        let ghost next = body.subrange(0, i - start + 1);
        assert(next.drop_last() == pre);
        assert(next.last() == c);
        if !('0' <= c && c <= '9') {
            assert(!all_digits(body)) by {
                assert(body[i - start] == c);
                assert(!is_digit(body[i - start]));
            }
            assert(parse_u64_spec(s@).is_none());
            return None;
        }
        let d = (c as u32 - '0' as u32) as u64;
        assert(all_digits(next)) by {
            assert forall|k: int| 0 <= k < next.len() implies is_digit(#[trigger] next[k]) by {
                if k < pre.len() {
                    assert(next[k] == pre[k]);
                }
            }
        }
        assert(digits_value(next) == 10 * digits_value(pre) + d);
        match acc.checked_mul(10) {
            Some(t) => match t.checked_add(d) {
                Some(v) => {
                    acc = v;
                },
                None => {
                    proof {
                        if all_digits(body) {
                            lemma_digits_prefix_le(body, i - start + 1);
                        }
                    }
                    assert(parse_u64_spec(s@).is_none());
                    return None;
                },
            },
            None => {
                proof {
                    if all_digits(body) {
                        lemma_digits_prefix_le(body, i - start + 1);
                    }
                    assert(acc * 10 > u64::MAX);
                    assert(digits_value(next) > u64::MAX) by (nonlinear_arith)
                        requires
                            digits_value(next) == 10 * digits_value(pre) + d,
                            acc as nat == digits_value(pre),
                            acc * 10 > u64::MAX,
                    ;
                }
                assert(parse_u64_spec(s@).is_none());
                return None;
            },
        }
        i = i + 1;
    }
    assert(body.subrange(0, n - start) == body);
    Some(acc)
}

/// The views of a sequence of strings.
pub open spec fn views(v: Seq<String>) -> Seq<Seq<char>> {
    v.map_values(|x: String| x@)
}

/// The pieces of `s` between occurrences of `sep`, as `str::split` gives them:
/// `k` separators give `k + 1` pieces, empty ones included.
pub open spec fn split_on(s: Seq<char>, sep: char) -> Seq<Seq<char>>
    decreases s.len(),
{
    if s.len() == 0 {
        seq![Seq::empty()]
    } else {
        let init = split_on(s.drop_last(), sep);
        if s.last() == sep {
            init.push(Seq::empty())
        } else {
            init.update(init.len() - 1, init.last().push(s.last()))
        }
    }
}

proof fn lemma_split_nonempty(s: Seq<char>, sep: char)
    ensures
        split_on(s, sep).len() >= 1,
    decreases s.len(),
{
    if s.len() > 0 {
        lemma_split_nonempty(s.drop_last(), sep);
    }
}

/// Splits `s` at every `sep`.
pub fn split_on_char(s: &str, sep: char) -> (r: Vec<String>)
    ensures
        views(r@) == split_on(s@, sep),
{
    let n = s.unicode_len();
    let mut pieces: Vec<String> = Vec::new();
    let mut start: usize = 0;
    let mut i: usize = 0;
    assert(s@.subrange(0, 0) =~= Seq::<char>::empty());
    assert(views(pieces@).push(s@.subrange(0, 0)) =~= seq![Seq::<char>::empty()]);
    while i < n
        invariant
            n == s@.len(),
            start <= i <= n,
            split_on(s@.subrange(0, i as int), sep) == views(pieces@).push(
                s@.subrange(start as int, i as int),
            ),
        decreases n - i,
    {
        let c = s.get_char(i);
        let ghost pre = s@.subrange(0, i as int);
        let ghost cur = s@.subrange(0, i + 1);
        assert(cur.drop_last() == pre);
        assert(cur.last() == c);
        proof {
            lemma_split_nonempty(pre, sep);
        }
        if c == sep {
            let ghost before = pieces@;
            let piece = String::from_str(s.substring_char(start, i));
            pieces.push(piece);
            assert(views(pieces@) =~= views(before).push(s@.subrange(start as int, i as int)));
            start = i + 1;
            assert(s@.subrange(start as int, i + 1) =~= Seq::<char>::empty());
            assert(split_on(cur, sep) =~= views(pieces@).push(s@.subrange(start as int, i + 1)));
        } else {
            assert(s@.subrange(start as int, i + 1) =~= s@.subrange(start as int, i as int).push(
                c,
            ));
            assert(split_on(cur, sep) =~= views(pieces@).push(s@.subrange(start as int, i + 1)));
        }
        i = i + 1;
    }
    assert(s@.subrange(0, n as int) == s@);
    let last = String::from_str(s.substring_char(start, n));
    pieces.push(last);
    assert(views(pieces@) =~= split_on(s@, sep));
    pieces
}

/// `s` without its leading whitespace.
pub open spec fn trim_start(s: Seq<char>) -> Seq<char>
    decreases s.len(),
{
    if s.len() > 0 && is_ws(s[0]) {
        trim_start(s.drop_first())
    } else {
        s
    }
}

/// `s` without its trailing whitespace.
pub open spec fn trim_end(s: Seq<char>) -> Seq<char>
    decreases s.len(),
{
    if s.len() > 0 && is_ws(s.last()) {
        trim_end(s.drop_last())
    } else {
        s
    }
}

/// `s` without leading and trailing whitespace, as `str::trim` gives it.
pub open spec fn trim(s: Seq<char>) -> Seq<char> {
    trim_end(trim_start(s))
}

/// Removes leading and trailing whitespace.
pub fn trim_str(s: &str) -> (r: String)
    ensures
        r@ == trim(s@),
{
    let n = s.unicode_len();
    let mut i: usize = 0;
    assert(s@.subrange(0, n as int) == s@);
    while i < n && is_whitespace_char(s.get_char(i))
        invariant
            n == s@.len(),
            i <= n,
            trim_start(s@) == trim_start(s@.subrange(i as int, n as int)),
        decreases n - i,
    {
        assert(s@.subrange(i as int, n as int).drop_first() == s@.subrange(i + 1, n as int));
        i = i + 1;
    }
    let ghost rest = s@.subrange(i as int, n as int);
    assert(trim_start(s@) == rest);
    let mut j: usize = n;
    while j > i && is_whitespace_char(s.get_char(j - 1))
        invariant
            n == s@.len(),
            i <= j <= n,
            rest == s@.subrange(i as int, n as int),
            trim_end(rest) == trim_end(s@.subrange(i as int, j as int)),
        decreases j,
    {
        assert(s@.subrange(i as int, j as int).drop_last() == s@.subrange(i as int, j - 1));
        j = j - 1;
    }
    String::from_str(s.substring_char(i, j))
}

/// The maximal runs of non-whitespace characters of `s`, as
/// `str::split_whitespace` gives them.
pub open spec fn ws_tokens(s: Seq<char>) -> Seq<Seq<char>>
    decreases s.len(),
{
    if s.len() == 0 {
        Seq::empty()
    } else {
        let init = ws_tokens(s.drop_last());
        if is_ws(s.last()) {
            init
        } else if s.len() >= 2 && !is_ws(s[s.len() - 2]) {
            init.update(init.len() - 1, init.last().push(s.last()))
        } else {
            init.push(seq![s.last()])
        }
    }
}

/// Splits `s` into its whitespace-separated tokens.
pub fn whitespace_tokens(s: &str) -> (r: Vec<String>)
    ensures
        views(r@) == ws_tokens(s@),
{
    let n = s.unicode_len();
    let mut toks: Vec<String> = Vec::new();
    let mut in_token = false;
    let mut start: usize = 0;
    let mut i: usize = 0;
    assert(s@.subrange(0, 0) =~= Seq::<char>::empty());
    assert(views(toks@) =~= Seq::<Seq<char>>::empty());
    while i < n
        invariant
            n == s@.len(),
            start <= i <= n,
            in_token == (i > 0 && !is_ws(s@[i - 1])),
            in_token ==> start < i,
            in_token ==> ws_tokens(s@.subrange(0, i as int)) == views(toks@).push(
                s@.subrange(start as int, i as int),
            ),
            !in_token ==> ws_tokens(s@.subrange(0, i as int)) == views(toks@),
        decreases n - i,
    {
        let c = s.get_char(i);
        let ghost pre = s@.subrange(0, i as int);
        let ghost cur = s@.subrange(0, i + 1);
        assert(cur.drop_last() == pre);
        assert(cur.last() == c);
        if is_whitespace_char(c) {
            if in_token {
                let ghost before = toks@;
                let t = String::from_str(s.substring_char(start, i));
                toks.push(t);
                assert(views(toks@) =~= views(before).push(s@.subrange(start as int, i as int)));
                in_token = false;
            }
        } else {
            if in_token {
                assert(cur[cur.len() - 2] == s@[i - 1]);
                assert(s@.subrange(start as int, i + 1) =~= s@.subrange(start as int, i as int).push(
                    c,
                ));
                assert(ws_tokens(cur) =~= views(toks@).push(s@.subrange(start as int, i + 1)));
            } else {
                if i > 0 {
                    assert(cur[cur.len() - 2] == s@[i - 1]);
                }
                start = i;
                in_token = true;
                assert(s@.subrange(start as int, i + 1) =~= seq![c]);
                assert(ws_tokens(cur) =~= views(toks@).push(s@.subrange(start as int, i + 1)));
            }
        }
        i = i + 1;
    }
    assert(s@.subrange(0, n as int) == s@);
    if in_token {
        let ghost before = toks@;
        let t = String::from_str(s.substring_char(start, n));
        toks.push(t);
        assert(views(toks@) =~= views(before).push(s@.subrange(start as int, n as int)));
    }
    toks
}

/// Whether `s` begins with `prefix`.
pub open spec fn has_prefix(s: Seq<char>, prefix: Seq<char>) -> bool {
    prefix.len() <= s.len() && s.subrange(0, prefix.len() as int) == prefix
}

/// Whether `s` begins with `prefix`, as `str::starts_with` tests it.
pub fn starts_with(s: &str, prefix: &str) -> (r: bool)
    ensures
        r == has_prefix(s@, prefix@),
{
    let n = s.unicode_len();
    let m = prefix.unicode_len();
    if m > n {
        return false;
    }
    let mut i: usize = 0;
    while i < m
        invariant
            n == s@.len(),
            m == prefix@.len(),
            m <= n,
            i <= m,
            s@.subrange(0, i as int) == prefix@.subrange(0, i as int),
        decreases m - i,
    {
        if s.get_char(i) != prefix.get_char(i) {
            assert(s@.subrange(0, m as int)[i as int] == s@[i as int]);
            return false;
        }
        assert(s@.subrange(0, i + 1) == s@.subrange(0, i as int).push(s@[i as int]));
        assert(prefix@.subrange(0, i + 1) == prefix@.subrange(0, i as int).push(prefix@[i as int]));
        i = i + 1;
    }
    assert(prefix@ == prefix@.subrange(0, m as int));
    true
}

/// The character that writes the decimal digit `d`.
pub open spec fn digit_char(d: nat) -> char {
    if d == 0 { '0' }
    else if d == 1 { '1' }
    else if d == 2 { '2' }
    else if d == 3 { '3' }
    else if d == 4 { '4' }
    else if d == 5 { '5' }
    else if d == 6 { '6' }
    else if d == 7 { '7' }
    else if d == 8 { '8' }
    else { '9' }
}

/// The decimal writing of `n`, without leading zeros.
pub open spec fn decimal(n: nat) -> Seq<char>
    decreases n,
{
    if n < 10 {
        seq![digit_char(n)]
    } else {
        decimal(n / 10).push(digit_char(n % 10))
    }
}

fn digit_str(d: u64) -> (r: &'static str)
    requires
        d < 10,
    ensures
        r@ == seq![digit_char(d as nat)],
{
    if d == 0 {
        proof { reveal_strlit("0"); }
        "0"
    } else if d == 1 {
        proof { reveal_strlit("1"); }
        "1"
    } else if d == 2 {
        proof { reveal_strlit("2"); }
        "2"
    } else if d == 3 {
        proof { reveal_strlit("3"); }
        "3"
    } else if d == 4 {
        proof { reveal_strlit("4"); }
        "4"
    } else if d == 5 {
        proof { reveal_strlit("5"); }
        "5"
    } else if d == 6 {
        proof { reveal_strlit("6"); }
        "6"
    } else if d == 7 {
        proof { reveal_strlit("7"); }
        "7"
    } else if d == 8 {
        proof { reveal_strlit("8"); }
        "8"
    } else {
        proof { reveal_strlit("9"); }
        "9"
    }
}

/// Appends the decimal writing of `n` to `out`.
pub fn push_decimal(out: &mut String, n: u64)
    ensures
        final(out)@ == old(out)@ + decimal(n as nat),
    decreases n,
{
    let ghost before = out@;
    if n >= 10 {
        push_decimal(out, n / 10);
    }
    out.append(digit_str(n % 10));
    assert(out@ =~= before + decimal(n as nat)) by {
        if n >= 10 {
            assert(decimal(n as nat) == decimal((n / 10) as nat).push(digit_char((n % 10) as nat)));
        }
    }
}

} // verus!
