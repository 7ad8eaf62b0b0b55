use vstd::prelude::*;

verus! {

/// The ASCII white-space characters that separate words of a command.
pub open spec fn is_ws(c: char) -> bool {
    c == ' ' || c == '\t' || c == '\n' || c == '\r'
}

pub open spec fn is_digit(c: char) -> bool {
    '0' <= c && c <= '9'
}

pub open spec fn digit_value(c: char) -> int {
    c as int - '0' as int
}

/// A non-empty run of ASCII digits.
pub open spec fn all_digits(s: Seq<char>) -> bool {
    s.len() > 0 && forall|i: int| 0 <= i < s.len() ==> is_digit(#[trigger] s[i])
}

/// The number that a run of decimal digits writes.
pub open spec fn digits_value(s: Seq<char>) -> int
    decreases s.len(),
{
    if s.len() == 0 {
        0
    } else {
        digits_value(s.drop_last()) * 10 + digit_value(s.last())
    }
}

/// The integer an optionally signed run of decimal digits writes.
pub open spec fn decimal_int(s: Seq<char>) -> Option<int> {
    if s.len() > 0 && s[0] == '-' && all_digits(s.skip(1)) {
        Some(-digits_value(s.skip(1)))
    } else if s.len() > 0 && s[0] == '+' && all_digits(s.skip(1)) {
        Some(digits_value(s.skip(1)))
    } else if all_digits(s) {
        Some(digits_value(s))
    } else {
        None
    }
}

/// The words of `s`: its maximal runs of characters other than white space.
pub open spec fn words(s: Seq<char>) -> Seq<Seq<char>>
    decreases s.len(),
{
    if s.len() == 0 {
        Seq::empty()
    } else {
        let w = words(s.drop_last());
        let c = s.last();
        if is_ws(c) {
            w
        } else if s.len() >= 2 && !is_ws(s[s.len() - 2]) {
            w.update(w.len() - 1, w.last().push(c))
        } else {
            w.push(seq![c])
        }
    }
}

/// `s` with white space removed from both ends.
pub open spec fn trim(s: Seq<char>) -> Seq<char> {
    s.subrange(leading_ws(s), s.len() - trailing_ws(s.subrange(leading_ws(s), s.len() as int)))
}

/// The number of dots that `s` starts with.
pub open spec fn leading_dots(s: Seq<char>) -> int
    decreases s.len(),
{
    if s.len() == 0 || s[0] != '.' {
        0
    } else {
        1 + leading_dots(s.skip(1))
    }
}

/// `s` without the dots it starts with.
pub fn strip_leading_dots(s: &str) -> (r: &str)
    ensures
        r@ == s@.skip(leading_dots(s@)),
{
    let n = s.unicode_len();
    let mut a: usize = 0;
    assert(s@.skip(0) =~= s@);
    while a < n && s.get_char(a) == '.'
        invariant
            a <= n,
            n == s@.len(),
            leading_dots(s@) == a + leading_dots(s@.skip(a as int)),
        decreases n - a,
    {
        assert(s@.skip(a as int).skip(1) =~= s@.skip(a + 1));
        a = a + 1;
    }
    let r = s.substring_char(a, n);
    assert(r@ =~= s@.skip(a as int));
    r
}

/// The number of white-space characters that `s` starts with.
pub open spec fn leading_ws(s: Seq<char>) -> int
    decreases s.len(),
{
    if s.len() == 0 || !is_ws(s[0]) {
        0
    } else {
        1 + leading_ws(s.skip(1))
    }
}

/// The number of white-space characters that `s` ends with.
pub open spec fn trailing_ws(s: Seq<char>) -> int
    decreases s.len(),
{
    if s.len() == 0 || !is_ws(s.last()) {
        0
    } else {
        1 + trailing_ws(s.drop_last())
    }
}

/// The characters of `s`.
pub fn chars_of(s: &str) -> (r: Vec<char>)
    ensures
        r@ == s@,
{
    let n = s.unicode_len();
    let mut r: Vec<char> = Vec::new();
    let mut i: usize = 0;
    while i < n
        invariant
            n == s@.len(),
            i <= n,
            r@ == s@.subrange(0, i as int),
        decreases n - i,
    {
        r.push(s.get_char(i));
        i = i + 1;
        assert(r@ =~= s@.subrange(0, i as int));
    }
    assert(s@.subrange(0, n as int) =~= s@);
    r
}

/// Whether `s` begins with `prefix`.
pub fn has_prefix(s: &Vec<char>, prefix: &str) -> (r: bool)
    ensures
        r == (prefix@.len() <= s@.len() && s@.subrange(0, prefix@.len() as int) == prefix@),
{
    let p = prefix.unicode_len();
    if p > s.len() {
        return false;
    }
    let mut i: usize = 0;
    while i < p
        invariant
            p == prefix@.len(),
            p <= s@.len(),
            i <= p,
            forall|k: int| 0 <= k < i ==> s@[k] == prefix@[k],
        decreases p - i,
    {
        if s[i] != prefix.get_char(i) {
            assert(s@.subrange(0, p as int)[i as int] != prefix@[i as int]);
            return false;
        }
        i = i + 1;
    }
    assert(s@.subrange(0, p as int) =~= prefix@);
    true
}

/// Whether `s` is exactly `word`.
pub fn is_word(s: &Vec<char>, word: &str) -> (r: bool)
    ensures
        r == (s@ == word@),
{
    if s.len() != word.unicode_len() {
        return false;
    }
    let b = has_prefix(s, word);
    assert(s@ =~= s@.subrange(0, word@.len() as int));
    b
}

/// The characters of `s` from `from` on.
pub fn suffix(s: &Vec<char>, from: usize) -> (r: Vec<char>)
    requires
        from <= s@.len(),
    ensures
        r@ == s@.skip(from as int),
{
    let mut r: Vec<char> = Vec::new();
    let mut k: usize = from;
    while k < s.len()
        invariant
            from <= k <= s@.len(),
            r@ == s@.subrange(from as int, k as int),
        decreases s@.len() - k,
    {
        r.push(s[k]);
        k = k + 1;
        assert(r@ =~= s@.subrange(from as int, k as int));
    }
    assert(r@ =~= s@.skip(from as int));
    r
}

/// The characters of `s` from `from` on, with white space removed from both ends.
pub fn trimmed_rest(s: &Vec<char>, from: usize) -> (r: Vec<char>)
    requires
        from <= s@.len(),
    ensures
        r@ == trim(s@.skip(from as int)),
{
    let ghost rest = s@.skip(from as int);
    let mut a: usize = from;
    while a < s.len() && (s[a] == ' ' || s[a] == '\t' || s[a] == '\n' || s[a] == '\r')
        invariant
            from <= a <= s@.len(),
            leading_ws(rest) == (a - from) + leading_ws(s@.skip(a as int)),
        decreases s@.len() - a,
    {
        assert(s@.skip(a as int).skip(1) =~= s@.skip(a + 1));
        a = a + 1;
    }
    assert(leading_ws(s@.skip(a as int)) == 0);
    let ghost body = rest.subrange(leading_ws(rest), rest.len() as int);
    assert(body =~= s@.subrange(a as int, s@.len() as int));
    let mut b: usize = s.len();
    while b > a && (s[b - 1] == ' ' || s[b - 1] == '\t' || s[b - 1] == '\n' || s[b - 1] == '\r')
        invariant
            a <= b <= s@.len(),
            trailing_ws(body) == (s@.len() - b) + trailing_ws(s@.subrange(a as int, b as int)),
        decreases b,
    {
        assert(s@.subrange(a as int, b as int).drop_last() =~= s@.subrange(a as int, b - 1));
        b = b - 1;
    }
    assert(trailing_ws(s@.subrange(a as int, b as int)) == 0);
    let mut r: Vec<char> = Vec::new();
    let mut k: usize = a;
    while k < b
        invariant
            a <= k <= b,
            b <= s@.len(),
            r@ == s@.subrange(a as int, k as int),
        decreases b - k,
    {
        r.push(s[k]);
        k = k + 1;
        assert(r@ =~= s@.subrange(a as int, k as int));
    }
    assert(r@ =~= trim(rest));
    r
}

/// Every character of `s` is a digit; `s` may be empty.
pub open spec fn only_digits(s: Seq<char>) -> bool {
    forall|i: int| 0 <= i < s.len() ==> is_digit(#[trigger] s[i])
}

/// Ceiling that the digit reader never goes beyond; it is above every
/// value that the parsers accept.
pub const DIGITS_CAP: u64 = 1_000_000_000_000_000_000;

pub open spec fn capped(v: int) -> int {
    if v > DIGITS_CAP as int { DIGITS_CAP as int } else { v }
}

proof fn lemma_digits_value_nonneg(s: Seq<char>)
    requires
        only_digits(s),
    ensures
        digits_value(s) >= 0,
    decreases s.len(),
{
    if s.len() > 0 {
        lemma_digits_value_nonneg(s.drop_last());
    }
}

/// The value of the digits `s[from..to]`, held at `DIGITS_CAP`; `None`
/// when a character there is not a digit.
pub fn read_digits(s: &Vec<char>, from: usize, to: usize) -> (r: Option<u64>)
    requires
        from <= to <= s@.len(),
    ensures
        match r {
            Some(v) => only_digits(s@.subrange(from as int, to as int)) && v as int == capped(
                digits_value(s@.subrange(from as int, to as int)),
            ),
            None => !only_digits(s@.subrange(from as int, to as int)),
        },
{
    let mut acc: u64 = 0;
    let mut i: usize = from;
    while i < to
        invariant
            from <= i <= to,
            to <= s@.len(),
            only_digits(s@.subrange(from as int, i as int)),
            acc as int == capped(digits_value(s@.subrange(from as int, i as int))),
            acc <= DIGITS_CAP,
        decreases to - i,
    {
        let c = s[i];
        if !('0' <= c && c <= '9') {
            assert(!is_digit(s@.subrange(from as int, to as int)[i - from]));
            return None;
        }
        let d: u64 = (c as u32 - '0' as u32) as u64;
        let ghost prev = s@.subrange(from as int, i as int);
        let ghost next = s@.subrange(from as int, i + 1);
        assert(next.drop_last() =~= prev);
        proof {
            lemma_digits_value_nonneg(prev);
        }
        if acc >= DIGITS_CAP / 10 {
            acc = DIGITS_CAP;
            assert(digits_value(next) == digits_value(prev) * 10 + d);
            assert(digits_value(prev) >= DIGITS_CAP / 10);
            assert(digits_value(prev) * 10 >= DIGITS_CAP) by (nonlinear_arith)
                requires
                    digits_value(prev) >= DIGITS_CAP / 10,
            ;
        } else {
            acc = acc * 10 + d;
            if acc > DIGITS_CAP {
                acc = DIGITS_CAP;
            }
        }
        i = i + 1;
    }
    Some(acc)
}

/// The message of an argument that does not parse.
pub open spec fn invalid_argument_text(argument_name: Seq<char>, v: Seq<char>) -> Seq<char> {
    "invalid "@ + argument_name + ": '"@ + v + "'"@
}

pub fn invalid_argument(argument_name: &str, v: &str) -> (r: String)
    ensures
        r@ == invalid_argument_text(argument_name@, v@),
{
    let mut r = String::from_str("invalid ");
    r.append(argument_name);
    r.append(": '");
    r.append(v);
    r.append("'");
    r
}

/// Reads a signed decimal integer, as Rust writes an `i32`; the error names
/// the argument and repeats what was given.
pub fn parse_int(v: &str, argument_name: &str) -> (r: Result<i32, String>)
    ensures
        match r {
            Ok(n) => decimal_int(v@) == Some(n as int),
            Err(e) => e@ == invalid_argument_text(argument_name@, v@) && match decimal_int(v@) {
                Some(n) => n < i32::MIN || n > i32::MAX,
                None => true,
            },
        },
{
    let s = chars_of(v);
    let n = s.len();
    let (negative, start): (bool, usize) = if n > 0 && s[0] == '-' {
        (true, 1)
    } else if n > 0 && s[0] == '+' {
        (false, 1)
    } else {
        (false, 0)
    };
    if start == n {
        assert(!all_digits(s@.skip(start as int)));
        assert(s@.len() > 0 ==> !is_digit(s@[0]) || start == 0);
        return Err(invalid_argument(argument_name, v));
    }
    let digits = read_digits(&s, start, n);
    assert(s@.subrange(start as int, n as int) =~= s@.skip(start as int));
    match digits {
        None => {
            proof {
                if start == 1 {
                    assert(!is_digit(s@[0]));
                }
            }
            Err(invalid_argument(argument_name, v))
        },
        Some(value) => {
            let ghost d = digits_value(s@.skip(start as int));
            proof {
                assert(all_digits(s@.skip(start as int)));
                if start == 1 {
                    assert(!is_digit(s@[0]));
                    if negative {
                        assert(decimal_int(v@) == Some(-d));
                    } else {
                        assert(decimal_int(v@) == Some(d));
                    }
                } else {
                    assert(s@.skip(0) =~= s@);
                    assert(decimal_int(v@) == Some(d));
                }
            }
            if negative {
                if value > 2147483648 {
                    Err(invalid_argument(argument_name, v))
                } else {
                    Ok((0 - value as i64) as i32)
                }
            } else {
                if value > 2147483647 {
                    Err(invalid_argument(argument_name, v))
                } else {
                    Ok(value as i32)
                }
            }
        },
    }
}

/// Thousandths written by the digits after a decimal point; later digits
/// are cut off.
pub open spec fn thousandths(f: Seq<char>) -> int {
    if f.len() >= 3 {
        digits_value(f.subrange(0, 3))
    } else if f.len() == 2 {
        digits_value(f) * 10
    } else if f.len() == 1 {
        digits_value(f) * 100
    } else {
        0
    }
}

/// `body` is a decimal number without sign whose point, if any, stands at
/// `d` (`d` is the length when there is none): digits, then optionally a
/// point and digits, with at least one digit in all.
pub open spec fn decimal_at(body: Seq<char>, d: int) -> bool {
    &&& 0 <= d <= body.len()
    &&& only_digits(body.subrange(0, d))
    &&& if d == body.len() {
        d > 0
    } else {
        body[d] == '.' && only_digits(body.skip(d + 1)) && body.len() > 1
    }
}

/// The thousandths that `body`, split at `d`, writes.
pub open spec fn decimal_value(body: Seq<char>, d: int) -> int {
    digits_value(body.subrange(0, d)) * 1000 + if d < body.len() {
        thousandths(body.skip(d + 1))
    } else {
        0
    }
}

/// Length of the sign that `s` starts with, if any.
pub open spec fn sign_len(s: Seq<char>) -> int {
    if s.len() > 0 && (s[0] == '-' || s[0] == '+') {
        1
    } else {
        0
    }
}

/// The signed number, in thousandths, that `s` writes when split at `d`.
pub open spec fn signed_decimal(s: Seq<char>, d: int) -> int {
    let v = decimal_value(s.skip(sign_len(s)), d);
    if s.len() > 0 && s[0] == '-' {
        -v
    } else {
        v
    }
}

/// The thousandths written by the digits `s[from..]`, or `None` when a
/// character there is not a digit.
fn read_fraction(s: &Vec<char>, from: usize) -> (r: Option<u64>)
    requires
        from <= s@.len(),
    ensures
        match r {
            Some(f) => only_digits(s@.skip(from as int)) && f as int == thousandths(s@.skip(from as int)) && f <= 999,
            None => !only_digits(s@.skip(from as int)),
        },
{
    let n = s.len();
    let all = read_digits(s, from, n);
    assert(s@.subrange(from as int, n as int) =~= s@.skip(from as int));
    let ghost fs = s@.skip(from as int);
    let end: usize = if n - from >= 3 {
        from + 3
    } else {
        n
    };
    let first = read_digits(s, from, end);
    match (all, first) {
        (Some(_), Some(f)) => {
            proof {
                if fs.len() >= 3 {
                    assert(s@.subrange(from as int, end as int) =~= fs.subrange(0, 3));
                } else {
                    assert(s@.subrange(from as int, end as int) =~= fs);
                }
                lemma_digits_value_bound(s@.subrange(from as int, end as int));
            }
            if n - from >= 3 {
                Some(f)
            } else if n - from == 2 {
                Some(f * 10)
            } else if n - from == 1 {
                Some(f * 100)
            } else {
                Some(0)
            }
        },
        (None, _) => None,
        (Some(_), None) => {
            proof {
                let sub = s@.subrange(from as int, end as int);
                let k = choose|k: int| 0 <= k < sub.len() && !is_digit(#[trigger] sub[k]);
                assert(s@.subrange(from as int, n as int)[k] == sub[k]);
            }
            None
        },
    }
}

/// A decimal number has its point, if any, in one place only.
pub proof fn lemma_decimal_split_unique(body: Seq<char>, a: int, b: int)
    requires
        decimal_at(body, a),
        decimal_at(body, b),
    ensures
        a == b,
{
    if a < b {
        assert(body.subrange(0, b)[a] == '.');
        assert(!is_digit(body.subrange(0, b)[a]));
    } else if b < a {
        assert(body.subrange(0, a)[b] == '.');
        assert(!is_digit(body.subrange(0, a)[b]));
    }
}

/// The value, in thousandths, of a decimal number that fits in an `i32`.
pub open spec fn decimal_of(t: Seq<char>) -> Option<i32> {
    if exists|d: int| decimal_at(t.skip(sign_len(t)), d) && i32::MIN <= signed_decimal(t, d) <= i32::MAX {
        let d = choose|d: int| decimal_at(t.skip(sign_len(t)), d) && i32::MIN <= signed_decimal(t, d) <= i32::MAX;
        Some(signed_decimal(t, d) as i32)
    } else {
        None
    }
}

/// Reads a decimal number such as `-12.5` as thousandths, cutting off
/// digits beyond the third after the point. The error names the argument
/// and repeats what was given; it comes when `v` is no such number or the
/// result does not fit in an `i32`.
#[verifier::rlimit(40)]
pub fn parse_decimal(v: &str, argument_name: &str) -> (r: Result<i32, String>)
    ensures
        match r {
            Ok(n) => decimal_of(v@) == Some(n),
            Err(_) => decimal_of(v@) is None,
        },
        match r {
            Ok(n) => exists|d: int| decimal_at(v@.skip(sign_len(v@)), d) && n as int == signed_decimal(v@, d),
            Err(e) => e@ == invalid_argument_text(argument_name@, v@) && forall|d: int|
                decimal_at(v@.skip(sign_len(v@)), d) ==> signed_decimal(v@, d) < i32::MIN
                    || signed_decimal(v@, d) > i32::MAX,
        },
{
    let s = chars_of(v);
    let n = s.len();
    let negative = n > 0 && s[0] == '-';
    let start: usize = if n > 0 && (s[0] == '-' || s[0] == '+') {
        1
    } else {
        0
    };
    let ghost body = s@.skip(start as int);
    assert(start as int == sign_len(v@));
    let mut dot: usize = start;
    while dot < n && s[dot] != '.'
        invariant
            start <= dot <= n,
            n == s@.len(),
            forall|k: int| start <= k < dot ==> s@[k] != '.',
        decreases n - dot,
    {
        dot = dot + 1;
    }
    let ghost d = dot - start;
    assert(forall|k: int| 0 <= k < d ==> body[k] != '.');
    assert(d < body.len() ==> body[d] == '.');
    let whole = read_digits(&s, start, dot);
    assert(s@.subrange(start as int, dot as int) =~= body.subrange(0, d));
    let (frac_ok, frac): (bool, u64) = if dot < n {
        assert(s@.skip(dot + 1) =~= body.skip(d + 1));
        match read_fraction(&s, dot + 1) {
            Some(f) => (n > start + 1, f),
            None => (false, 0),
        }
    } else {
        (dot > start, 0)
    };
    let ok = match whole {
        Some(_) => frac_ok,
        None => false,
    };
    proof {
        assert(ok <==> decimal_at(body, d));
        assert forall|e: int| decimal_at(body, e) implies e == d by {
            if e < d {
                assert(body[e] != '.');
            } else if e > d {
                assert(!is_digit(body.subrange(0, e)[d]));
            }
        }
    }
    if !ok {
        return Err(invalid_argument(argument_name, v));
    }
    let w = match whole {
        Some(w) => w,
        None => 0,
    };
    if w > 2147483 {
        proof {
            assert(digits_value(body.subrange(0, d)) > 2147483);
            lemma_digits_value_nonneg(body.subrange(0, d));
            if d < body.len() {
                lemma_thousandths_nonneg(body.skip(d + 1));
            }
        }
        return Err(invalid_argument(argument_name, v));
    }
    let value: u64 = w * 1000 + frac;
    proof {
        assert(value as int == decimal_value(body, d));
        assert(v@.skip(sign_len(v@)) == body);
        assert(decimal_at(v@.skip(sign_len(v@)), d));
        assert(signed_decimal(v@, d) == if negative { -(value as int) } else { value as int });
        if decimal_of(v@) is Some {
            let e = choose|e: int| decimal_at(v@.skip(sign_len(v@)), e) && i32::MIN <= signed_decimal(v@, e) <= i32::MAX;
            lemma_decimal_split_unique(body, d, e);
        }
    }
    if negative {
        if value > 2147483648 {
            return Err(invalid_argument(argument_name, v));
        }
        Ok((0 - value as i64) as i32)
    } else {
        if value > 2147483647 {
            return Err(invalid_argument(argument_name, v));
        }
        Ok(value as i32)
    }
}

proof fn lemma_digits_value_bound(s: Seq<char>)
    requires
        only_digits(s),
        s.len() <= 3,
    ensures
        0 <= digits_value(s),
        s.len() <= 1 ==> digits_value(s) <= 9,
        s.len() <= 2 ==> digits_value(s) <= 99,
        digits_value(s) <= 999,
    decreases s.len(),
{
    if s.len() > 0 {
        assert(is_digit(s[s.len() - 1]));
        lemma_digits_value_bound(s.drop_last());
    }
}

proof fn lemma_thousandths_nonneg(f: Seq<char>)
    requires
        only_digits(f),
    ensures
        thousandths(f) >= 0,
{
    if f.len() >= 3 {
        lemma_digits_value_nonneg(f.subrange(0, 3));
    } else {
        lemma_digits_value_nonneg(f);
    }
}

/// The pieces of `s` between occurrences of `sep`; there is always one more
/// piece than separators.
pub open spec fn pieces(s: Seq<char>, sep: char) -> Seq<Seq<char>>
    decreases s.len(),
{
    if s.len() == 0 {
        seq![Seq::empty()]
    } else {
        let p = pieces(s.drop_last(), sep);
        if s.last() == sep {
            p.push(Seq::empty())
        } else {
            p.update(p.len() - 1, p.last().push(s.last()))
        }
    }
}

pub open spec fn views(v: Seq<Vec<char>>) -> Seq<Seq<char>> {
    v.map_values(|x: Vec<char>| x@)
}

/// Splits `s` at every `sep`.
pub fn split_on(s: &Vec<char>, sep: char) -> (r: Vec<Vec<char>>)
    ensures
        views(r@) == pieces(s@, sep),
{
    let mut r: Vec<Vec<char>> = Vec::new();
    r.push(Vec::new());
    assert(views(r@) =~= pieces(s@.subrange(0, 0), sep));
    let mut i: usize = 0;
    while i < s.len()
        invariant
            i <= s@.len(),
            views(r@) == pieces(s@.subrange(0, i as int), sep),
            r@.len() >= 1,
        decreases s@.len() - i,
    {
        let ghost before = r@;
        assert(s@.subrange(0, i + 1).drop_last() =~= s@.subrange(0, i as int));
        if s[i] == sep {
            r.push(Vec::new());
            assert(views(r@) =~= views(before).push(Seq::empty()));
        } else {
            let mut last = r.pop().unwrap();
            last.push(s[i]);
            r.push(last);
            assert(views(r@) =~= views(before).update(before.len() - 1, views(before).last().push(s@[i as int])));
        }
        i = i + 1;
    }
    assert(s@.subrange(0, s@.len() as int) =~= s@);
    r
}

/// Splits `s` into its words.
pub fn split_words(s: &Vec<char>) -> (r: Vec<Vec<char>>)
    ensures
        views(r@) == words(s@),
{
    let mut r: Vec<Vec<char>> = Vec::new();
    assert(views(r@) =~= words(s@.subrange(0, 0)));
    let mut i: usize = 0;
    while i < s.len()
        invariant
            i <= s@.len(),
            views(r@) == words(s@.subrange(0, i as int)),
            i > 0 && !is_ws(s@[i - 1]) ==> r@.len() >= 1,
        decreases s@.len() - i,
    {
        let ghost before = r@;
        let ghost pre = s@.subrange(0, i + 1);
        assert(pre.drop_last() =~= s@.subrange(0, i as int));
        let c = s[i];
        if c == ' ' || c == '\t' || c == '\n' || c == '\r' {
        } else if i >= 1 && !(s[i - 1] == ' ' || s[i - 1] == '\t' || s[i - 1] == '\n' || s[i - 1] == '\r') {
            assert(pre[pre.len() - 2] == s@[i - 1]);
            let mut last = r.pop().unwrap();
            last.push(c);
            r.push(last);
            assert(views(r@) =~= views(before).update(before.len() - 1, views(before).last().push(c)));
        } else {
            let mut w: Vec<char> = Vec::new();
            w.push(c);
            r.push(w);
            assert(views(r@) =~= views(before).push(seq![c]));
        }
        i = i + 1;
    }
    assert(s@.subrange(0, s@.len() as int) =~= s@);
    r
}

/// Relies on std's `FromIterator<char>` for `String`: the string holds the
/// characters in order.
#[verifier::external_body]
pub(crate) fn string_from_chars(c: &Vec<char>) -> (r: String)
    ensures
        r@ == c@,
{
    c.iter().collect()
}

} // verus!
