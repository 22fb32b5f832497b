//! Character-level text work: decimal numbers, searching, quoting.
use vstd::prelude::*;
use vstd::string::StringExecFns;

verus! {

broadcast use {
    vstd::string::group_string_axioms,
    vstd::seq_lib::group_seq_properties,
};

/// Calls `String::push`. The contract claims what its documentation
/// says: `c` is appended at the end of `s`, nothing else changes.
#[verifier::external_body]
fn push_char(s: &mut String, c: char)
    ensures
        final(s)@ == old(s)@.push(c),
{
    s.push(c);
}

/// The characters of `s`.
pub fn chars_of(s: &str) -> (v: Vec<char>)
    ensures
        v@ == s@,
{
    let mut v: Vec<char> = Vec::new();
    for c in it: s.chars()
        invariant
            it.seq() == s@,
            v@.len() == it.index(),
            forall|i: int| 0 <= i < it.index() ==> v@[i] == it.seq()[i],
    {
        v.push(c);
    }
    assert(v@ =~= s@);
    v
}

/// `a` followed by `b`.
pub fn concat(a: &str, b: &str) -> (s: String)
    ensures
        s@ == a@ + b@,
{
    let mut s = String::from_str(a);
    s.append(b);
    s
}

/// Whether `a` and `b` hold the same characters.
pub fn same_text(a: &str, b: &str) -> (r: bool)
    ensures
        r == (a@ == b@),
{
    let x = String::from_str(a);
    let y = String::from_str(b);
    x == y
}

/// The character of decimal digit `d`.
pub open spec fn digit_char(d: int) -> char {
    (d + 48) as char
}

/// Whether `c` is one of the ASCII digits `0` to `9`.
pub open spec fn is_digit(c: char) -> bool {
    '0' <= c <= '9'
}

/// The decimal digits of `n`, without leading zeros.
pub open spec fn nat_decimal(n: nat) -> Seq<char>
    decreases n,
{
    if n < 10 {
        seq![digit_char(n as int)]
    } else {
        nat_decimal(n / 10) + seq![digit_char((n % 10) as int)]
    }
}

/// `n` written in decimal, with a leading `-` when it is negative (what
/// `format!("{}", n)` writes).
pub open spec fn i32_decimal(n: i32) -> Seq<char> {
    if n < 0 {
        seq!['-'] + nat_decimal((-n) as nat)
    } else {
        nat_decimal(n as nat)
    }
}

fn digit(d: u64) -> (c: char)
    requires
        d < 10,
    ensures
        c == digit_char(d as int),
        is_digit(c),
{
    let b: u8 = 48u8 + d as u8;
    b as char
}

fn nat_to_decimal(n: u64, out: &mut String)
    ensures
        final(out)@ == old(out)@ + nat_decimal(n as nat),
    decreases n,
{
    if n < 10 {
        push_char(out, digit(n));
    } else {
        nat_to_decimal(n / 10, out);
        push_char(out, digit(n % 10));
        assert(final(out)@ =~= old(out)@ + nat_decimal(n as nat));
    }
}

/// `n` in decimal.
pub fn decimal(n: i32) -> (s: String)
    ensures
        s@ == i32_decimal(n),
{
    let mut s = String::new();
    if n < 0 {
        push_char(&mut s, '-');
        let m: i64 = -(n as i64);
        nat_to_decimal(m as u64, &mut s);
    } else {
        nat_to_decimal(n as u64, &mut s);
    }
    assert(s@ =~= i32_decimal(n));
    s
}

/// The value of a string of decimal digits.
pub open spec fn digits_value(s: Seq<char>) -> int
    decreases s.len(),
{
    if s.len() == 0 {
        0
    } else {
        digits_value(s.drop_last()) * 10 + (s.last() as int - 48)
    }
}

pub open spec fn all_digits(s: Seq<char>) -> bool {
    forall|i: int| 0 <= i < s.len() ==> is_digit(#[trigger] s[i])
}

/// What `str::parse::<i32>` makes of `s`: an optional `+` or `-`, then one
/// or more ASCII digits whose value, with that sign, fits an `i32`.
pub open spec fn spec_parse_i32(s: Seq<char>) -> Option<i32> {
    if s.len() == 0 {
        None
    } else {
        let body = if s[0] == '-' || s[0] == '+' {
            s.drop_first()
        } else {
            s
        };
        let v = if s[0] == '-' {
            -digits_value(body)
        } else {
            digits_value(body)
        };
        if body.len() == 0 || !all_digits(body) {
            None
        } else if i32::MIN <= v <= i32::MAX {
            Some(v as i32)
        } else {
            None
        }
    }
}

proof fn lemma_digits_value_nonneg(s: Seq<char>)
    requires
        all_digits(s),
    ensures
        digits_value(s) >= 0,
    decreases s.len(),
{
    if s.len() > 0 {
        lemma_digits_value_nonneg(s.drop_last());
    }
}

/// A longer string of digits has at least the value of its prefix.
proof fn lemma_digits_value_grows(s: Seq<char>, j: int, m: int)
    requires
        0 <= j <= m <= s.len(),
        all_digits(s),
    ensures
        digits_value(s.take(j)) <= digits_value(s.take(m)),
    decreases m - j,
{
    if j < m {
        lemma_digits_value_grows(s, j, m - 1);
        assert(s.take(m).drop_last() =~= s.take(m - 1));
        lemma_digits_value_nonneg(s.take(m - 1));
        assert(is_digit(s[m - 1]));
    }
}

proof fn lemma_digits_step(s: Seq<char>, k: int)
    requires
        0 <= k < s.len(),
        all_digits(s.take(k)),
        is_digit(s[k]),
    ensures
        all_digits(s.take(k + 1)),
        digits_value(s.take(k + 1)) == digits_value(s.take(k)) * 10 + (s[k] as int - 48),
{
    assert(s.take(k + 1).drop_last() =~= s.take(k));
    assert forall|i: int| 0 <= i < k + 1 implies is_digit(#[trigger] s.take(k + 1)[i]) by {
        if i < k {
            assert(s.take(k + 1)[i] == s.take(k)[i]);
        }
    }
}

/// Parses `s` as `str::parse::<i32>` does.
pub fn parse_i32(s: &[char]) -> (r: Option<i32>)
    ensures
        r == spec_parse_i32(s@),
{
    let n = s.len();
    if n == 0 {
        return None;
    }
    let neg = s[0] == '-';
    let start: usize = if s[0] == '-' || s[0] == '+' { 1 } else { 0 };
    let ghost body = if s@[0] == '-' || s@[0] == '+' { s@.drop_first() } else { s@ };
    assert(body =~= s@.subrange(start as int, n as int));
    if start == n {
        assert(body.len() == 0);
        return None;
    }
    let mut acc: u64 = 0;
    let mut j = start;
    while j < n
        invariant
            start <= j <= n == s@.len(),
            n > 0,
            body == s@.subrange(start as int, n as int),
            body == (if s@[0] == '-' || s@[0] == '+' { s@.drop_first() } else { s@ }),
            neg == (s@[0] == '-'),
            all_digits(body.take(j - start)),
            acc == digits_value(body.take(j - start)),
            acc <= 2147483648,
        decreases n - j,
    {
        let c = s[j];
        assert(body[j - start] == c);
        if !('0' <= c && c <= '9') {
            assert(!is_digit(body[j - start]));
            assert(!all_digits(body));
            assert(spec_parse_i32(s@) is None);
            return None;
        }
        let d: u64 = (c as u32 - 48) as u64;
        proof {
            lemma_digits_step(body, j - start);
        }
        acc = acc * 10 + d;
        j += 1;
        if acc > 2147483648 {
            proof {
                if all_digits(body) {
                    lemma_digits_value_grows(body, j - start, body.len() as int);
                    assert(body.take(body.len() as int) =~= body);
                    assert(digits_value(body) > 2147483648);
                }
                assert(spec_parse_i32(s@) is None);
            }
            return None;
        }
    }
    assert(body.take(j - start) =~= body);
    if neg {
        let m: i64 = -(acc as i64);
        Some(m as i32)
    } else if acc <= 2147483647 {
        Some(acc as i32)
    } else {
        None
    }
}

/// `p` stands in `s` from index `i` on.
pub open spec fn occurs_at(s: Seq<char>, p: Seq<char>, i: int) -> bool {
    0 <= i && i + p.len() <= s.len() && s.subrange(i, i + p.len()) == p
}

/// The first index, from `i` on, at which `p` stands in `s`.
pub open spec fn find_from(s: Seq<char>, p: Seq<char>, i: int) -> Option<int>
    decreases s.len() + 1 - i,
{
    if i < 0 || i + p.len() > s.len() {
        None
    } else if occurs_at(s, p, i) {
        Some(i)
    } else {
        find_from(s, p, i + 1)
    }
}

/// The first index at which `p` stands in `s` (what `str::find` gives,
/// counted in characters).
pub open spec fn spec_find(s: Seq<char>, p: Seq<char>) -> Option<int> {
    find_from(s, p, 0)
}

pub open spec fn starts_with(s: Seq<char>, p: Seq<char>) -> bool {
    p.len() <= s.len() && s.take(p.len() as int) == p
}

fn occurs_at_exec(s: &[char], p: &[char], i: usize) -> (b: bool)
    requires
        i + p@.len() <= s@.len(),
    ensures
        b == occurs_at(s@, p@, i as int),
{
    let m = p.len();
    let mut k: usize = 0;
    while k < m
        invariant
            m == p@.len(),
            i + m <= s.len(),
            k <= m,
            forall|t: int| 0 <= t < k ==> s@[i + t] == p@[t],
        decreases m - k,
    {
        assert(i + k < s@.len());
        if s[i + k] != p[k] {
            assert(s@.subrange(i as int, i + m)[k as int] != p@[k as int]);
            return false;
        }
        k += 1;
    }
    assert(s@.subrange(i as int, i + m) =~= p@);
    true
}

/// Whether `s` begins with `p`.
pub fn has_prefix(s: &[char], p: &[char]) -> (b: bool)
    ensures
        b == starts_with(s@, p@),
{
    if p.len() > s.len() {
        false
    } else {
        let b = occurs_at_exec(s, p, 0);
        assert(s@.subrange(0, p@.len() as int) =~= s@.take(p@.len() as int));
        b
    }
}

/// The first index at which `p` stands in `s`.
pub fn find(s: &[char], p: &[char]) -> (r: Option<usize>)
    ensures
        match r {
            Some(i) => spec_find(s@, p@) == Some(i as int),
            None => spec_find(s@, p@) is None,
        },
{
    if p.len() > s.len() {
        return None;
    }
    let last = s.len() - p.len();
    let mut i: usize = 0;
    loop
        invariant
            last + p@.len() == s@.len(),
            i <= last,
            find_from(s@, p@, 0) == find_from(s@, p@, i as int),
        decreases last - i,
    {
        if occurs_at_exec(s, p, i) {
            return Some(i);
        }
        if i == last {
            return None;
        }
        i += 1;
    }
}

/// Where `find_from` finds `p`, `p` stands.
pub proof fn lemma_find_from_occurs(s: Seq<char>, p: Seq<char>, i: int)
    requires
        find_from(s, p, i) is Some,
    ensures
        occurs_at(s, p, find_from(s, p, i)->0),
        find_from(s, p, i)->0 + p.len() <= s.len(),
    decreases s.len() + 1 - i,
{
    if !(i < 0 || i + p.len() > s.len()) && !occurs_at(s, p, i) {
        lemma_find_from_occurs(s, p, i + 1);
    }
}

/// The index of the first `c` in `s` from `i` on, or the length of `s`.
pub open spec fn field_end(s: Seq<char>, c: char, i: int) -> int
    decreases s.len() - i,
{
    if i < 0 || i >= s.len() {
        s.len() as int
    } else if s[i] == c {
        i
    } else {
        field_end(s, c, i + 1)
    }
}

/// What comes before the first `&` of `s` (all of it when there is none):
/// the first item of `s.split('&')`.
pub open spec fn first_field(s: Seq<char>) -> Seq<char> {
    s.take(field_end(s, '&', 0))
}

/// The characters of `s[from..]` before its first `&`.
pub fn field_after(s: &[char], from: usize) -> (v: Vec<char>)
    requires
        from <= s@.len(),
    ensures
        v@ == first_field(s@.skip(from as int)),
{
    let ghost t = s@.skip(from as int);
    let mut v: Vec<char> = Vec::new();
    let mut j = from;
    while j < s.len() && s[j] != '&'
        invariant
            from <= j <= s@.len(),
            t == s@.skip(from as int),
            field_end(t, '&', 0) == field_end(t, '&', j - from),
            v@ == t.take(j - from),
        decreases s@.len() - j,
    {
        v.push(s[j]);
        j += 1;
        assert(v@ =~= t.take(j - from));
    }
    v
}

/// `s` ready to stand inside a single-quoted JavaScript string: each `'`
/// preceded by a backslash (what `s.replace('\'', "\\'")` gives).
pub open spec fn escape_quotes(s: Seq<char>) -> Seq<char>
    decreases s.len(),
{
    if s.len() == 0 {
        s
    } else {
        escape_quotes(s.drop_last()) + if s.last() == '\'' {
            seq!['\\', '\'']
        } else {
            seq![s.last()]
        }
    }
}

/// Appends `s` with each `'` preceded by a backslash.
pub fn push_escaped(out: &mut String, s: &str)
    ensures
        final(out)@ == old(out)@ + escape_quotes(s@),
{
    let v = chars_of(s);
    let n = v.len();
    let mut j: usize = 0;
    while j < n
        invariant
            n == v@.len(),
            v@ == s@,
            j <= n,
            out@ == old(out)@ + escape_quotes(v@.take(j as int)),
        decreases n - j,
    {
        let c = v[j];
        assert(v@.take(j + 1).drop_last() =~= v@.take(j as int));
        if c == '\'' {
            push_char(out, '\\');
            push_char(out, '\'');
        } else {
            push_char(out, c);
        }
        j += 1;
        assert(out@ =~= old(out)@ + escape_quotes(v@.take(j as int)));
    }
    assert(v@.take(n as int) =~= s@);
}

} // verus!
