//! Character-sequence utilities with exact specifications.

use vstd::prelude::*;
use crate::outside::push_char;

verus! {

broadcast use vstd::string::group_string_axioms;

/// The Unicode `White_Space` property, as used by `char::is_whitespace`.
pub open spec fn is_ws(c: char) -> bool {
    let u = c as u32;
    (9 <= u && u <= 13) || u == 32 || u == 0x85 || u == 0xa0 || u == 0x1680
        || (0x2000 <= u && u <= 0x200a) || u == 0x2028 || u == 0x2029 || u == 0x202f
        || u == 0x205f || u == 0x3000
}

/// `s` without its leading whitespace.
pub open spec fn trim_start(s: Seq<char>) -> Seq<char>
    decreases s.len(),
{
    if s.len() > 0 && is_ws(s[0]) {
        trim_start(s.drop_first())
    } else {
        s
    }
}

/// `s` without its trailing whitespace.
pub open spec fn trim_end(s: Seq<char>) -> Seq<char>
    decreases s.len(),
{
    if s.len() > 0 && is_ws(s.last()) {
        trim_end(s.drop_last())
    } else {
        s
    }
}

/// `s` without leading and trailing whitespace.
pub open spec fn trim(s: Seq<char>) -> Seq<char> {
    trim_end(trim_start(s))
}

/// Dropping leading whitespace leaves a suffix that starts with no whitespace.
pub proof fn lemma_trim_start_shape(s: Seq<char>)
    ensures
        trim_start(s).len() <= s.len(),
        trim_start(s) == s.subrange(s.len() - trim_start(s).len(), s.len() as int),
        trim_start(s).len() > 0 ==> !is_ws(trim_start(s)[0]),
    decreases s.len(),
{
    if s.len() > 0 && is_ws(s[0]) {
        lemma_trim_start_shape(s.drop_first());
        let t = trim_start(s.drop_first());
        assert(s.drop_first().subrange(s.len() - 1 - t.len(), s.len() - 1) =~= s.subrange(
            s.len() - t.len(),
            s.len() as int,
        ));
    } else {
        assert(s.subrange(0, s.len() as int) =~= s);
    }
}

/// Dropping trailing whitespace leaves a prefix that ends with no whitespace.
pub proof fn lemma_trim_end_shape(s: Seq<char>)
    ensures
        trim_end(s).len() <= s.len(),
        trim_end(s) == s.subrange(0, trim_end(s).len() as int),
        trim_end(s).len() > 0 ==> !is_ws(trim_end(s).last()),
    decreases s.len(),
{
    if s.len() > 0 && is_ws(s.last()) {
        lemma_trim_end_shape(s.drop_last());
        let t = trim_end(s.drop_last());
        assert(s.drop_last().subrange(0, t.len() as int) =~= s.subrange(0, t.len() as int));
    } else {
        assert(s.subrange(0, s.len() as int) =~= s);
    }
}

/// Trimmed text begins and ends with no whitespace.
pub proof fn lemma_trim_shape(s: Seq<char>)
    ensures
        trim(s).len() > 0 ==> !is_ws(trim(s)[0]) && !is_ws(trim(s).last()),
{
    lemma_trim_start_shape(s);
    lemma_trim_end_shape(trim_start(s));
    let t = trim_start(s);
    if trim(s).len() > 0 {
        assert(trim(s)[0] == t.subrange(0, trim(s).len() as int)[0]);
    }
}

/// Text that begins and ends with no whitespace is its own trim.
pub proof fn lemma_trim_fixed(s: Seq<char>)
    requires
        s.len() > 0 ==> !is_ws(s[0]) && !is_ws(s.last()),
    ensures
        trim(s) == s,
{
}

/// Trimming twice is trimming once.
pub proof fn lemma_trim_idempotent(s: Seq<char>)
    ensures
        trim(trim(s)) == trim(s),
{
    lemma_trim_shape(s);
    lemma_trim_fixed(trim(s));
}

/// `p` occurs in `s` starting at position `i`.
pub open spec fn occurs_at(s: Seq<char>, p: Seq<char>, i: int) -> bool {
    0 <= i && i + p.len() <= s.len() && s.subrange(i, i + p.len()) == p
}

/// `p` occurs somewhere in `s`.
pub open spec fn has_sub(s: Seq<char>, p: Seq<char>) -> bool {
    exists|i: int| occurs_at(s, p, i)
}

/// `p` is a prefix of `s`.
pub open spec fn starts(s: Seq<char>, p: Seq<char>) -> bool {
    occurs_at(s, p, 0)
}

/// `p` is a suffix of `s`.
pub open spec fn ends(s: Seq<char>, p: Seq<char>) -> bool {
    occurs_at(s, p, s.len() - p.len())
}

/// Index of the first occurrence of `p` in `s`.
pub open spec fn first_at(s: Seq<char>, p: Seq<char>, i: int) -> bool {
    occurs_at(s, p, i) && forall|j: int| 0 <= j < i ==> !occurs_at(s, p, j)
}

/// The part of `s` before the first occurrence of `sep` (all of `s` when absent),
/// i.e. the first item of `str::split`.
pub open spec fn before(s: Seq<char>, sep: Seq<char>) -> Seq<char> {
    if has_sub(s, sep) {
        s.subrange(0, choose|i: int| first_at(s, sep, i))
    } else {
        s
    }
}

/// The part of `s` after the first occurrence of `sep`, if any.
pub open spec fn after(s: Seq<char>, sep: Seq<char>) -> Option<Seq<char>> {
    if has_sub(s, sep) {
        let i = choose|i: int| first_at(s, sep, i);
        Some(s.subrange(i + sep.len(), s.len() as int))
    } else {
        None
    }
}

/// Every non-overlapping occurrence of `from`, scanned left to right, replaced by `to`.
pub open spec fn replace(s: Seq<char>, from: Seq<char>, to: Seq<char>) -> Seq<char>
    decreases s.len(),
{
    if from.len() == 0 || s.len() < from.len() {
        s
    } else if s.subrange(0, from.len() as int) == from {
        to + replace(s.subrange(from.len() as int, s.len() as int), from, to)
    } else {
        seq![s[0]] + replace(s.drop_first(), from, to)
    }
}

/// The decimal digit character for `d < 10`.
pub open spec fn digit_char(d: nat) -> char {
    ((d + 48) as u32) as char
}

/// Decimal representation of `n`, as `Display` writes it.
pub open spec fn decimal(n: nat) -> Seq<char>
    decreases n,
{
    if n < 10 {
        seq![digit_char(n)]
    } else {
        decimal(n / 10).push(digit_char(n % 10))
    }
}

/// Decimal representation padded with zeros to two digits (`{:02}`).
pub open spec fn decimal2(n: nat) -> Seq<char> {
    if n < 10 {
        seq!['0'].push(digit_char(n))
    } else {
        decimal(n)
    }
}

pub open spec fn is_digit(c: char) -> bool {
    '0' <= c && c <= '9'
}

pub open spec fn all_digits(s: Seq<char>) -> bool {
    forall|i: int| 0 <= i < s.len() ==> is_digit(#[trigger] s[i])
}

/// The value of a string of ASCII digits.
pub open spec fn digits_value(s: Seq<char>) -> nat
    decreases s.len(),
{
    if s.len() == 0 {
        0
    } else {
        digits_value(s.drop_last()) * 10 + ((s.last() as u32) - 48) as nat
    }
}

/// The digits part of an unsigned number: `s` without one leading `+`.
pub open spec fn unsigned_body(s: Seq<char>) -> Seq<char> {
    if s.len() > 0 && s[0] == '+' {
        s.drop_first()
    } else {
        s
    }
}

/// What `str::parse::<u32>` gives: an optional `+` and one or more ASCII digits
/// whose value fits in `u32`.
pub open spec fn parse_u32(s: Seq<char>) -> Option<u32> {
    let body = unsigned_body(s);
    if body.len() > 0 && all_digits(body) && digits_value(body) <= u32::MAX {
        Some(digits_value(body) as u32)
    } else {
        None
    }
}

/// The characters of `s`, in order.
pub fn chars_of(s: &str) -> (v: Vec<char>)
    ensures
        v@ == s@,
{
    let mut v: Vec<char> = Vec::new();
    for c in it: s.chars()
        invariant
            v@ == it.seq().subrange(0, it.index() as int),
    {
        v.push(c);
    }
    v
}


/// Whether `c` is whitespace (`char::is_whitespace`).
pub fn is_whitespace(c: char) -> (b: bool)
    ensures
        b == is_ws(c),
{
    let u = c as u32;
    (9 <= u && u <= 13) || u == 32 || u == 0x85 || u == 0xa0 || u == 0x1680 || (0x2000 <= u && u
        <= 0x200a) || u == 0x2028 || u == 0x2029 || u == 0x202f || u == 0x205f || u == 0x3000
}

/// Whether `p` occurs in `s` at position `i`.
pub fn occurs_at_exec(s: &Vec<char>, p: &Vec<char>, i: usize) -> (b: bool)
    ensures
        b == occurs_at(s@, p@, i as int),
{
    if i > s.len() || p.len() > s.len() - i {
        return false;
    }
    let mut k: usize = 0;
    while k < p.len()
        invariant
            i + p.len() <= s.len(),
            k <= p.len(),
            forall|j: int| 0 <= j < k ==> s@[i + j] == p@[j],
        decreases p.len() - k,
    {
        if s[i + k] != p[k] {
            proof {
                assert(s@.subrange(i as int, i + p.len())[k as int] != p@[k as int]);
            }
            return false;
        }
        k += 1;
    }
    assert(s@.subrange(i as int, i + p.len()) =~= p@);
    true
}

/// The first position at or after `from` where `p` occurs in `s`.
pub fn find_from(s: &Vec<char>, p: &Vec<char>, from: usize) -> (r: Option<usize>)
    ensures
        match r {
            Some(i) => from <= i && occurs_at(s@, p@, i as int) && forall|j: int|
                from <= j < i ==> !occurs_at(s@, p@, j),
            None => forall|j: int| from <= j ==> !occurs_at(s@, p@, j),
        },
{
    if p.len() > s.len() || from > s.len() - p.len() {
        return None;
    }
    let last = s.len() - p.len();
    let mut i = from;
    while i <= last
        invariant
            from <= i,
            last == s.len() - p.len(),
            forall|j: int| from <= j < i ==> !occurs_at(s@, p@, j),
        decreases last + 1 - i,
    {
        if occurs_at_exec(s, p, i) {
            return Some(i);
        }
        if i == last {
            return None;
        }
        i += 1;
    }
    None
}

/// The first position where `p` occurs in `s`.
pub fn find(s: &Vec<char>, p: &Vec<char>) -> (r: Option<usize>)
    ensures
        match r {
            Some(i) => first_at(s@, p@, i as int),
            None => !has_sub(s@, p@),
        },
{
    find_from(s, p, 0)
}

/// Whether `p` occurs in `s` (`str::contains`).
pub fn contains(s: &Vec<char>, p: &Vec<char>) -> (b: bool)
    ensures
        b == has_sub(s@, p@),
{
    find(s, p).is_some()
}

/// Whether `s` contains the literal `p`.
pub fn contains_str(s: &Vec<char>, p: &str) -> (b: bool)
    ensures
        b == has_sub(s@, p@),
{
    let pv = chars_of(p);
    contains(s, &pv)
}

/// Whether `s` starts with the literal `p`.
pub fn starts_with_str(s: &Vec<char>, p: &str) -> (b: bool)
    ensures
        b == starts(s@, p@),
{
    let pv = chars_of(p);
    occurs_at_exec(s, &pv, 0)
}

/// Whether `s` ends with the literal `p`.
pub fn ends_with_str(s: &Vec<char>, p: &str) -> (b: bool)
    ensures
        b == ends(s@, p@),
{
    let pv = chars_of(p);
    if pv.len() > s.len() {
        return false;
    }
    occurs_at_exec(s, &pv, s.len() - pv.len())
}

proof fn lemma_trim_start_step(s: Seq<char>, i: int)
    requires
        0 <= i < s.len(),
        is_ws(s[i]),
    ensures
        trim_start(s.subrange(i, s.len() as int)) == trim_start(s.subrange(i + 1, s.len() as int)),
{
    assert(s.subrange(i, s.len() as int).drop_first() =~= s.subrange(i + 1, s.len() as int));
}

proof fn lemma_trim_end_step(s: Seq<char>, j: int)
    requires
        0 < j <= s.len(),
        is_ws(s[j - 1]),
    ensures
        trim_end(s.subrange(0, j)) == trim_end(s.subrange(0, j - 1)),
{
    assert(s.subrange(0, j).drop_last() =~= s.subrange(0, j - 1));
}

/// The bounds `(a, b)` of the trimmed part of `s`.
pub fn trim_bounds(s: &Vec<char>) -> (r: (usize, usize))
    ensures
        r.0 <= r.1 <= s.len(),
        s@.subrange(r.0 as int, r.1 as int) == trim(s@),
{
    let n = s.len();
    let mut i: usize = 0;
    assert(s@.subrange(0, n as int) =~= s@);
    while i < n && is_whitespace(s[i])
        invariant
            i <= n,
            n == s.len(),
            trim_start(s@) == trim_start(s@.subrange(i as int, n as int)),
        decreases n - i,
    {
        proof {
            lemma_trim_start_step(s@, i as int);
        }
        i += 1;
    }
    let ghost t = s@.subrange(i as int, n as int);
    assert(trim_start(s@) == t);
    let mut j: usize = n;
    assert(t.subrange(0, (j - i) as int) =~= t);
    while j > i && is_whitespace(s[j - 1])
        invariant
            i <= j <= n,
            n == s.len(),
            t == s@.subrange(i as int, n as int),
            trim_end(t) == trim_end(t.subrange(0, (j - i) as int)),
        decreases j,
    {
        proof {
            assert(t[(j - i - 1) as int] == s@[j - 1]);
            lemma_trim_end_step(t, (j - i) as int);
        }
        j -= 1;
    }
    assert(t.subrange(0, (j - i) as int) =~= s@.subrange(i as int, j as int));
    (i, j)
}

/// The characters `s[lo..hi]` as a `String`.
pub fn string_of(s: &Vec<char>, lo: usize, hi: usize) -> (r: String)
    requires
        lo <= hi <= s.len(),
    ensures
        r@ == s@.subrange(lo as int, hi as int),
{
    let mut r = String::new();
    let mut k = lo;
    while k < hi
        invariant
            lo <= k <= hi <= s.len(),
            r@ == s@.subrange(lo as int, k as int),
        decreases hi - k,
    {
        push_char(&mut r, s[k]);
        assert(s@.subrange(lo as int, k + 1) =~= s@.subrange(lo as int, k as int).push(s@[k as int]));
        k += 1;
    }
    r
}

/// All of `s` as a `String`.
pub fn string_of_all(s: &Vec<char>) -> (r: String)
    ensures
        r@ == s@,
{
    let r = string_of(s, 0, s.len());
    assert(s@.subrange(0, s.len() as int) =~= s@);
    r
}

/// `s` without surrounding whitespace (`str::trim`).
pub fn trim_str(s: &str) -> (r: String)
    ensures
        r@ == trim(s@),
{
    let v = chars_of(s);
    let (a, b) = trim_bounds(&v);
    string_of(&v, a, b)
}

/// A copy of `s`.
pub fn own(s: &str) -> (r: String)
    ensures
        r@ == s@,
{
    let v = chars_of(s);
    string_of_all(&v)
}

/// Appends `t` to `s`.
pub fn append(s: &mut String, t: &str)
    ensures
        final(s)@ == old(s)@ + t@,
{
    let v = chars_of(t);
    let ghost s0 = s@;
    let mut k: usize = 0;
    while k < v.len()
        invariant
            k <= v.len(),
            v@ == t@,
            s@ == s0 + v@.subrange(0, k as int),
        decreases v.len() - k,
    {
        push_char(s, v[k]);
        assert(v@.subrange(0, k + 1) =~= v@.subrange(0, k as int).push(v@[k as int]));
        k += 1;
    }
    assert(v@.subrange(0, v.len() as int) =~= v@);
}

/// Whether two strings hold the same characters.
pub fn str_eq(a: &str, b: &str) -> (r: bool)
    ensures
        r == (a@ == b@),
{
    let x = chars_of(a);
    let y = chars_of(b);
    if x.len() != y.len() {
        return false;
    }
    let r = occurs_at_exec(&x, &y, 0);
    assert(x@.len() == y@.len() ==> x@.subrange(0, y@.len() as int) =~= x@);
    r
}


proof fn lemma_replace_hit(s: Seq<char>, from: Seq<char>, to: Seq<char>, i: int)
    requires
        from.len() > 0,
        occurs_at(s, from, i),
    ensures
        replace(s.subrange(i, s.len() as int), from, to) == to + replace(
            s.subrange(i + from.len(), s.len() as int),
            from,
            to,
        ),
{
    let t = s.subrange(i, s.len() as int);
    assert(t.subrange(0, from.len() as int) =~= s.subrange(i, i + from.len()));
    assert(t.subrange(from.len() as int, t.len() as int) =~= s.subrange(
        i + from.len(),
        s.len() as int,
    ));
}

proof fn lemma_replace_miss(s: Seq<char>, from: Seq<char>, to: Seq<char>, i: int)
    requires
        from.len() > 0,
        0 <= i < s.len(),
        i + from.len() <= s.len(),
        !occurs_at(s, from, i),
    ensures
        replace(s.subrange(i, s.len() as int), from, to) == seq![s[i]] + replace(
            s.subrange(i + 1, s.len() as int),
            from,
            to,
        ),
{
    let t = s.subrange(i, s.len() as int);
    assert(t.subrange(0, from.len() as int) =~= s.subrange(i, i + from.len()));
    assert(t.drop_first() =~= s.subrange(i + 1, s.len() as int));
}

/// `s` with every non-overlapping occurrence of `from` (scanned left to right)
/// replaced by `to` (`str::replace`).
pub fn replace_all(s: &Vec<char>, from: &Vec<char>, to: &Vec<char>) -> (r: Vec<char>)
    requires
        from.len() > 0,
    ensures
        r@ == replace(s@, from@, to@),
{
    let n = s.len();
    let mut out: Vec<char> = Vec::new();
    let mut i: usize = 0;
    assert(s@.subrange(0, n as int) =~= s@);
    while i < n && from.len() <= n - i
        invariant
            i <= n,
            n == s.len(),
            from.len() > 0,
            out@ + replace(s@.subrange(i as int, n as int), from@, to@) == replace(
                s@,
                from@,
                to@,
            ),
        decreases n - i,
    {
        let ghost prev = out@;
        if occurs_at_exec(s, from, i) {
            proof {
                lemma_replace_hit(s@, from@, to@, i as int);
            }
            let mut k: usize = 0;
            while k < to.len()
                invariant
                    k <= to.len(),
                    out@ == prev + to@.subrange(0, k as int),
                decreases to.len() - k,
            {
                out.push(to[k]);
                assert(to@.subrange(0, k + 1) =~= to@.subrange(0, k as int).push(to@[k as int]));
                k += 1;
            }
            assert(to@.subrange(0, to.len() as int) =~= to@);
            assert(prev + (to@ + replace(s@.subrange(i + from.len(), n as int), from@, to@))
                =~= out@ + replace(s@.subrange(i + from.len(), n as int), from@, to@));
            i = i + from.len();
        } else {
            proof {
                lemma_replace_miss(s@, from@, to@, i as int);
            }
            out.push(s[i]);
            assert(prev + (seq![s@[i as int]] + replace(s@.subrange(i + 1, n as int), from@, to@))
                =~= out@ + replace(s@.subrange(i + 1, n as int), from@, to@));
            i = i + 1;
        }
    }
    let ghost rest = s@.subrange(i as int, n as int);
    assert(replace(rest, from@, to@) == rest);
    while i < n
        invariant
            i <= n,
            n == s.len(),
            out@ + s@.subrange(i as int, n as int) == replace(s@, from@, to@),
        decreases n - i,
    {
        let ghost prev = out@;
        out.push(s[i]);
        assert(prev + s@.subrange(i as int, n as int) =~= out@ + s@.subrange(i + 1, n as int));
        i += 1;
    }
    assert(out@ + s@.subrange(n as int, n as int) =~= out@);
    out
}

/// `s` with every occurrence of the literal `from` replaced by `to` (`str::replace`).
pub fn replace_str(s: &str, from: &str, to: &str) -> (r: String)
    requires
        from@.len() > 0,
    ensures
        r@ == replace(s@, from@, to@),
{
    let sv = chars_of(s);
    let fv = chars_of(from);
    let tv = chars_of(to);
    let rv = replace_all(&sv, &fv, &tv);
    string_of_all(&rv)
}

/// The part of `s` before the first occurrence of `sep` (`str::split(sep).next()`).
pub fn before_str(s: &str, sep: &str) -> (r: String)
    ensures
        r@ == before(s@, sep@),
{
    let sv = chars_of(s);
    let pv = chars_of(sep);
    match find(&sv, &pv) {
        Some(i) => {
            proof {
                let k = choose|k: int| first_at(s@, sep@, k);
                assert(k == i as int) by {
                    if k < i {
                        assert(!occurs_at(s@, sep@, k));
                    } else if k > i {
                        assert(!occurs_at(s@, sep@, i as int));
                    }
                }
            }
            string_of(&sv, 0, i)
        },
        None => string_of_all(&sv),
    }
}

/// The part of `s` after the first occurrence of `sep`, if any.
pub fn after_str(s: &str, sep: &str) -> (r: Option<String>)
    ensures
        match r {
            Some(t) => after(s@, sep@) == Some(t@),
            None => after(s@, sep@) is None,
        },
{
    let sv = chars_of(s);
    let pv = chars_of(sep);
    match find(&sv, &pv) {
        Some(i) => {
            proof {
                let k = choose|k: int| first_at(s@, sep@, k);
                assert(k == i as int) by {
                    if k < i {
                        assert(!occurs_at(s@, sep@, k));
                    } else if k > i {
                        assert(!occurs_at(s@, sep@, i as int));
                    }
                }
            }
            assert(occurs_at(sv@, pv@, i as int));
            assert(i + pv.len() <= sv.len());
            let end = i + pv.len();
            Some(string_of(&sv, end, sv.len()))
        },
        None => None,
    }
}

/// The digit character for `d < 10`.
pub fn digit(d: u32) -> (c: char)
    requires
        d < 10,
    ensures
        c == digit_char(d as nat),
{
    let b: u8 = (d as u8) + 48;
    b as char
}

/// Appends the decimal representation of `n` to `out`.
pub fn push_decimal(out: &mut String, n: u32)
    ensures
        final(out)@ == old(out)@ + decimal(n as nat),
    decreases n,
{
    if n < 10 {
        push_char(out, digit(n));
        assert(old(out)@.push(digit_char(n as nat)) =~= old(out)@ + seq![digit_char(n as nat)]);
    } else {
        push_decimal(out, n / 10);
        push_char(out, digit(n % 10));
        assert(decimal(n as nat) == decimal((n / 10) as nat).push(digit_char((n % 10) as nat)));
        assert(old(out)@ + decimal((n / 10) as nat) + seq![digit_char((n % 10) as nat)] =~= old(
            out,
        )@ + decimal(n as nat));
    }
}

/// Appends `n` zero-padded to two digits (`{:02}`).
pub fn push_decimal2(out: &mut String, n: u32)
    ensures
        final(out)@ == old(out)@ + decimal2(n as nat),
{
    if n < 10 {
        push_char(out, '0');
        push_char(out, digit(n));
        assert(old(out)@.push('0').push(digit_char(n as nat)) =~= old(out)@ + seq!['0'].push(
            digit_char(n as nat),
        ));
    } else {
        push_decimal(out, n);
    }
}

/// `n` in decimal (`u32::to_string`).
pub fn decimal_string(n: u32) -> (r: String)
    ensures
        r@ == decimal(n as nat),
{
    let mut r = String::new();
    push_decimal(&mut r, n);
    assert(Seq::<char>::empty() + decimal(n as nat) =~= decimal(n as nat));
    r
}

/// Parses an unsigned 32-bit decimal number (`str::parse::<u32>`).
pub fn parse_u32_str(s: &str) -> (r: Option<u32>)
    ensures
        r == parse_u32(s@),
{
    let v = chars_of(s);
    let start: usize = if v.len() > 0 && v[0] == '+' {
        1
    } else {
        0
    };
    let ghost body = unsigned_body(s@);
    assert(body =~= v@.subrange(start as int, v.len() as int));
    if start >= v.len() {
        return None;
    }
    let mut acc: u64 = 0;
    let mut over = false;
    let mut k = start;
    while k < v.len()
        invariant
            start <= k <= v.len(),
            body == unsigned_body(s@),
            body == v@.subrange(start as int, v.len() as int),
            all_digits(v@.subrange(start as int, k as int)),
            over ==> digits_value(v@.subrange(start as int, k as int)) > u32::MAX,
            !over ==> acc == digits_value(v@.subrange(start as int, k as int)) && acc <= u32::MAX,
        decreases v.len() - k,
    {
        let c = v[k];
        if !('0' <= c && c <= '9') {
            assert(body[k - start] == c);
            assert(!is_digit(body[k - start]));
            return None;
        }
        let d = (c as u32 - 48) as u64;
        let ghost pre = v@.subrange(start as int, k as int);
        let ghost nxt = v@.subrange(start as int, k + 1);
        assert(nxt.drop_last() =~= pre);
        assert(nxt.last() == c);
        assert(digits_value(nxt) == digits_value(pre) * 10 + d);
        assert(all_digits(nxt)) by {
            assert forall|i: int| 0 <= i < nxt.len() implies is_digit(#[trigger] nxt[i]) by {
                if i < pre.len() {
                    assert(nxt[i] == pre[i]);
                }
            }
        }
        if !over {
            let next = acc * 10 + d;
            if next > 0xFFFF_FFFF {
                over = true;
            } else {
                acc = next;
            }
        }
        k += 1;
    }
    if over {
        None
    } else {
        Some(acc as u32)
    }
}


/// `s` without any trailing `c` (`str::trim_end_matches(c)`).
pub open spec fn strip_end(s: Seq<char>, c: char) -> Seq<char>
    decreases s.len(),
{
    if s.len() > 0 && s.last() == c {
        strip_end(s.drop_last(), c)
    } else {
        s
    }
}

/// `s` without any leading `c` (`str::trim_start_matches(c)`).
pub open spec fn strip_start(s: Seq<char>, c: char) -> Seq<char>
    decreases s.len(),
{
    if s.len() > 0 && s[0] == c {
        strip_start(s.drop_first(), c)
    } else {
        s
    }
}

/// The end of `s[..hi]` once trailing `c` are removed.
pub fn strip_end_bound(s: &Vec<char>, lo: usize, hi: usize, c: char) -> (r: usize)
    requires
        lo <= hi <= s.len(),
    ensures
        lo <= r <= hi,
        s@.subrange(lo as int, r as int) == strip_end(s@.subrange(lo as int, hi as int), c),
{
    let mut j = hi;
    while j > lo && s[j - 1] == c
        invariant
            lo <= j <= hi <= s.len(),
            strip_end(s@.subrange(lo as int, hi as int), c) == strip_end(
                s@.subrange(lo as int, j as int),
                c,
            ),
        decreases j,
    {
        assert(s@.subrange(lo as int, j as int).drop_last() =~= s@.subrange(lo as int, j - 1));
        j -= 1;
    }
    j
}

/// The start of `s[lo..hi]` once leading `c` are removed.
pub fn strip_start_bound(s: &Vec<char>, lo: usize, hi: usize, c: char) -> (r: usize)
    requires
        lo <= hi <= s.len(),
    ensures
        lo <= r <= hi,
        s@.subrange(r as int, hi as int) == strip_start(s@.subrange(lo as int, hi as int), c),
{
    let mut i = lo;
    while i < hi && s[i] == c
        invariant
            lo <= i <= hi <= s.len(),
            strip_start(s@.subrange(lo as int, hi as int), c) == strip_start(
                s@.subrange(i as int, hi as int),
                c,
            ),
        decreases hi - i,
    {
        assert(s@.subrange(i as int, hi as int).drop_first() =~= s@.subrange(i + 1, hi as int));
        i += 1;
    }
    i
}

/// The leading whitespace-free start of `s[lo..]`.
pub fn trim_start_bound(s: &Vec<char>, lo: usize) -> (r: usize)
    requires
        lo <= s.len(),
    ensures
        lo <= r <= s.len(),
        s@.subrange(r as int, s.len() as int) == trim_start(s@.subrange(lo as int, s.len() as int)),
{
    let n = s.len();
    let mut i = lo;
    while i < n && is_whitespace(s[i])
        invariant
            lo <= i <= n,
            n == s.len(),
            trim_start(s@.subrange(lo as int, n as int)) == trim_start(
                s@.subrange(i as int, n as int),
            ),
        decreases n - i,
    {
        assert(s@.subrange(i as int, n as int).drop_first() =~= s@.subrange(i + 1, n as int));
        i += 1;
    }
    i
}


/// Lexicographic order by character (the order of `str`'s `Ord`).
pub open spec fn lex_le(a: Seq<char>, b: Seq<char>) -> bool
    decreases a.len(),
{
    if a.len() == 0 {
        true
    } else if b.len() == 0 {
        false
    } else if a[0] != b[0] {
        a[0] < b[0]
    } else {
        lex_le(a.drop_first(), b.drop_first())
    }
}

/// Lexicographic order is reflexive.
pub proof fn lemma_lex_refl(a: Seq<char>)
    ensures
        lex_le(a, a),
    decreases a.len(),
{
    if a.len() > 0 {
        lemma_lex_refl(a.drop_first());
    }
}

/// Any two strings are ordered one way or the other.
pub proof fn lemma_lex_total(a: Seq<char>, b: Seq<char>)
    ensures
        lex_le(a, b) || lex_le(b, a),
    decreases a.len(),
{
    if a.len() > 0 && b.len() > 0 && a[0] == b[0] {
        lemma_lex_total(a.drop_first(), b.drop_first());
    }
}

/// Strings ordered both ways are equal.
pub proof fn lemma_lex_antisym(a: Seq<char>, b: Seq<char>)
    requires
        lex_le(a, b),
        lex_le(b, a),
    ensures
        a == b,
    decreases a.len(),
{
    if a.len() > 0 && b.len() > 0 {
        lemma_lex_antisym(a.drop_first(), b.drop_first());
        assert(a =~= seq![a[0]] + a.drop_first());
        assert(b =~= seq![b[0]] + b.drop_first());
    }
}

/// Lexicographic order is transitive.
pub proof fn lemma_lex_trans(a: Seq<char>, b: Seq<char>, c: Seq<char>)
    requires
        lex_le(a, b),
        lex_le(b, c),
    ensures
        lex_le(a, c),
    decreases a.len(),
{
    if a.len() > 0 && b.len() > 0 && c.len() > 0 && a[0] == b[0] && b[0] == c[0] {
        lemma_lex_trans(a.drop_first(), b.drop_first(), c.drop_first());
    }
}

/// Whether `a` comes before or equals `b` in lexicographic order.
pub fn lex_le_exec(a: &Vec<char>, b: &Vec<char>) -> (r: bool)
    ensures
        r == lex_le(a@, b@),
{
    let mut k: usize = 0;
    assert(a@.subrange(0, a.len() as int) =~= a@);
    assert(b@.subrange(0, b.len() as int) =~= b@);
    while k < a.len() && k < b.len() && a[k] == b[k]
        invariant
            k <= a.len(),
            k <= b.len(),
            lex_le(a@, b@) == lex_le(a@.subrange(k as int, a.len() as int), b@.subrange(
                k as int,
                b.len() as int,
            )),
        decreases a.len() - k,
    {
        assert(a@.subrange(k as int, a.len() as int).drop_first() =~= a@.subrange(
            k + 1,
            a.len() as int,
        ));
        assert(b@.subrange(k as int, b.len() as int).drop_first() =~= b@.subrange(
            k + 1,
            b.len() as int,
        ));
        k += 1;
    }
    if k == a.len() {
        true
    } else if k == b.len() {
        false
    } else {
        a[k] < b[k]
    }
}


/// The pieces of `s[start..]` between occurrences of `sep`, found scanning left to
/// right from position `i` (`str::split`); the current piece began at `start`.
pub open spec fn split_from(s: Seq<char>, sep: Seq<char>, start: int, i: int) -> Seq<Seq<char>>
    decreases s.len() - i,
{
    if sep.len() == 0 || i < start || start < 0 || i + sep.len() > s.len() {
        seq![s.subrange(start, s.len() as int)]
    } else if occurs_at(s, sep, i) {
        seq![s.subrange(start, i)] + split_from(s, sep, i + sep.len(), i + sep.len())
    } else {
        split_from(s, sep, start, i + 1)
    }
}

/// The pieces of `s` between occurrences of `sep` (`str::split(sep)`, `sep` not empty).
pub open spec fn split(s: Seq<char>, sep: Seq<char>) -> Seq<Seq<char>> {
    split_from(s, sep, 0, 0)
}

/// The pieces of `s` between occurrences of `sep`.
pub fn split_str(s: &str, sep: &str) -> (r: Vec<String>)
    requires
        sep@.len() > 0,
    ensures
        r.deep_view() == split(s@, sep@),
{
    let v = chars_of(s);
    let p = chars_of(sep);
    let n = v.len();
    let mut out: Vec<String> = Vec::new();
    let mut start: usize = 0;
    let mut i: usize = 0;
    while i < n && p.len() <= n - i
        invariant
            start <= i <= n,
            n == v.len(),
            p@ == sep@,
            v@ == s@,
            p@.len() > 0,
            out.deep_view() + split_from(v@, p@, start as int, i as int) == split(s@, sep@),
        decreases n - i,
    {
        if occurs_at_exec(&v, &p, i) {
            let piece = string_of(&v, start, i);
            let ghost prev = out.deep_view();
            out.push(piece);
            assert(out.deep_view() =~= prev.push(v@.subrange(start as int, i as int)));
            assert(prev + split_from(v@, p@, start as int, i as int) =~= out.deep_view()
                + split_from(v@, p@, (i + p.len()) as int, (i + p.len()) as int));
            i = i + p.len();
            start = i;
        } else {
            i = i + 1;
        }
    }
    let piece = string_of(&v, start, n);
    let ghost prev = out.deep_view();
    out.push(piece);
    assert(out.deep_view() =~= prev.push(v@.subrange(start as int, n as int)));
    assert(prev + split_from(v@, p@, start as int, i as int) =~= out.deep_view());
    out
}


/// The position of the first occurrence of `p` in `s` (meaningful when it occurs).
pub open spec fn first_index(s: Seq<char>, p: Seq<char>) -> int {
    choose|i: int| first_at(s, p, i)
}

/// The first occurrence is unique, so `first_index` names the one found.
pub proof fn lemma_first_index(s: Seq<char>, p: Seq<char>, i: int)
    requires
        first_at(s, p, i),
    ensures
        first_index(s, p) == i,
        has_sub(s, p),
{
    let k = first_index(s, p);
    assert(first_at(s, p, k));
    if k < i {
        assert(!occurs_at(s, p, k));
    } else if k > i {
        assert(!occurs_at(s, p, i));
    }
}

/// Whether `v` holds the string `s`.
pub fn contains_string(v: &Vec<String>, s: &str) -> (r: bool)
    ensures
        r == v.deep_view().contains(s@),
{
    let mut i: usize = 0;
    while i < v.len()
        invariant
            i <= v@.len(),
            forall|k: int| 0 <= k < i ==> v.deep_view()[k] != s@,
        decreases v@.len() - i,
    {
        if str_eq(v[i].as_str(), s) {
            assert(v.deep_view()[i as int] == s@);
            return true;
        }
        i += 1;
    }
    false
}

/// Two texts joined start with the first and end with the second.
pub proof fn lemma_joined_ends(x: Seq<char>, y: Seq<char>)
    ensures
        starts(x + y, x),
        ends(x + y, y),
        has_sub(x + y, x),
        has_sub(x + y, y),
{
    assert((x + y).subrange(0, x.len() as int) =~= x);
    assert((x + y).subrange(x.len() as int, (x + y).len() as int) =~= y);
    assert(occurs_at(x + y, x, 0));
    assert(occurs_at(x + y, y, x.len() as int));
}

} // verus!
