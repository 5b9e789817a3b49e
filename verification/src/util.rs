//! Small verified helpers shared by the parser and the code generator:
//! searching a token vector, taking sub-slices of it, and converting between
//! integers and their decimal text.
use vstd::prelude::*;

verus! {

use vstd::string::StringExecFns;
use vstd::string::StrSliceExecFns;

/// The views of a sequence of tokens: each `String` replaced by its
/// character sequence.
pub open spec fn tok_views(toks: Seq<String>) -> Seq<Seq<char>> {
    toks.map_values(|t: String| t@)
}

/// First index `>= i` whose token equals `pat`, if any.
pub open spec fn spec_find_from(toks: Seq<Seq<char>>, i: int, pat: Seq<char>) -> Option<int>
    decreases toks.len() - i,
{
    if i < 0 || i >= toks.len() {
        None
    } else if toks[i] == pat {
        Some(i)
    } else {
        spec_find_from(toks, i + 1, pat)
    }
}

/// First index whose token equals `pat`, if any.
pub open spec fn spec_find(toks: Seq<Seq<char>>, pat: Seq<char>) -> Option<int> {
    spec_find_from(toks, 0, pat)
}

/// Whether `tok` occurs among `pats`.
pub open spec fn spec_tok_among(pats: Seq<Seq<char>>, tok: Seq<char>) -> bool {
    exists|j: int| 0 <= j < pats.len() && pats[j] == tok
}

/// First index `>= i` whose token occurs among `pats`, if any.
pub open spec fn spec_find_any_from(toks: Seq<Seq<char>>, i: int, pats: Seq<Seq<char>>) -> Option<
    int,
>
    decreases toks.len() - i,
{
    if i < 0 || i >= toks.len() {
        None
    } else if spec_tok_among(pats, toks[i]) {
        Some(i)
    } else {
        spec_find_any_from(toks, i + 1, pats)
    }
}

/// The values of a sequence of machine-sized indices.
pub open spec fn usizes_view(s: Seq<usize>) -> Seq<int> {
    s.map_values(|x: usize| x as int)
}

/// A found index lies between the search start and the end of the tokens.
pub proof fn lemma_find_from_range(toks: Seq<Seq<char>>, i: int, pat: Seq<char>)
    requires
        0 <= i,
        spec_find_from(toks, i, pat) is Some,
    ensures
        i <= spec_find_from(toks, i, pat)->Some_0 < toks.len(),
        toks[spec_find_from(toks, i, pat)->Some_0] == pat,
    decreases toks.len() - i,
{
    if i < toks.len() && toks[i] != pat {
        lemma_find_from_range(toks, i + 1, pat);
    }
}

/// A found index lies between the search start and the end of the tokens.
pub proof fn lemma_find_any_range(toks: Seq<Seq<char>>, i: int, pats: Seq<Seq<char>>)
    requires
        0 <= i,
        spec_find_any_from(toks, i, pats) is Some,
    ensures
        i <= spec_find_any_from(toks, i, pats)->Some_0 < toks.len(),
        spec_tok_among(pats, toks[spec_find_any_from(toks, i, pats)->Some_0]),
    decreases toks.len() - i,
{
    if i < toks.len() && !spec_tok_among(pats, toks[i]) {
        lemma_find_any_range(toks, i + 1, pats);
    }
}

/// Whether two pieces of text are equal, checked character for character.
pub fn str_eq(a: &str, b: &str) -> (r: bool)
    ensures
        r == (a@ == b@),
{
    let sa: String = a.to_owned();
    let sb: String = b.to_owned();
    sa.eq(&sb)
}

/// Returns the index of the first instance of `pattern` in this vector,
/// or `None` if `pattern` does not occur.
pub fn find(v: &Vec<String>, pattern: &str) -> (r: Option<usize>)
    ensures
        match r {
            Some(i) => spec_find(tok_views(v@), pattern@) == Some(i as int),
            None => spec_find(tok_views(v@), pattern@) is None,
        },
{
    let mut i: usize = 0;
    while i < v.len()
        invariant
            0 <= i <= v@.len(),
            spec_find_from(tok_views(v@), 0, pattern@) == spec_find_from(
                tok_views(v@),
                i as int,
                pattern@,
            ),
        decreases v@.len() - i,
    {
        if str_eq(v[i].as_str(), pattern) {
            return Some(i);
        }
        i = i + 1;
    }
    None
}

/// Returns the index of the first instance of `pattern` strictly after `index`,
/// or `None` if there is none.
pub fn find_after_index(v: &Vec<String>, index: usize, pattern: &str) -> (r: Option<usize>)
    ensures
        match r {
            Some(i) => spec_find_from(tok_views(v@), index + 1, pattern@) == Some(i as int),
            None => spec_find_from(tok_views(v@), index + 1, pattern@) is None,
        },
{
    if index >= v.len() {
        return None;
    }
    let mut i: usize = index + 1;
    while i < v.len()
        invariant
            index + 1 <= i <= v@.len(),
            spec_find_from(tok_views(v@), index + 1, pattern@) == spec_find_from(
                tok_views(v@),
                i as int,
                pattern@,
            ),
        decreases v@.len() - i,
    {
        if str_eq(v[i].as_str(), pattern) {
            return Some(i);
        }
        i = i + 1;
    }
    None
}

/// Whether `tok` occurs among `pats`.
pub fn tok_among(pats: &Vec<String>, tok: &String) -> (r: bool)
    ensures
        r == spec_tok_among(tok_views(pats@), tok@),
{
    let mut j: usize = 0;
    while j < pats.len()
        invariant
            0 <= j <= pats@.len(),
            forall|k: int| 0 <= k < j ==> tok_views(pats@)[k] != tok@,
        decreases pats@.len() - j,
    {
        if pats[j].eq(tok) {
            assert(tok_views(pats@)[j as int] == tok@);
            return true;
        }
        j = j + 1;
    }
    false
}

/// Returns the index of the first element that equals any element of
/// `patterns`, or `None` if none occurs.
pub fn find_from_vec(v: &Vec<String>, patterns: &Vec<String>) -> (r: Option<usize>)
    ensures
        match r {
            Some(i) => spec_find_any_from(tok_views(v@), 0, tok_views(patterns@)) == Some(i as int),
            None => spec_find_any_from(tok_views(v@), 0, tok_views(patterns@)) is None,
        },
{
    let mut i: usize = 0;
    while i < v.len()
        invariant
            0 <= i <= v@.len(),
            spec_find_any_from(tok_views(v@), 0, tok_views(patterns@)) == spec_find_any_from(
                tok_views(v@),
                i as int,
                tok_views(patterns@),
            ),
        decreases v@.len() - i,
    {
        if tok_among(patterns, &v[i]) {
            return Some(i);
        }
        i = i + 1;
    }
    None
}

/// A copy of `v[start..end]`.
pub fn subvec(v: &Vec<String>, start: usize, end: usize) -> (r: Vec<String>)
    requires
        start <= end <= v@.len(),
    ensures
        r@ == v@.subrange(start as int, end as int),
{
    let mut r: Vec<String> = Vec::new();
    let mut i: usize = start;
    while i < end
        invariant
            start <= i <= end <= v@.len(),
            r@ == v@.subrange(start as int, i as int),
        decreases end - i,
    {
        r.push(v[i].clone());
        proof {
            assert(r@ =~= v@.subrange(start as int, i + 1));
        }
        i = i + 1;
    }
    r
}

/// Token views of a sub-slice are the sub-slice of the token views.
pub proof fn lemma_tok_views_subrange(toks: Seq<String>, start: int, end: int)
    requires
        0 <= start <= end <= toks.len(),
    ensures
        tok_views(toks.subrange(start, end)) == tok_views(toks).subrange(start, end),
{
    assert(tok_views(toks.subrange(start, end)) =~= tok_views(toks).subrange(start, end));
}

/// Two pieces of text joined.
pub fn concat2(a: &str, b: &str) -> (r: String)
    ensures
        r@ == a@ + b@,
{
    let mut s = String::from_str(a);
    s.append(b);
    s
}

/// Three pieces of text joined.
pub fn concat3(a: &str, b: &str, c: &str) -> (r: String)
    ensures
        r@ == a@ + b@ + c@,
{
    let mut s = String::from_str(a);
    s.append(b);
    s.append(c);
    s
}

/// Four pieces of text joined.
pub fn concat4(a: &str, b: &str, c: &str, d: &str) -> (r: String)
    ensures
        r@ == a@ + b@ + c@ + d@,
{
    let mut s = String::from_str(a);
    s.append(b);
    s.append(c);
    s.append(d);
    s
}

/// Five pieces of text joined.
pub fn concat5(a: &str, b: &str, c: &str, d: &str, e: &str) -> (r: String)
    ensures
        r@ == a@ + b@ + c@ + d@ + e@,
{
    let mut s = String::from_str(a);
    s.append(b);
    s.append(c);
    s.append(d);
    s.append(e);
    s
}

/// The product of a value that fits in 64 bits and one no greater than the
/// 64-bit range fits in 128 bits.
pub proof fn lemma_mul_fits_u128(a: int, b: int)
    requires
        0 <= a < 0x1_0000_0000_0000_0000,
        0 <= b <= 0x1_0000_0000_0000_0000,
    ensures
        0 <= a * b <= 0xFFFF_FFFF_FFFF_FFFF_FFFF_FFFF_FFFF_FFFF,
        a * b == b * a,
{
    assert(a * b == b * a) by (nonlinear_arith);
    assert(a * b <= 0xFFFF_FFFF_FFFF_FFFF_FFFF_FFFF_FFFF_FFFF) by (nonlinear_arith)
        requires
            0 <= a < 0x1_0000_0000_0000_0000,
            0 <= b <= 0x1_0000_0000_0000_0000,
    ;
    assert(0 <= a * b) by (nonlinear_arith)
        requires
            0 <= a,
            0 <= b,
    ;
}

/// The numeric value of a decimal digit; 10 marks every other character.
pub open spec fn digit_val(c: char) -> int {
    if c == '0' {
        0
    } else if c == '1' {
        1
    } else if c == '2' {
        2
    } else if c == '3' {
        3
    } else if c == '4' {
        4
    } else if c == '5' {
        5
    } else if c == '6' {
        6
    } else if c == '7' {
        7
    } else if c == '8' {
        8
    } else if c == '9' {
        9
    } else {
        10
    }
}

/// The decimal digit for a value below ten.
pub open spec fn digit_char(d: int) -> char {
    if d == 0 {
        '0'
    } else if d == 1 {
        '1'
    } else if d == 2 {
        '2'
    } else if d == 3 {
        '3'
    } else if d == 4 {
        '4'
    } else if d == 5 {
        '5'
    } else if d == 6 {
        '6'
    } else if d == 7 {
        '7'
    } else if d == 8 {
        '8'
    } else {
        '9'
    }
}

/// Whether every character of `s` is a decimal digit.
pub open spec fn spec_all_digits(s: Seq<char>) -> bool {
    forall|i: int| 0 <= i < s.len() ==> digit_val(s[i]) < 10
}

/// The value of a string of decimal digits.
pub open spec fn spec_digits_val(s: Seq<char>) -> int
    decreases s.len(),
{
    if s.len() == 0 {
        0
    } else {
        spec_digits_val(s.drop_last()) * 10 + digit_val(s.last())
    }
}

/// The decimal text of a non-negative integer.
pub open spec fn spec_udec(n: int) -> Seq<char>
    decreases n,
{
    if n < 10 {
        seq![digit_char(n)]
    } else {
        spec_udec(n / 10).push(digit_char(n % 10))
    }
}

/// The decimal text of an integer, with a leading minus sign when negative.
pub open spec fn spec_idec(n: int) -> Seq<char> {
    if n < 0 {
        seq!['-'] + spec_udec(-n)
    } else {
        spec_udec(n)
    }
}

fn push_digit(s: &mut String, d: u128)
    requires
        d < 10,
    ensures
        final(s)@ == old(s)@.push(digit_char(d as int)),
{
    proof {
        reveal_strlit("0");
        reveal_strlit("1");
        reveal_strlit("2");
        reveal_strlit("3");
        reveal_strlit("4");
        reveal_strlit("5");
        reveal_strlit("6");
        reveal_strlit("7");
        reveal_strlit("8");
        reveal_strlit("9");
    }
    if d == 0 {
        s.append("0");
    } else if d == 1 {
        s.append("1");
    } else if d == 2 {
        s.append("2");
    } else if d == 3 {
        s.append("3");
    } else if d == 4 {
        s.append("4");
    } else if d == 5 {
        s.append("5");
    } else if d == 6 {
        s.append("6");
    } else if d == 7 {
        s.append("7");
    } else if d == 8 {
        s.append("8");
    } else {
        s.append("9");
    }
    proof {
        assert(s@ =~= old(s)@.push(digit_char(d as int)));
    }
}

/// The decimal text of `n`.
pub fn u128_to_string(n: u128) -> (s: String)
    ensures
        s@ == spec_udec(n as int),
    decreases n,
{
    if n < 10 {
        let mut s = String::new();
        push_digit(&mut s, n);
        proof {
            assert(s@ =~= spec_udec(n as int));
        }
        s
    } else {
        let mut s = u128_to_string(n / 10);
        push_digit(&mut s, n % 10);
        s
    }
}

/// The decimal text of `n`, signed.
pub fn i64_to_string(n: i64) -> (s: String)
    ensures
        s@ == spec_idec(n as int),
{
    proof {
        reveal_strlit("-");
    }
    if n >= 0 {
        u128_to_string(n as u128)
    } else {
        let m: u128 = (-(n as i128)) as u128;
        let mut s = String::from_str("-");
        let tail = u128_to_string(m);
        s.append(tail.as_str());
        proof {
            assert(s@ =~= spec_idec(n as int));
        }
        s
    }
}

/// Conversion of an integer to the text the assembler takes it as.
pub trait I64Extra {
    /// The text of this value, as mathematical characters.
    spec fn spec_assembly_value(&self) -> Seq<char>;

    /// Converts this number into a string formatted for the assembler.
    fn to_assembly_value(&self) -> (r: String)
        ensures
            r@ == self.spec_assembly_value(),
    ;
}

impl I64Extra for i64 {
    open spec fn spec_assembly_value(&self) -> Seq<char> {
        spec_idec(*self as int)
    }

    fn to_assembly_value(&self) -> (r: String) {
        i64_to_string(*self)
    }
}

/// What reading a piece of text as a 64-bit signed decimal integer yields:
/// an optional sign, then one or more digits, rejected when the value falls
/// outside the representable range.
pub open spec fn spec_parse_i64(s: Seq<char>) -> Option<int> {
    let ds = if s.len() > 0 && (s[0] == '-' || s[0] == '+') {
        s.skip(1)
    } else {
        s
    };
    let neg = s.len() > 0 && s[0] == '-';
    if ds.len() == 0 || !spec_all_digits(ds) {
        None
    } else {
        let v = if neg {
            -spec_digits_val(ds)
        } else {
            spec_digits_val(ds)
        };
        if -0x8000_0000_0000_0000 <= v <= 0x7FFF_FFFF_FFFF_FFFF {
            Some(v)
        } else {
            None
        }
    }
}

/// Whether a piece of text is a float literal: at least two characters,
/// exactly one decimal point, and digits everywhere else.
pub open spec fn spec_is_float_text(s: Seq<char>) -> bool {
    exists|k: int|
        0 <= k < s.len() && s[k] == '.' && s.len() >= 2 && (forall|i: int|
            0 <= i < s.len() && i != k ==> digit_val(#[trigger] s[i]) < 10)
}

/// Whether the whole text is a float literal of the language.
#[verifier::loop_isolation(false)]
pub fn is_float_text(s: &str) -> (r: bool)
    ensures
        r == spec_is_float_text(s@),
{
    let n = s.unicode_len();
    let mut dot: Option<usize> = None;
    let mut i: usize = 0;
    while i < n
        invariant
            0 <= i <= n,
            n == s@.len(),
            match dot {
                Some(k) => 0 <= k < i && s@[k as int] == '.' && (forall|j: int|
                    0 <= j < i && j != k ==> digit_val(#[trigger] s@[j]) < 10),
                None => forall|j: int| 0 <= j < i ==> digit_val(#[trigger] s@[j]) < 10,
            },
        decreases n - i,
    {
        let c = s.get_char(i);
        if c == '.' {
            if dot.is_some() {
                proof {
                    let k0 = dot->0;
                    assert forall|k: int|
                        0 <= k < s@.len() && s@[k] == '.' implies !(s@.len() >= 2 && (forall|
                        j: int,
                    |
                        0 <= j < s@.len() && j != k ==> digit_val(#[trigger] s@[j]) < 10)) by {
                        if k == k0 {
                            assert(digit_val(s@[i as int]) >= 10);
                        } else {
                            assert(digit_val(s@[k0 as int]) >= 10);
                        }
                    }
                }
                return false;
            }
            dot = Some(i);
        } else {
            let d = digit_of(c);
            if d >= 10 {
                proof {
                    assert forall|k: int|
                        0 <= k < s@.len() && s@[k] == '.' implies !(s@.len() >= 2 && (forall|
                        j: int,
                    |
                        0 <= j < s@.len() && j != k ==> digit_val(#[trigger] s@[j]) < 10)) by {
                        assert(digit_val(s@[i as int]) >= 10 && s@[i as int] != '.');
                    }
                }
                return false;
            }
        }
        i = i + 1;
    }
    match dot {
        Some(k) => {
            if n >= 2 {
                proof {
                    assert(0 <= k < s@.len() && s@[k as int] == '.' && s@.len() >= 2 && (forall|
                        j: int,
                    |
                        0 <= j < s@.len() && j != k ==> digit_val(#[trigger] s@[j]) < 10));
                }
                true
            } else {
                proof {
                    assert forall|k2: int|
                        0 <= k2 < s@.len() && s@[k2] == '.' implies !(s@.len() >= 2) by {}
                }
                false
            }
        },
        None => {
            proof {
                assert forall|k: int| 0 <= k < s@.len() implies s@[k] != '.' by {
                    assert(digit_val(s@[k]) < 10);
                }
            }
            false
        },
    }
}

/// The value of a digit string is never negative.
pub proof fn lemma_digits_val_nonneg(s: Seq<char>)
    requires
        spec_all_digits(s),
    ensures
        0 <= spec_digits_val(s),
    decreases s.len(),
{
    if s.len() > 0 {
        lemma_all_digits_prefix(s, s.len() - 1);
        lemma_digits_val_nonneg(s.drop_last());
    }
}

/// A prefix of a digit string is a digit string.
proof fn lemma_all_digits_prefix(s: Seq<char>, k: int)
    requires
        spec_all_digits(s),
        0 <= k <= s.len(),
    ensures
        spec_all_digits(s.take(k)),
{
    assert(forall|i: int| 0 <= i < k ==> digit_val(s.take(k)[i]) == digit_val(s[i]));
}

/// Extending a digit string never shrinks its value.
proof fn lemma_digits_val_prefix(s: Seq<char>, k: int)
    requires
        spec_all_digits(s),
        0 <= k <= s.len(),
    ensures
        spec_digits_val(s.take(k)) <= spec_digits_val(s),
    decreases s.len() - k,
{
    if k < s.len() {
        lemma_digits_val_prefix(s, k + 1);
        let t = s.take(k + 1);
        lemma_all_digits_prefix(s, k + 1);
        lemma_all_digits_prefix(t, k);
        lemma_digits_val_nonneg(t.drop_last());
        assert(t.drop_last() =~= s.take(k));
        assert(spec_digits_val(t) == spec_digits_val(s.take(k)) * 10 + digit_val(t.last()));
        lemma_digits_val_nonneg(s.take(k));
    } else {
        assert(s.take(k) =~= s);
    }
}

/// The numeric value of one character as a decimal digit, 10 when it is none.
fn digit_of(c: char) -> (d: u32)
    ensures
        d == digit_val(c),
{
    if c == '0' {
        0
    } else if c == '1' {
        1
    } else if c == '2' {
        2
    } else if c == '3' {
        3
    } else if c == '4' {
        4
    } else if c == '5' {
        5
    } else if c == '6' {
        6
    } else if c == '7' {
        7
    } else if c == '8' {
        8
    } else if c == '9' {
        9
    } else {
        10
    }
}

/// Reads a 64-bit signed decimal integer from text, exactly when the whole
/// text is an optional sign followed by digits and the value fits the range.
#[verifier::loop_isolation(false)]
pub fn parse_i64(s: &str) -> (r: Option<i64>)
    ensures
        match r {
            Some(v) => spec_parse_i64(s@) == Some(v as int),
            None => spec_parse_i64(s@) is None,
        },
{
    let n = s.unicode_len();
    if n == 0 {
        return None;
    }
    let c0 = s.get_char(0);
    let neg = c0 == '-';
    let start: usize = if c0 == '-' || c0 == '+' {
        1
    } else {
        0
    };
    let ghost ds = if start == 1 {
        s@.skip(1)
    } else {
        s@
    };
    proof {
        assert(ds =~= s@.subrange(start as int, n as int));
    }
    if start >= n {
        return None;
    }
    let mut acc: u128 = 0;
    let mut i = start;
    while i < n
        invariant
            start <= i <= n,
            n == s@.len(),
            start == 0 || start == 1,
            ds == s@.subrange(start as int, n as int),
            spec_all_digits(s@.subrange(start as int, i as int)),
            acc == spec_digits_val(s@.subrange(start as int, i as int)),
            acc <= 0x8000_0000_0000_0000,
        decreases n - i,
    {
        let d = digit_of(s.get_char(i));
        if d >= 10 {
            proof {
                assert(!spec_all_digits(ds)) by {
                    assert(ds[i - start] == s@[i as int]);
                    assert(digit_val(ds[i - start]) >= 10);
                }
            }
            return None;
        }
        proof {
            let p = s@.subrange(start as int, i as int);
            let q = s@.subrange(start as int, i + 1);
            assert(q.drop_last() =~= p);
            assert(q.last() == s@[i as int]);
            assert(spec_all_digits(q)) by {
                assert forall|j: int| 0 <= j < q.len() implies digit_val(q[j]) < 10 by {
                    if j < q.len() - 1 {
                        assert(q[j] == p[j]);
                    } else {
                        assert(q[j] == s@[i as int]);
                    }
                }
            }
            assert(spec_digits_val(q) == spec_digits_val(p) * 10 + digit_val(s@[i as int]));
        }
        acc = acc * 10 + d as u128;
        i = i + 1;
        if acc > 0x8000_0000_0000_0000 {
            proof {
                let p = s@.subrange(start as int, i as int);
                if spec_all_digits(ds) {
                    assert(p =~= ds.take(i - start));
                    lemma_digits_val_prefix(ds, i - start);
                    assert(spec_digits_val(ds) >= acc);
                }
                assert(spec_parse_i64(s@) is None);
            }
            return None;
        }
    }
    proof {
        assert(s@.subrange(start as int, i as int) =~= ds);
    }
    if neg {
        if acc == 0x8000_0000_0000_0000 {
            Some(i64::MIN)
        } else {
            Some(-(acc as i64))
        }
    } else {
        if acc == 0x8000_0000_0000_0000 {
            None
        } else {
            Some(acc as i64)
        }
    }
}

} // verus!
