//! Character-level helpers shared by the path and naming rules.

use vstd::prelude::*;
use vstd::string::*;

verus! {

/// The lower-case form of an ASCII upper-case letter; every other character is kept.
pub open spec fn lower_char(c: char) -> char {
    if 'A' <= c && c <= 'Z' {
        ((c as u32) + 32) as char
    } else {
        c
    }
}

/// A text with every ASCII upper-case letter turned to lower case.
pub open spec fn ascii_lower(s: Seq<char>) -> Seq<char> {
    s.map_values(|c: char| lower_char(c))
}

/// The character of a decimal digit.
pub open spec fn digit_char(d: nat) -> char {
    if d == 0 { '0' }
    else if d == 1 { '1' }
    else if d == 2 { '2' }
    else if d == 3 { '3' }
    else if d == 4 { '4' }
    else if d == 5 { '5' }
    else if d == 6 { '6' }
    else if d == 7 { '7' }
    else if d == 8 { '8' }
    else { '9' }
}

/// The decimal notation of a natural number, without leading zeros.
pub open spec fn decimal(n: nat) -> Seq<char>
    decreases n,
{
    if n < 10 {
        seq![digit_char(n)]
    } else {
        decimal(n / 10).push(digit_char(n % 10))
    }
}

/// Appends one character to a string.
#[verifier::external_body]
pub(crate) fn push_char(s: &mut String, c: char)
    ensures
        final(s)@ == old(s)@.push(c),
{
    s.push(c);
}

/// The characters of a string slice.
pub fn chars_of(s: &str) -> (v: Vec<char>)
    ensures
        v@ == s@,
{
    let n = s.unicode_len();
    let mut v: Vec<char> = Vec::new();
    let mut i: usize = 0;
    while i < n
        invariant
            n == s@.len(),
            i <= n,
            v@ == s@.subrange(0, i as int),
        decreases n - i,
    {
        v.push(s.get_char(i));
        i = i + 1;
    }
    v
}

/// A string holding the given characters.
pub fn string_of(v: &Vec<char>) -> (s: String)
    ensures
        s@ == v@,
{
    let mut s = String::new();
    let mut i: usize = 0;
    while i < v.len()
        invariant
            i <= v.len(),
            s@ == v@.subrange(0, i as int),
        decreases v.len() - i,
    {
        push_char(&mut s, v[i]);
        i = i + 1;
    }
    s
}

/// Lower-cases one ASCII letter.
pub fn lower_char_exec(c: char) -> (r: char)
    ensures
        r == lower_char(c),
{
    if 'A' <= c && c <= 'Z' {
        let b: u32 = (c as u32) + 32;
        let u: u8 = b as u8;
        proof {
            assert(b < 256);
        }
        u as char
    } else {
        c
    }
}

/// The digit character of a number below ten.
pub fn digit_char_exec(d: u64) -> (c: char)
    requires
        d < 10,
    ensures
        c == digit_char(d as nat),
{
    if d == 0 { '0' }
    else if d == 1 { '1' }
    else if d == 2 { '2' }
    else if d == 3 { '3' }
    else if d == 4 { '4' }
    else if d == 5 { '5' }
    else if d == 6 { '6' }
    else if d == 7 { '7' }
    else if d == 8 { '8' }
    else { '9' }
}

/// Appends the decimal notation of `n`.
pub fn push_decimal(out: &mut Vec<char>, n: u64)
    ensures
        final(out)@ == old(out)@ + decimal(n as nat),
    decreases n,
{
    if n >= 10 {
        push_decimal(out, n / 10);
    }
    out.push(digit_char_exec(n % 10));
    proof {
        assert(decimal(n as nat) =~= if n < 10 { seq![digit_char(n as nat)] } else { decimal((n / 10) as nat).push(digit_char((n % 10) as nat)) });
    }
}

} // verus!

verus! {

/// The texts held by a list of strings.
pub open spec fn views(v: Seq<String>) -> Seq<Seq<char>> {
    v.map_values(|s: String| s@)
}

/// A copy of a list of strings.
pub fn copy_strings(v: &Vec<String>) -> (r: Vec<String>)
    ensures
        r@ == v@,
        views(r@) == views(v@),
{
    let mut r: Vec<String> = Vec::new();
    let mut i: usize = 0;
    while i < v.len()
        invariant
            i <= v.len(),
            r@ == v@.take(i as int),
        decreases v.len() - i,
    {
        r.push(v[i].clone());
        i = i + 1;
    }
    assert(v@.take(v.len() as int) =~= v@);
    r
}

/// A copy of a list of page numbers.
pub fn copy_pages(v: &Vec<u32>) -> (r: Vec<u32>)
    ensures
        r@ == v@,
{
    let mut r: Vec<u32> = Vec::new();
    let mut i: usize = 0;
    while i < v.len()
        invariant
            i <= v.len(),
            r@ == v@.take(i as int),
        decreases v.len() - i,
    {
        r.push(v[i]);
        i = i + 1;
    }
    assert(v@.take(v.len() as int) =~= v@);
    r
}

/// Whether two strings hold the same text.
pub fn same_text(a: &str, b: &str) -> (r: bool)
    ensures
        r == (a@ == b@),
{
    let x = chars_of(a);
    let y = chars_of(b);
    if x.len() != y.len() {
        return false;
    }
    let mut i: usize = 0;
    while i < x.len()
        invariant
            x.len() == y.len(),
            x@ == a@,
            y@ == b@,
            i <= x.len(),
            forall|j: int| 0 <= j < i ==> x@[j] == y@[j],
        decreases x.len() - i,
    {
        if x[i] != y[i] {
            return false;
        }
        i = i + 1;
    }
    assert(x@ =~= y@);
    true
}

} // verus!

verus! {

/// The view of a check's outcome.
pub open spec fn check_view(r: Result<(), String>) -> Result<(), Seq<char>> {
    match r {
        Ok(()) => Ok(()),
        Err(e) => Err(e@),
    }
}

/// The view of a text-or-error outcome.
pub open spec fn text_result_view(r: Result<String, String>) -> Result<Seq<char>, Seq<char>> {
    match r {
        Ok(s) => Ok(s@),
        Err(e) => Err(e@),
    }
}

/// A text followed by another.
pub fn concat2(a: &str, b: &str) -> (r: String)
    ensures
        r@ == a@ + b@,
{
    let mut r = a.to_owned();
    r.append(b);
    r
}

/// Three texts in a row.
pub fn concat3(a: &str, b: &str, c: &str) -> (r: String)
    ensures
        r@ == a@ + b@ + c@,
{
    let mut r = a.to_owned();
    r.append(b);
    r.append(c);
    r
}

} // verus!

verus! {

/// The Unicode `White_Space` characters.
pub open spec fn is_white(c: char) -> bool {
    ('\u{9}' <= c && c <= '\u{d}') || c == ' ' || c == '\u{85}' || c == '\u{a0}' || c == '\u{1680}'
        || ('\u{2000}' <= c && c <= '\u{200a}') || c == '\u{2028}' || c == '\u{2029}' || c == '\u{202f}'
        || c == '\u{205f}' || c == '\u{3000}'
}

/// The number of leading white characters.
pub open spec fn lead_white(s: Seq<char>) -> nat
    decreases s.len(),
{
    if s.len() > 0 && is_white(s[0]) {
        1 + lead_white(s.drop_first())
    } else {
        0
    }
}

/// The number of trailing white characters.
pub open spec fn trail_white(s: Seq<char>) -> nat
    decreases s.len(),
{
    if s.len() > 0 && is_white(s.last()) {
        1 + trail_white(s.drop_last())
    } else {
        0
    }
}

/// A text without leading and trailing white space.
pub open spec fn trimmed(s: Seq<char>) -> Seq<char> {
    let a = s.skip(lead_white(s) as int);
    a.take(a.len() - trail_white(a))
}

fn is_white_exec(c: char) -> (r: bool)
    ensures
        r == is_white(c),
{
    ('\u{9}' <= c && c <= '\u{d}') || c == ' ' || c == '\u{85}' || c == '\u{a0}' || c == '\u{1680}'
        || ('\u{2000}' <= c && c <= '\u{200a}') || c == '\u{2028}' || c == '\u{2029}' || c == '\u{202f}'
        || c == '\u{205f}' || c == '\u{3000}'
}

proof fn lemma_lead_white(s: Seq<char>, i: int)
    requires
        0 <= i <= s.len(),
        forall|k: int| 0 <= k < i ==> is_white(#[trigger] s[k]),
        i == s.len() || !is_white(s[i]),
    ensures
        lead_white(s) == i,
    decreases i,
{
    if i > 0 {
        assert forall|k: int| 0 <= k < i - 1 implies is_white(#[trigger] s.drop_first()[k]) by {
            assert(s.drop_first()[k] == s[k + 1]);
        }
        lemma_lead_white(s.drop_first(), i - 1);
    }
}

proof fn lemma_trail_white(s: Seq<char>, j: int)
    requires
        0 <= j <= s.len(),
        forall|k: int| j <= k < s.len() ==> is_white(#[trigger] s[k]),
        j == 0 || !is_white(s[j - 1]),
    ensures
        trail_white(s) == s.len() - j,
    decreases s.len() - j,
{
    if j < s.len() {
        assert forall|k: int| j <= k < s.len() - 1 implies is_white(#[trigger] s.drop_last()[k]) by {
            assert(s.drop_last()[k] == s[k]);
        }
        lemma_trail_white(s.drop_last(), j);
    }
}

/// The text without leading and trailing white space, as `str::trim` gives it.
pub fn trim(s: &str) -> (r: String)
    ensures
        r@ == trimmed(s@),
{
    let v = chars_of(s);
    let mut i: usize = 0;
    while i < v.len() && is_white_exec(v[i])
        invariant
            i <= v.len(),
            v@ == s@,
            forall|k: int| 0 <= k < i ==> is_white(#[trigger] v@[k]),
        decreases v.len() - i,
    {
        i = i + 1;
    }
    proof {
        lemma_lead_white(s@, i as int);
    }
    let mut j: usize = v.len();
    while j > i && is_white_exec(v[j - 1])
        invariant
            i <= j <= v.len(),
            v@ == s@,
            forall|k: int| j <= k < v.len() ==> is_white(#[trigger] v@[k]),
        decreases j,
    {
        j = j - 1;
    }
    let ghost a = s@.skip(i as int);
    proof {
        assert forall|k: int| j - i <= k < a.len() implies is_white(#[trigger] a[k]) by {
            assert(a[k] == s@[k + i]);
        }
        if j > i {
            assert(a[j - i - 1] == s@[j - 1]);
        }
        lemma_trail_white(a, j - i);
    }
    let mut out: Vec<char> = Vec::new();
    let mut k: usize = i;
    while k < j
        invariant
            i <= k <= j <= v.len(),
            v@ == s@,
            out@ == v@.subrange(i as int, k as int),
        decreases j - k,
    {
        out.push(v[k]);
        k = k + 1;
    }
    assert(out@ =~= trimmed(s@));
    string_of(&out)
}

} // verus!

verus! {

pub open spec fn is_digit(c: char) -> bool {
    '0' <= c && c <= '9'
}

pub open spec fn digit_value(c: char) -> nat {
    ((c as u32) - ('0' as u32)) as nat
}

/// The value of a run of decimal digits.
pub open spec fn digits_value(d: Seq<char>) -> nat
    decreases d.len(),
{
    if d.len() == 0 {
        0
    } else {
        digits_value(d.drop_last()) * 10 + digit_value(d.last())
    }
}

/// A text without its leading `+`, if any.
pub open spec fn sign_stripped(s: Seq<char>) -> Seq<char> {
    if s.len() > 0 && s[0] == '+' { s.drop_first() } else { s }
}

pub open spec fn all_digits(d: Seq<char>) -> bool {
    forall|i: int| 0 <= i < d.len() ==> is_digit(#[trigger] d[i])
}

/// The digits of an unsigned number as `str::parse` reads them: an optional
/// leading `+`, then at least one ASCII digit and nothing else.
pub open spec fn unsigned_digits(s: Seq<char>) -> Option<Seq<char>> {
    let d = sign_stripped(s);
    if d.len() > 0 && all_digits(d) {
        Some(d)
    } else {
        None
    }
}

/// The number written in `s`, when it is one that does not exceed `max`.
pub open spec fn parse_unsigned_spec(s: Seq<char>, max: nat) -> Option<nat> {
    match unsigned_digits(s) {
        Some(d) => if digits_value(d) <= max { Some(digits_value(d)) } else { None },
        None => None,
    }
}

fn digit_value_exec(c: char) -> (r: u64)
    requires
        is_digit(c),
    ensures
        r == digit_value(c),
        r < 10,
{
    ((c as u32) - ('0' as u32)) as u64
}

/// Reads an unsigned number no larger than `max`, as `u32::from_str` and
/// `u8::from_str` do for their own maximum.
pub fn parse_unsigned(s: &str, max: u32) -> (r: Option<u64>)
    ensures
        match parse_unsigned_spec(s@, max as nat) {
            Some(v) => r == Some(v as u64),
            None => r is None,
        },
{
    let v = chars_of(s);
    let start: usize = if v.len() > 0 && v[0] == '+' { 1 } else { 0 };
    let ghost d = sign_stripped(s@);
    assert(d =~= v@.skip(start as int));
    if v.len() <= start {
        return None;
    }
    let cap: u64 = (max as u64) + 1;
    let mut acc: u64 = 0;
    let mut i: usize = start;
    while i < v.len()
        invariant
            start <= i <= v.len(),
            v@ == s@,
            d == v@.skip(start as int),
            d == sign_stripped(s@),
            d.len() > 0,
            cap == max as u64 + 1,
            forall|k: int| 0 <= k < i - start ==> is_digit(#[trigger] d[k]),
            acc as nat == if digits_value(d.take(i - start)) < cap { digits_value(d.take(i - start)) } else { cap as nat },
        decreases v.len() - i,
    {
        if !('0' <= v[i] && v[i] <= '9') {
            assert(d[i - start] == v@[i as int]);
            assert(!is_digit(d[i - start]));
            return None;
        }
        let dv = digit_value_exec(v[i]);
        proof {
            assert(d.take(i - start + 1).drop_last() =~= d.take(i - start));
            assert(d.take(i - start + 1).last() == v@[i as int]);
        }
        if acc >= cap {
            acc = cap;
        } else {
            let next = acc * 10 + dv;
            acc = if next >= cap { cap } else { next };
        }
        i = i + 1;
    }
    assert(d.take(d.len() as int) =~= d);
    if acc >= cap {
        None
    } else {
        Some(acc)
    }
}

/// Numbers separated by commas.
pub open spec fn comma_list(v: Seq<u32>) -> Seq<char>
    decreases v.len(),
{
    if v.len() == 0 {
        Seq::empty()
    } else if v.len() == 1 {
        decimal(v[0] as nat)
    } else {
        comma_list(v.drop_last()) + ","@ + decimal(v.last() as nat)
    }
}

/// Writes page numbers separated by commas.
pub fn comma_separated(v: &Vec<u32>) -> (r: String)
    ensures
        r@ == comma_list(v@),
{
    let mut out: Vec<char> = Vec::new();
    let mut i: usize = 0;
    proof {
        reveal_strlit(",");
    }
    while i < v.len()
        invariant
            i <= v.len(),
            out@ == comma_list(v@.take(i as int)),
        decreases v.len() - i,
    {
        let ghost before = out@;
        if i > 0 {
            out.push(',');
            proof {
                reveal_strlit(",");
            }
            assert(out@ =~= before + ","@);
        }
        let ghost mid = out@;
        push_decimal(&mut out, v[i] as u64);
        proof {
            assert(v@.take(i + 1).drop_last() =~= v@.take(i as int));
            if i == 0 {
                assert(comma_list(v@.take(1)) == decimal(v@[0] as nat));
                assert(before =~= Seq::<char>::empty());
                assert(out@ =~= decimal(v@[0] as nat));
            } else {
                assert(out@ =~= mid + decimal(v@[i as int] as nat));
                assert(out@ =~= before + ","@ + decimal(v@[i as int] as nat));
            }
        }
        i = i + 1;
    }
    assert(v@.take(v.len() as int) =~= v@);
    string_of(&out)
}

/// The decimal notation of a number, as a string.
pub fn decimal_string(n: u64) -> (r: String)
    ensures
        r@ == decimal(n as nat),
{
    let mut out: Vec<char> = Vec::new();
    push_decimal(&mut out, n);
    assert(out@ =~= decimal(n as nat));
    string_of(&out)
}

} // verus!

verus! {

/// `a` comes strictly before `b` when characters are compared by code point,
/// which is also the order of their UTF-8 bytes.
pub open spec fn text_lt(a: Seq<char>, b: Seq<char>) -> bool
    decreases a.len(),
{
    if a.len() == 0 {
        b.len() > 0
    } else if b.len() == 0 {
        false
    } else if a[0] != b[0] {
        (a[0] as u32) < (b[0] as u32)
    } else {
        text_lt(a.drop_first(), b.drop_first())
    }
}

proof fn lemma_text_lt_skip(a: Seq<char>, b: Seq<char>, i: int)
    requires
        0 <= i <= a.len(),
        i <= b.len(),
        a.take(i) == b.take(i),
    ensures
        text_lt(a, b) == text_lt(a.skip(i), b.skip(i)),
    decreases i,
{
    if i > 0 {
        assert(a[0] == a.take(i)[0]);
        assert(b[0] == b.take(i)[0]);
        assert(a.drop_first().take(i - 1) =~= a.take(i).drop_first());
        assert(b.drop_first().take(i - 1) =~= b.take(i).drop_first());
        lemma_text_lt_skip(a.drop_first(), b.drop_first(), i - 1);
        assert(a.drop_first().skip(i - 1) =~= a.skip(i));
        assert(b.drop_first().skip(i - 1) =~= b.skip(i));
    } else {
        assert(a.skip(0) =~= a);
        assert(b.skip(0) =~= b);
    }
}

/// Whether `a` sorts strictly before `b` by code point.
pub fn text_less(a: &str, b: &str) -> (r: bool)
    ensures
        r == text_lt(a@, b@),
{
    let x = chars_of(a);
    let y = chars_of(b);
    let mut i: usize = 0;
    while i < x.len() && i < y.len()
        invariant
            x@ == a@,
            y@ == b@,
            i <= x.len(),
            i <= y.len(),
            x@.take(i as int) == y@.take(i as int),
        decreases x.len() - i,
    {
        if x[i] != y[i] {
            proof {
                lemma_text_lt_skip(x@, y@, i as int);
                assert(x@.skip(i as int)[0] == x@[i as int]);
                assert(y@.skip(i as int)[0] == y@[i as int]);
            }
            return (x[i] as u32) < (y[i] as u32);
        }
        assert(x@.take(i + 1) =~= x@.take(i as int).push(x@[i as int]));
        assert(y@.take(i + 1) =~= y@.take(i as int).push(y@[i as int]));
        i = i + 1;
    }
    proof {
        lemma_text_lt_skip(x@, y@, i as int);
    }
    y.len() > i
}

} // verus!

verus! {

/// `needle` occurs in `hay` at position `i`.
pub open spec fn occurs_at(hay: Seq<char>, needle: Seq<char>, i: int) -> bool {
    0 <= i && i + needle.len() <= hay.len() && hay.subrange(i, i + needle.len()) == needle
}

/// `needle` occurs somewhere in `hay`.
pub open spec fn contains_text(hay: Seq<char>, needle: Seq<char>) -> bool {
    exists|i: int| #[trigger] occurs_at(hay, needle, i)
}

fn matches_at(h: &Vec<char>, n: &Vec<char>, i: usize) -> (r: bool)
    requires
        i + n.len() <= h.len(),
    ensures
        r == occurs_at(h@, n@, i as int),
{
    let mut k: usize = 0;
    while k < n.len()
        invariant
            i + n.len() <= h.len(),
            k <= n.len(),
            forall|j: int| 0 <= j < k ==> h@[i + j] == n@[j],
        decreases n.len() - k,
    {
        if h[i + k] != n[k] {
            assert(h@.subrange(i as int, i + n.len())[k as int] != n@[k as int]);
            return false;
        }
        k = k + 1;
    }
    assert(h@.subrange(i as int, i + n.len()) =~= n@);
    true
}

/// Whether `needle` occurs in `hay`.
pub fn text_contains(hay: &str, needle: &str) -> (r: bool)
    ensures
        r == contains_text(hay@, needle@),
{
    let h = chars_of(hay);
    let n = chars_of(needle);
    if n.len() > h.len() {
        assert forall|i: int| !occurs_at(hay@, needle@, i) by {}
        return false;
    }
    if n.len() == 0 {
        assert(hay@.subrange(0, 0) =~= needle@);
        assert(occurs_at(hay@, needle@, 0));
        return true;
    }
    let last: usize = h.len() - n.len();
    let mut i: usize = 0;
    while i <= last
        invariant
            h@ == hay@,
            n@ == needle@,
            n.len() <= h.len(),
            last == h.len() - n.len(),
            n.len() > 0,
            i <= last + 1,
            forall|j: int| 0 <= j < i ==> !occurs_at(hay@, needle@, j),
        decreases last + 1 - i,
    {
        if matches_at(&h, &n, i) {
            return true;
        }
        i = i + 1;
    }
    assert forall|j: int| !occurs_at(hay@, needle@, j) by {
        if 0 <= j < i {
        }
    }
    false
}

} // verus!

verus! {

/// The upper-case form of an ASCII lower-case letter; every other character is kept.
pub open spec fn upper_char(c: char) -> char {
    if 'a' <= c && c <= 'z' {
        ((c as u32) - 32) as char
    } else {
        c
    }
}

/// A text with every ASCII lower-case letter turned to upper case.
pub open spec fn ascii_upper(s: Seq<char>) -> Seq<char> {
    s.map_values(|c: char| upper_char(c))
}

fn upper_char_exec(c: char) -> (r: char)
    ensures
        r == upper_char(c),
{
    if 'a' <= c && c <= 'z' {
        let b: u32 = (c as u32) - 32;
        let u: u8 = b as u8;
        u as char
    } else {
        c
    }
}

/// The upper-case form of a text.
pub fn upper(s: &str) -> (r: String)
    ensures
        r@ == ascii_upper(s@),
{
    let v = chars_of(s);
    let mut out: Vec<char> = Vec::new();
    let mut i: usize = 0;
    while i < v.len()
        invariant
            v@ == s@,
            i <= v.len(),
            out@ =~= ascii_upper(s@).take(i as int),
        decreases v.len() - i,
    {
        out.push(upper_char_exec(v[i]));
        i = i + 1;
    }
    assert(ascii_upper(s@).take(v.len() as int) =~= ascii_upper(s@));
    string_of(&out)
}

} // verus!

verus! {

/// The rest of `s` after `prefix`, when `s` starts with `prefix`.
pub open spec fn after_prefix(s: Seq<char>, prefix: Seq<char>) -> Option<Seq<char>> {
    if prefix.len() <= s.len() && s.take(prefix.len() as int) == prefix {
        Some(s.skip(prefix.len() as int))
    } else {
        None
    }
}

/// `s` without `prefix`, when it starts with it.
pub fn strip_prefix(s: &str, prefix: &str) -> (r: Option<String>)
    ensures
        match after_prefix(s@, prefix@) {
            Some(rest) => r is Some && r->0@ == rest,
            None => r is None,
        },
{
    let v = chars_of(s);
    let p = chars_of(prefix);
    if p.len() > v.len() {
        return None;
    }
    let mut i: usize = 0;
    while i < p.len()
        invariant
            v@ == s@,
            p@ == prefix@,
            p.len() <= v.len(),
            i <= p.len(),
            forall|j: int| 0 <= j < i ==> v@[j] == p@[j],
        decreases p.len() - i,
    {
        if v[i] != p[i] {
            assert(v@.take(p.len() as int)[i as int] != p@[i as int]);
            return None;
        }
        i = i + 1;
    }
    assert(v@.take(p.len() as int) =~= p@);
    let mut rest: Vec<char> = Vec::new();
    let mut k: usize = p.len();
    while k < v.len()
        invariant
            v@ == s@,
            p.len() <= k <= v.len(),
            rest@ == v@.subrange(p.len() as int, k as int),
        decreases v.len() - k,
    {
        rest.push(v[k]);
        k = k + 1;
        assert(rest@ =~= v@.subrange(p.len() as int, k as int));
    }
    assert(rest@ =~= v@.skip(p.len() as int));
    Some(string_of(&rest))
}

} // verus!

verus! {

/// No text comes before itself.
pub proof fn lemma_text_lt_irreflexive(a: Seq<char>)
    ensures
        !text_lt(a, a),
    decreases a.len(),
{
    if a.len() > 0 {
        lemma_text_lt_irreflexive(a.drop_first());
    }
}

/// The code-point order of texts is transitive.
pub proof fn lemma_text_lt_transitive(a: Seq<char>, b: Seq<char>, c: Seq<char>)
    requires
        text_lt(a, b),
        text_lt(b, c),
    ensures
        text_lt(a, c),
    decreases a.len(),
{
    if a.len() > 0 && b.len() > 0 && c.len() > 0 {
        if a[0] == b[0] && b[0] == c[0] {
            lemma_text_lt_transitive(a.drop_first(), b.drop_first(), c.drop_first());
        }
    }
}

} // verus!

verus! {

/// A double quote or a space: what is stripped from a path copied out of the
/// Windows registry.
pub open spec fn is_quote_or_space(c: char) -> bool {
    c == '"' || c == ' '
}

pub open spec fn lead_quotes(s: Seq<char>) -> nat
    decreases s.len(),
{
    if s.len() > 0 && is_quote_or_space(s[0]) {
        1 + lead_quotes(s.drop_first())
    } else {
        0
    }
}

pub open spec fn trail_quotes(s: Seq<char>) -> nat
    decreases s.len(),
{
    if s.len() > 0 && is_quote_or_space(s.last()) {
        1 + trail_quotes(s.drop_last())
    } else {
        0
    }
}

/// A text without leading and trailing double quotes and spaces.
pub open spec fn unquoted(s: Seq<char>) -> Seq<char> {
    let a = s.skip(lead_quotes(s) as int);
    a.take(a.len() - trail_quotes(a))
}

proof fn lemma_lead_quotes(s: Seq<char>, i: int)
    requires
        0 <= i <= s.len(),
        forall|k: int| 0 <= k < i ==> is_quote_or_space(#[trigger] s[k]),
        i == s.len() || !is_quote_or_space(s[i]),
    ensures
        lead_quotes(s) == i,
    decreases i,
{
    if i > 0 {
        assert forall|k: int| 0 <= k < i - 1 implies is_quote_or_space(#[trigger] s.drop_first()[k]) by {
            assert(s.drop_first()[k] == s[k + 1]);
        }
        lemma_lead_quotes(s.drop_first(), i - 1);
    }
}

proof fn lemma_trail_quotes(s: Seq<char>, j: int)
    requires
        0 <= j <= s.len(),
        forall|k: int| j <= k < s.len() ==> is_quote_or_space(#[trigger] s[k]),
        j == 0 || !is_quote_or_space(s[j - 1]),
    ensures
        trail_quotes(s) == s.len() - j,
    decreases s.len() - j,
{
    if j < s.len() {
        assert forall|k: int| j <= k < s.len() - 1 implies is_quote_or_space(#[trigger] s.drop_last()[k]) by {
            assert(s.drop_last()[k] == s[k]);
        }
        lemma_trail_quotes(s.drop_last(), j);
    }
}

/// The text without leading and trailing double quotes and spaces.
pub fn strip_quotes(s: &str) -> (r: String)
    ensures
        r@ == unquoted(s@),
{
    let v = chars_of(s);
    let mut i: usize = 0;
    while i < v.len() && (v[i] == '"' || v[i] == ' ')
        invariant
            i <= v.len(),
            v@ == s@,
            forall|k: int| 0 <= k < i ==> is_quote_or_space(#[trigger] v@[k]),
        decreases v.len() - i,
    {
        i = i + 1;
    }
    proof {
        lemma_lead_quotes(s@, i as int);
    }
    let mut j: usize = v.len();
    while j > i && (v[j - 1] == '"' || v[j - 1] == ' ')
        invariant
            i <= j <= v.len(),
            v@ == s@,
            forall|k: int| j <= k < v.len() ==> is_quote_or_space(#[trigger] v@[k]),
        decreases j,
    {
        j = j - 1;
    }
    let ghost a = s@.skip(i as int);
    proof {
        assert forall|k: int| j - i <= k < a.len() implies is_quote_or_space(#[trigger] a[k]) by {
            assert(a[k] == s@[k + i]);
        }
        if j > i {
            assert(a[j - i - 1] == s@[j - 1]);
        }
        lemma_trail_quotes(a, j - i);
    }
    let mut out: Vec<char> = Vec::new();
    let mut k: usize = i;
    while k < j
        invariant
            i <= k <= j <= v.len(),
            v@ == s@,
            out@ == v@.subrange(i as int, k as int),
        decreases j - k,
    {
        out.push(v[k]);
        k = k + 1;
    }
    assert(out@ =~= unquoted(s@));
    string_of(&out)
}

} // verus!
