//! Character-level text helpers shared by the codec and the analysers.

use vstd::prelude::*;
use vstd::string::*;
use vstd::std_specs::iter::IteratorSpec;

verus! {

/// The characters of `s`, in order.
pub fn chars_of(s: &str) -> (r: Vec<char>)
    ensures
        r@ == s@,
{
    broadcast use vstd::string::axiom_spec_iter, vstd::string::next_postcondition;
    let mut it = s.chars();
    let mut r: Vec<char> = Vec::new();
    loop
        invariant
            r@.len() <= s@.len(),
            r@ == s@.take(r@.len() as int),
            it.remaining() == s@.skip(r@.len() as int),
        ensures
            r@ == s@,
        decreases s@.len() - r@.len(),
    {
        let ghost n: int = r@.len() as int;
        match it.next() {
            Some(c) => {
                assert(s@.skip(n)[0] == s@[n]);
                r.push(c);
                assert(s@.skip(n).drop_first() == s@.skip(n + 1));
                assert(s@.take(n + 1) == s@.take(n).push(s@[n]));
            },
            None => {
                assert(s@.take(n) == s@);
                break;
            },
        }
    }
    r
}

/// The string made of the characters of `v`, in order.
#[verifier::external_body]
pub(crate) fn string_of(v: &[char]) -> (r: String)
    ensures
        r@ == v@,
{
    v.iter().collect()
}

/// Whether two character sequences are equal.
pub fn chars_eq(a: &[char], b: &[char]) -> (r: bool)
    ensures
        r == (a@ == b@),
{
    if a.len() != b.len() {
        return false;
    }
    let mut i: usize = 0;
    while i < a.len()
        invariant
            a@.len() == b@.len(),
            i <= a@.len(),
            a@.subrange(0, i as int) == b@.subrange(0, i as int),
        decreases a@.len() - i,
    {
        if a[i] != b[i] {
            assert(a@[i as int] != b@[i as int]);
            return false;
        }
        assert(a@.subrange(0, i + 1) == a@.subrange(0, i as int).push(a@[i as int]));
        assert(b@.subrange(0, i + 1) == b@.subrange(0, i as int).push(b@[i as int]));
        i = i + 1;
    }
    assert(a@ == a@.subrange(0, a@.len() as int));
    assert(b@ == b@.subrange(0, b@.len() as int));
    true
}

/// Whether two strings are equal.
pub fn str_eq(a: &str, b: &str) -> (r: bool)
    ensures
        r == (a@ == b@),
{
    let x = chars_of(a);
    let y = chars_of(b);
    chars_eq(x.as_slice(), y.as_slice())
}

/// `s` without its leading NUL characters.
pub open spec fn strip_nul_front(s: Seq<char>) -> Seq<char>
    decreases s.len(),
{
    if s.len() > 0 && s[0] == '\0' {
        strip_nul_front(s.drop_first())
    } else {
        s
    }
}

/// `s` without its trailing NUL characters.
pub open spec fn strip_nul_back(s: Seq<char>) -> Seq<char>
    decreases s.len(),
{
    if s.len() > 0 && s.last() == '\0' {
        strip_nul_back(s.drop_last())
    } else {
        s
    }
}

/// `s` without leading and trailing NUL characters, as
/// `str::trim_matches(char::from(0))` gives it.
pub open spec fn trim_nul(s: Seq<char>) -> Seq<char> {
    strip_nul_back(strip_nul_front(s))
}

/// `s.trim_matches(char::from(0))`, as an owned string.
pub fn trim_nul_text(s: &str) -> (r: String)
    ensures
        r@ == trim_nul(s@),
{
    let v = chars_of(s);
    let n = v.len();
    let mut i: usize = 0;
    assert(v@.skip(0) == v@);
    while i < n && v[i] == '\0'
        invariant
            n == v@.len(),
            i <= n,
            strip_nul_front(v@) == strip_nul_front(v@.skip(i as int)),
        decreases n - i,
    {
        assert(v@.skip(i as int).drop_first() == v@.skip(i + 1));
        i = i + 1;
    }
    assert(strip_nul_front(v@.skip(i as int)) == v@.skip(i as int));
    let mut j: usize = n;
    assert(v@.skip(i as int) == v@.subrange(i as int, j as int));
    while j > i && v[j - 1] == '\0'
        invariant
            n == v@.len(),
            i <= j <= n,
            trim_nul(v@) == strip_nul_back(v@.subrange(i as int, j as int)),
        decreases j - i,
    {
        assert(v@.subrange(i as int, j as int).drop_last() == v@.subrange(i as int, j - 1));
        j = j - 1;
    }
    string_of(&v.as_slice()[i..j])
}

/// Whether `c` is an ASCII decimal digit.
pub open spec fn is_digit(c: char) -> bool {
    '0' <= c && c <= '9'
}

/// Whether every character of `s` is an ASCII decimal digit.
pub open spec fn all_digits(s: Seq<char>) -> bool {
    forall|i: int| 0 <= i < s.len() ==> is_digit(#[trigger] s[i])
}

/// The number that the decimal digits `s` write.
pub open spec fn digits_value(s: Seq<char>) -> nat
    decreases s.len(),
{
    if s.len() == 0 {
        0
    } else {
        digits_value(s.drop_last()) * 10 + ((s.last() as u32) - ('0' as u32)) as nat
    }
}

/// `s` without one leading `+`.
pub open spec fn without_plus(s: Seq<char>) -> Seq<char> {
    if s.len() > 0 && s[0] == '+' { s.drop_first() } else { s }
}

/// What `str::parse::<u64>` gives: an optional `+`, then one or more
/// digits, for a value that fits.
pub open spec fn spec_parse_u64(s: Seq<char>) -> Option<u64> {
    let d = without_plus(s);
    if d.len() > 0 && all_digits(d) && digits_value(d) <= u64::MAX {
        Some(digits_value(d) as u64)
    } else {
        None
    }
}

/// What `str::parse::<i64>` gives: an optional sign, then one or more
/// digits, for a value that fits.
pub open spec fn spec_parse_i64(s: Seq<char>) -> Option<i64> {
    if s.len() > 0 && s[0] == '-' {
        let d = s.drop_first();
        if d.len() > 0 && all_digits(d) && digits_value(d) <= 0x8000_0000_0000_0000 {
            Some((0 - digits_value(d)) as i64)
        } else {
            None
        }
    } else {
        let d = without_plus(s);
        if d.len() > 0 && all_digits(d) && digits_value(d) <= i64::MAX {
            Some(digits_value(d) as i64)
        } else {
            None
        }
    }
}

/// A prefix of digits writes no more than the whole.
proof fn lemma_digits_value_prefix(s: Seq<char>, k: int)
    requires
        0 <= k <= s.len(),
    ensures
        digits_value(s.take(k)) <= digits_value(s),
    decreases s.len(),
{
    if k < s.len() {
        assert(s.drop_last().take(k) == s.take(k));
        lemma_digits_value_prefix(s.drop_last(), k);
        assert(s.take(s.len() as int) == s);
    } else {
        assert(s.take(k) == s);
    }
}

/// The number that the digits `d` write, where they are one or more digits
/// writing no more than `limit`.
fn parse_digits(d: &[char], limit: u64) -> (r: Option<u64>)
    requires
        limit >= 9,
    ensures
        r == (if d@.len() > 0 && all_digits(d@) && digits_value(d@) <= limit {
            Some(digits_value(d@) as u64)
        } else {
            None::<u64>
        }),
{
    if d.len() == 0 {
        return None;
    }
    let mut acc: u64 = 0;
    let mut i: usize = 0;
    assert(d@.take(0) =~= Seq::<char>::empty());
    while i < d.len()
        invariant
            i <= d@.len(),
            d@.len() > 0,
            all_digits(d@.take(i as int)),
            acc == digits_value(d@.take(i as int)),
            acc <= limit,
            limit >= 9,
        decreases d@.len() - i,
    {
        let c = d[i];
        assert(d@.take(i + 1).drop_last() == d@.take(i as int));
        assert(d@.take(i + 1).last() == c);
        if !('0' <= c && c <= '9') {
            assert(!is_digit(d@[i as int]));
            return None;
        }
        let v: u64 = ((c as u32) - ('0' as u32)) as u64;
        if acc > (limit - v) / 10 {
            proof {
                assert(digits_value(d@.take(i + 1)) == acc * 10 + v);
                assert(acc * 10 + v > limit) by (nonlinear_arith)
                    requires acc > (limit - v) / 10, v <= 9, limit >= 9;
                lemma_digits_value_prefix(d@, i + 1);
            }
            return None;
        }
        proof {
            assert(acc * 10 + v <= limit) by (nonlinear_arith)
                requires acc <= (limit - v) / 10, v <= limit;
        }
        acc = acc * 10 + v;
        assert(all_digits(d@.take(i + 1))) by {
            assert forall|k: int| 0 <= k < i + 1 implies is_digit(#[trigger] d@.take(i + 1)[k]) by {
                if k < i {
                    assert(d@.take(i + 1)[k] == d@.take(i as int)[k]);
                }
            }
        }
        i = i + 1;
    }
    assert(d@.take(d@.len() as int) == d@);
    Some(acc)
}

/// `s.parse::<u64>().ok()`: an optional `+`, then one or more digits, for a
/// value that fits.
pub(crate) fn parse_u64(s: &str) -> (r: Option<u64>)
    ensures
        r == spec_parse_u64(s@),
{
    let cs = chars_of(s);
    if cs.len() > 0 && cs[0] == '+' {
        let d = sub_chars(cs.as_slice(), 1, cs.len());
        assert(d@ == s@.drop_first());
        parse_digits(d.as_slice(), 0xffff_ffff_ffff_ffff)
    } else {
        parse_digits(cs.as_slice(), 0xffff_ffff_ffff_ffff)
    }
}

/// `s.parse::<i64>().ok()`: an optional sign, then one or more digits, for
/// a value that fits.
pub(crate) fn parse_i64(s: &str) -> (r: Option<i64>)
    ensures
        r == spec_parse_i64(s@),
{
    let cs = chars_of(s);
    if cs.len() > 0 && cs[0] == '-' {
        let d = sub_chars(cs.as_slice(), 1, cs.len());
        assert(d@ == s@.drop_first());
        match parse_digits(d.as_slice(), 0x8000_0000_0000_0000) {
            Some(n) => if n == 0x8000_0000_0000_0000 {
                Some(i64::MIN)
            } else {
                Some(0 - (n as i64))
            },
            None => None,
        }
    } else {
        let d = if cs.len() > 0 && cs[0] == '+' { sub_chars(cs.as_slice(), 1, cs.len()) } else { sub_chars(cs.as_slice(), 0, cs.len()) };
        assert(d@ == without_plus(s@));
        match parse_digits(d.as_slice(), 0x7fff_ffff_ffff_ffff) {
            Some(n) => Some(n as i64),
            None => None,
        }
    }
}

/// The digit character for `d`, which is below 10.
pub open spec fn digit_char(d: nat) -> char {
    (('0' as u32) + d) as char
}

/// The decimal digits of `n`, without leading zeros.
pub open spec fn decimal(n: nat) -> Seq<char>
    decreases n,
{
    if n < 10 {
        seq![digit_char(n)]
    } else {
        decimal(n / 10).push(digit_char(n % 10))
    }
}

/// The decimal text of an `i64`, with a `-` in front where it is negative.
pub open spec fn decimal_i64(n: i64) -> Seq<char> {
    if n < 0 { seq!['-'] + decimal((0 - n) as nat) } else { decimal(n as nat) }
}

/// The text of digit `d`, which is below 10.
fn digit_text(d: u64) -> (r: &'static str)
    requires
        d < 10,
    ensures
        r@ == seq![digit_char(d as nat)],
{
    proof {
        reveal_strlit("0");
        reveal_strlit("1");
        reveal_strlit("2");
        reveal_strlit("3");
        reveal_strlit("4");
        reveal_strlit("5");
        reveal_strlit("6");
        reveal_strlit("7");
        reveal_strlit("8");
        reveal_strlit("9");
    }
    let r = if d == 0 { "0" } else if d == 1 { "1" } else if d == 2 { "2" } else if d == 3 { "3" } else if d == 4 {
        "4"
    } else if d == 5 { "5" } else if d == 6 { "6" } else if d == 7 { "7" } else if d == 8 { "8" } else { "9" };
    assert(r@ =~= seq![digit_char(d as nat)]);
    r
}

/// `n.to_string()`: the decimal digits of `n`.
pub(crate) fn u64_text(n: u64) -> (r: String)
    ensures
        r@ == decimal(n as nat),
    decreases n,
{
    if n < 10 {
        String::from_str(digit_text(n))
    } else {
        let mut t = u64_text(n / 10);
        t.append(digit_text(n % 10));
        assert(t@ =~= decimal((n / 10) as nat).push(digit_char((n % 10) as nat)));
        t
    }
}

/// `n.to_string()`: the decimal text of `n`.
pub(crate) fn i64_text(n: i64) -> (r: String)
    ensures
        r@ == decimal_i64(n),
{
    if n < 0 {
        let m: u64 = (0 - (n as i128)) as u64;
        let mut t = String::from_str("-");
        let d = u64_text(m);
        t.append(d.as_str());
        proof {
            reveal_strlit("-");
        }
        assert(t@ =~= seq!['-'] + decimal((0 - n) as nat));
        t
    } else {
        u64_text(n as u64)
    }
}

/// The position of the first occurrence of `sep` in `s`.
pub open spec fn first_at(s: Seq<char>, sep: Seq<char>) -> Option<int>
    decreases s.len(),
{
    if s.len() < sep.len() {
        None
    } else if s.take(sep.len() as int) == sep {
        Some(0)
    } else if s.len() == 0 {
        None
    } else {
        match first_at(s.drop_first(), sep) {
            Some(k) => Some(k + 1),
            None => None,
        }
    }
}

/// `s` cut at each occurrence of the non-empty `sep`, left to right, as
/// `str::split` cuts it.
pub open spec fn split(s: Seq<char>, sep: Seq<char>) -> Seq<Seq<char>>
    decreases s.len(),
{
    if sep.len() == 0 {
        seq![s]
    } else {
        match first_at(s, sep) {
            None => seq![s],
            Some(i) => if 0 <= i && i + sep.len() <= s.len() {
                seq![s.take(i)] + split(s.skip(i + sep.len()), sep)
            } else {
                seq![s]
            },
        }
    }
}

/// An occurrence found by `first_at` lies within `s`.
pub proof fn lemma_first_at_bounds(s: Seq<char>, sep: Seq<char>)
    ensures
        first_at(s, sep) matches Some(k) ==> 0 <= k && k + sep.len() <= s.len()
            && s.subrange(k, k + sep.len()) == sep,
    decreases s.len(),
{
    if s.len() >= sep.len() && s.take(sep.len() as int) != sep && s.len() > 0 {
        lemma_first_at_bounds(s.drop_first(), sep);
        if let Some(k) = first_at(s.drop_first(), sep) {
            assert(s.subrange(k + 1, k + 1 + sep.len()) == s.drop_first().subrange(k, k + sep.len()));
        }
    }
}

/// Cutting a text gives at least one piece.
pub proof fn lemma_split_len(s: Seq<char>, sep: Seq<char>)
    ensures
        split(s, sep).len() >= 1,
    decreases s.len(),
{
    if sep.len() > 0 {
        if let Some(i) = first_at(s, sep) {
            if 0 <= i && i + sep.len() <= s.len() {
                lemma_split_len(s.skip(i + sep.len()), sep);
            }
        }
    }
}

/// The characters of `s` from position `a` up to `b`.
pub fn sub_chars(s: &[char], a: usize, b: usize) -> (r: Vec<char>)
    requires
        a <= b <= s@.len(),
    ensures
        r@ == s@.subrange(a as int, b as int),
{
    let mut r: Vec<char> = Vec::new();
    let mut i: usize = a;
    while i < b
        invariant
            a <= i <= b <= s@.len(),
            r@ == s@.subrange(a as int, i as int),
        decreases b - i,
    {
        r.push(s[i]);
        assert(s@.subrange(a as int, i + 1) == s@.subrange(a as int, i as int).push(s@[i as int]));
        i = i + 1;
    }
    r
}

/// The texts of a list of character vectors.
pub open spec fn pieces_view(s: Seq<Vec<char>>) -> Seq<Seq<char>> {
    s.map_values(|p: Vec<char>| p@)
}

/// Whether `sep` occurs in `v` at position `j`.
pub(crate) fn occurs_at(v: &[char], sep: &[char], j: usize) -> (r: bool)
    requires
        j <= v@.len(),
    ensures
        r == (j + sep@.len() <= v@.len() && v@.subrange(j as int, j + sep@.len()) == sep@),
{
    if sep.len() > v.len() - j {
        return false;
    }
    let mut k: usize = 0;
    while k < sep.len()
        invariant
            j + sep@.len() <= v@.len(),
            v@.len() == v.len(),
            k <= sep@.len(),
            v@.subrange(j as int, j + k) == sep@.subrange(0, k as int),
        decreases sep@.len() - k,
    {
        if v[j + k] != sep[k] {
            assert(v@.subrange(j as int, j + sep@.len())[k as int] != sep@[k as int]);
            return false;
        }
        assert(v@.subrange(j as int, j + k + 1) == v@.subrange(j as int, j + k).push(v@[j + k]));
        assert(sep@.subrange(0, k + 1) == sep@.subrange(0, k as int).push(sep@[k as int]));
        k = k + 1;
    }
    assert(sep@.subrange(0, sep@.len() as int) == sep@);
    true
}

/// The first occurrence in `s.skip(j)` at or after position `j`, counted
/// from `j`, in terms of the first occurrence from `j + 1`.
proof fn lemma_first_at_step(s: Seq<char>, sep: Seq<char>, j: int)
    requires
        0 <= j < s.len(),
        !(j + sep.len() <= s.len() && s.subrange(j, j + sep.len()) == sep),
    ensures
        first_at(s.skip(j), sep) == (match first_at(s.skip(j + 1), sep) {
            Some(k) => Some(k + 1),
            None => None::<int>,
        }),
{
    assert(s.skip(j).drop_first() == s.skip(j + 1));
    if s.skip(j).len() >= sep.len() {
        assert(s.skip(j).take(sep.len() as int) == s.subrange(j, j + sep.len()));
    }
}

/// Whether `pat` occurs somewhere in `s`.
pub open spec fn contains_text(s: Seq<char>, pat: Seq<char>) -> bool {
    exists|i: int| 0 <= i && i + pat.len() <= s.len() && #[trigger] s.subrange(i, i + pat.len()) == pat
}

/// Whether `pat` occurs somewhere in `s`, as `str::contains` tells.
pub fn text_contains(s: &str, pat: &str) -> (r: bool)
    ensures
        r == contains_text(s@, pat@),
{
    let v = chars_of(s);
    let p = chars_of(pat);
    let mut j: usize = 0;
    while j < v.len()
        invariant
            j <= v@.len(),
            v@ == s@,
            p@ == pat@,
            forall|i: int| 0 <= i < j ==> !(i + pat@.len() <= s@.len() && #[trigger] s@.subrange(i, i + pat@.len()) == pat@),
        decreases v@.len() - j,
    {
        if occurs_at(v.as_slice(), p.as_slice(), j) {
            return true;
        }
        j = j + 1;
    }
    if occurs_at(v.as_slice(), p.as_slice(), j) {
        return true;
    }
    proof {
        assert forall|i: int| 0 <= i && i + pat@.len() <= s@.len() implies #[trigger] s@.subrange(i, i + pat@.len()) != pat@ by {
            assert(i <= j);
        }
    }
    false
}

/// `s` cut at each occurrence of the non-empty `sep`, as `str::split`.
pub fn split_chars(s: &[char], sep: &[char]) -> (r: Vec<Vec<char>>)
    requires
        sep@.len() > 0,
    ensures
        pieces_view(r@) == split(s@, sep@),
{
    let mut pieces: Vec<Vec<char>> = Vec::new();
    let mut start: usize = 0;
    let mut j: usize = 0;
    let n = s.len();
    assert(s@.skip(0) == s@);
    while j < n
        invariant
            n == s@.len(),
            sep@.len() > 0,
            start <= j <= n,
            split(s@, sep@) == pieces_view(pieces@) + split(s@.skip(start as int), sep@),
            first_at(s@.skip(start as int), sep@) == (match first_at(s@.skip(j as int), sep@) {
                Some(k) => Some(k + (j - start)),
                None => None::<int>,
            }),
        decreases n - j + (if j < n { 1int } else { 0int }),
    {
        if occurs_at(s, sep, j) {
            let piece: Vec<char> = sub_chars(s, start, j);
            proof {
                let rest = s@.skip(start as int);
                assert(s@.skip(j as int).take(sep@.len() as int) == s@.subrange(j as int, j + sep@.len()));
                assert(first_at(s@.skip(j as int), sep@) == Some(0int));
                assert(rest.take(j - start) == s@.subrange(start as int, j as int));
                assert(rest.skip(j - start + sep@.len()) == s@.skip(j + sep@.len()));
                assert(split(rest, sep@) == seq![rest.take(j - start)] + split(rest.skip(j - start + sep@.len()), sep@));
                let ghost old_pieces = pieces@;
                assert(piece@ == s@.subrange(start as int, j as int));
            }
            let ghost before = pieces@;
            pieces.push(piece);
            proof {
                assert(pieces_view(pieces@) == pieces_view(before).push(s@.subrange(start as int, j as int)));
                assert(split(s@, sep@) == pieces_view(pieces@) + split(s@.skip(j + sep@.len()), sep@));
            }
            start = j + sep.len();
            j = start;
        } else {
            proof {
                lemma_first_at_step(s@, sep@, j as int);
            }
            j = j + 1;
        }
    }
    proof {
        assert(s@.skip(j as int).len() == 0);
        assert(first_at(s@.skip(j as int), sep@) is None);
        assert(split(s@.skip(start as int), sep@) == seq![s@.skip(start as int)]);
    }
    let last: Vec<char> = sub_chars(s, start, n);
    assert(last@ == s@.skip(start as int));
    let ghost before = pieces@;
    pieces.push(last);
    assert(pieces_view(pieces@) == pieces_view(before).push(s@.skip(start as int)));
    pieces
}

/// The first `b` bytes of `v`.
pub fn bytes_upto(v: &[u8], b: usize) -> (r: Vec<u8>)
    requires
        b <= v@.len(),
    ensures
        r@ == v@.take(b as int),
{
    let mut r: Vec<u8> = Vec::new();
    let mut i: usize = 0;
    while i < b
        invariant
            i <= b <= v@.len(),
            r@ == v@.take(i as int),
        decreases b - i,
    {
        r.push(v[i]);
        assert(v@.take(i + 1) == v@.take(i as int).push(v@[i as int]));
        i = i + 1;
    }
    r
}

/// Whether `v` starts with `prefix`.
pub fn bytes_start_with(v: &[u8], prefix: &[u8]) -> (r: bool)
    ensures
        r == (v@.len() >= prefix@.len() && v@.take(prefix@.len() as int) == prefix@),
{
    if prefix.len() > v.len() {
        return false;
    }
    let mut i: usize = 0;
    while i < prefix.len()
        invariant
            prefix@.len() <= v@.len(),
            i <= prefix@.len(),
            v@.take(i as int) == prefix@.take(i as int),
        decreases prefix@.len() - i,
    {
        if v[i] != prefix[i] {
            assert(v@.take(prefix@.len() as int)[i as int] != prefix@[i as int]);
            return false;
        }
        assert(v@.take(i + 1) == v@.take(i as int).push(v@[i as int]));
        assert(prefix@.take(i + 1) == prefix@.take(i as int).push(prefix@[i as int]));
        i = i + 1;
    }
    assert(prefix@.take(prefix@.len() as int) == prefix@);
    true
}

/// The bytes of `v` from position `a` on.
pub fn bytes_from(v: &[u8], a: usize) -> (r: Vec<u8>)
    requires
        a <= v@.len(),
    ensures
        r@ == v@.skip(a as int),
{
    let mut r: Vec<u8> = Vec::new();
    let mut i: usize = a;
    while i < v.len()
        invariant
            a <= i <= v@.len(),
            r@ == v@.subrange(a as int, i as int),
        decreases v@.len() - i,
    {
        r.push(v[i]);
        assert(v@.subrange(a as int, i + 1) == v@.subrange(a as int, i as int).push(v@[i as int]));
        i = i + 1;
    }
    r
}


} // verus!
