//! Text primitives over character sequences: white space, `str::lines`,
//! `str::split_whitespace`, `str::trim` and the decimal reading and writing of
//! unsigned integers, each stated as a spec function and computed by a verified
//! executable function.
use vstd::prelude::*;

verus! {

broadcast use vstd::string::group_string_axioms;

/// `char::is_whitespace`: the characters with the Unicode `White_Space` property.
pub open spec fn is_space(c: char) -> bool {
    ||| ('\u{9}' <= c && c <= '\u{d}')
    ||| c == ' '
    ||| c == '\u{85}'
    ||| c == '\u{a0}'
    ||| c == '\u{1680}'
    ||| ('\u{2000}' <= c && c <= '\u{200a}')
    ||| c == '\u{2028}'
    ||| c == '\u{2029}'
    ||| c == '\u{202f}'
    ||| c == '\u{205f}'
    ||| c == '\u{3000}'
}

/// White space as a separator predicate.
pub open spec fn space_sep() -> spec_fn(char) -> bool {
    |c: char| is_space(c)
}

/// The line feed as a separator predicate.
pub open spec fn newline_sep() -> spec_fn(char) -> bool {
    |c: char| c == '\n'
}

/// Whether a piece of text holds at least one character.
pub open spec fn nonempty() -> spec_fn(Seq<char>) -> bool {
    |p: Seq<char>| p.len() > 0
}

/// The pieces of `s` between the characters on which `sep` holds, as
/// `str::split` gives them: one more piece than there are separators, empty
/// pieces included.
pub open spec fn split_by(s: Seq<char>, sep: spec_fn(char) -> bool) -> Seq<Seq<char>>
    decreases s.len(),
{
    if s.len() == 0 {
        seq![Seq::empty()]
    } else {
        let p = split_by(s.drop_last(), sep);
        if sep(s.last()) {
            p.push(Seq::empty())
        } else {
            p.update(p.len() - 1, p.last().push(s.last()))
        }
    }
}

/// `str::split_whitespace`: the nonempty pieces between white space.
pub open spec fn tokens(s: Seq<char>) -> Seq<Seq<char>> {
    split_by(s, space_sep()).filter(nonempty())
}

/// A line without the carriage return that ended it before its line feed.
pub open spec fn strip_cr(p: Seq<char>) -> Seq<char> {
    if p.len() > 0 && p.last() == '\r' {
        p.drop_last()
    } else {
        p
    }
}

/// `str::lines`: the text split at each line feed; a carriage return just
/// before a line feed belongs to the line ending; a final line ending is
/// optional, so the empty piece after it is no line.
pub open spec fn lines(s: Seq<char>) -> Seq<Seq<char>> {
    let p = split_by(s, newline_sep());
    let n = p.len();
    let kept: int = if p[n - 1].len() == 0 {
        n - 1
    } else {
        n as int
    };
    Seq::new(kept as nat, |i: int| if i < n - 1 { strip_cr(p[i]) } else { p[i] })
}

/// `str::trim`: `s` without its leading and trailing white space.
pub open spec fn trim(s: Seq<char>) -> Seq<char> {
    let lo = leading_spaces(s);
    s.subrange(lo, s.len() - trailing_spaces(s.subrange(lo, s.len() as int)))
}

/// The number of white space characters that `s` starts with.
pub open spec fn leading_spaces(s: Seq<char>) -> int
    decreases s.len(),
{
    if s.len() > 0 && is_space(s[0]) {
        1 + leading_spaces(s.drop_first())
    } else {
        0
    }
}

/// The number of white space characters that `s` ends with.
pub open spec fn trailing_spaces(s: Seq<char>) -> int
    decreases s.len(),
{
    if s.len() > 0 && is_space(s.last()) {
        1 + trailing_spaces(s.drop_last())
    } else {
        0
    }
}

/// An ASCII decimal digit.
pub open spec fn is_digit(c: char) -> bool {
    '0' <= c && c <= '9'
}

/// The value of the decimal numeral `s`.
pub open spec fn decimal_value(s: Seq<char>) -> nat
    decreases s.len(),
{
    if s.len() == 0 {
        0
    } else {
        decimal_value(s.drop_last()) * 10 + ((s.last() as int - '0' as int) as nat)
    }
}

/// Whether every character of `d` is an ASCII digit.
pub open spec fn all_digits(d: Seq<char>) -> bool {
    forall|i: int| 0 <= i < d.len() ==> is_digit(#[trigger] d[i])
}

/// The digits that `<u64 as FromStr>` reads: `s` without a leading `+`
/// where one stands before at least one more character.
pub open spec fn unsigned_digits(s: Seq<char>) -> Seq<char> {
    if s.len() > 1 && s[0] == '+' {
        s.drop_first()
    } else {
        s
    }
}

/// The value of a numeral of one or more digits that fits in a `u64`.
pub open spec fn numeral_u64(d: Seq<char>) -> Option<u64> {
    if d.len() > 0 && all_digits(d) && decimal_value(d) <= u64::MAX {
        Some(decimal_value(d) as u64)
    } else {
        None
    }
}

/// `<u64 as FromStr>::from_str`: an optional `+`, then one or more ASCII
/// digits whose value fits in a `u64`.
pub open spec fn parse_u64(s: Seq<char>) -> Option<u64> {
    numeral_u64(unsigned_digits(s))
}

/// `s.parse::<u64>().unwrap_or(0)`.
pub open spec fn u64_or_zero(s: Seq<char>) -> u64 {
    match parse_u64(s) {
        Some(v) => v,
        None => 0,
    }
}

/// The ASCII digit for `d < 10`.
pub open spec fn digit_char(d: nat) -> char {
    ((48 + d) as u8) as char
}

/// The decimal numeral of `n`, without leading zeros.
pub open spec fn decimal(n: nat) -> Seq<char>
    decreases n,
{
    if n < 10 {
        seq![digit_char(n)]
    } else {
        decimal(n / 10).push(digit_char(n % 10))
    }
}

/// `split_by` gives at least one piece.
pub proof fn lemma_split_by_len(s: Seq<char>, sep: spec_fn(char) -> bool)
    ensures
        split_by(s, sep).len() >= 1,
    decreases s.len(),
{
    if s.len() > 0 {
        lemma_split_by_len(s.drop_last(), sep);
    }
}

/// One more character extends the split of a prefix.
proof fn lemma_split_by_step(s: Seq<char>, i: int, sep: spec_fn(char) -> bool)
    requires
        0 <= i < s.len(),
    ensures
        split_by(s.take(i + 1), sep) == (if sep(s[i]) {
            split_by(s.take(i), sep).push(Seq::empty())
        } else {
            let p = split_by(s.take(i), sep);
            p.update(p.len() - 1, p.last().push(s[i]))
        }),
{
    assert(s.take(i + 1).drop_last() =~= s.take(i));
}

/// Whether `c` is white space, as `char::is_whitespace` tells.
pub fn is_space_char(c: char) -> (b: bool)
    ensures
        b == is_space(c),
{
    ('\u{9}' <= c && c <= '\u{d}') || c == ' ' || c == '\u{85}' || c == '\u{a0}' || c
        == '\u{1680}' || ('\u{2000}' <= c && c <= '\u{200a}') || c == '\u{2028}' || c
        == '\u{2029}' || c == '\u{202f}' || c == '\u{205f}' || c == '\u{3000}'
}

/// `str::split_whitespace`, collected.
pub fn split_whitespace(s: &[char]) -> (out: Vec<Vec<char>>)
    ensures
        out.deep_view() == tokens(s@),
        out.len() == tokens(s@).len(),
        forall|i: int| 0 <= i < out.len() ==> #[trigger] out[i]@ == tokens(s@)[i],
{
    let mut out: Vec<Vec<char>> = Vec::new();
    let mut cur: Vec<char> = Vec::new();
    let mut i: usize = 0;
    proof {
        assert(s@.take(0) =~= Seq::<char>::empty());
        reveal_with_fuel(Seq::filter, 1);
        assert(out.deep_view() =~= split_by(s@.take(0), space_sep()).drop_last().filter(nonempty()));
    }
    while i < s.len()
        invariant
            i <= s.len(),
            split_by(s@.take(i as int), space_sep()).len() >= 1,
            split_by(s@.take(i as int), space_sep()).drop_last().filter(nonempty())
                == out.deep_view(),
            split_by(s@.take(i as int), space_sep()).last() == cur@,
        decreases s.len() - i,
    {
        let c = s[i];
        let ghost p = split_by(s@.take(i as int), space_sep());
        let ghost old_out = out.deep_view();
        proof {
            lemma_split_by_step(s@, i as int, space_sep());
        }
        if is_space_char(c) {
            if cur.len() > 0 {
                let ghost cv = cur@;
                assert(cur.deep_view() =~= cv);
                out.push(cur);
                assert(out.deep_view() =~= old_out.push(cv));
            }
            cur = Vec::new();
            proof {
                let q = p.push(Seq::empty());
                assert(q.drop_last() =~= p);
                assert(p =~= p.drop_last().push(p.last()));
                reveal_with_fuel(Seq::filter, 1);
            }
        } else {
            cur.push(c);
            proof {
                let q = p.update(p.len() - 1, p.last().push(c));
                assert(q.drop_last() =~= p.drop_last());
            }
        }
        i = i + 1;
    }
    proof {
        assert(s@.take(s.len() as int) =~= s@);
        let p = split_by(s@, space_sep());
        assert(p =~= p.drop_last().push(p.last()));
        reveal_with_fuel(Seq::filter, 1);
    }
    if cur.len() > 0 {
        let ghost cv = cur@;
        let ghost old_out = out.deep_view();
        assert(cur.deep_view() =~= cv);
        out.push(cur);
        assert(out.deep_view() =~= old_out.push(cv));
    }
    proof {
        lemma_views_of_chars(&out);
    }
    out
}

/// The deep view of a vector of character vectors holds their views.
pub proof fn lemma_views_of_chars(v: &Vec<Vec<char>>)
    ensures
        v.deep_view().len() == v.len(),
        forall|i: int| 0 <= i < v.len() ==> #[trigger] v[i]@ == v.deep_view()[i],
{
    assert forall|i: int| 0 <= i < v.len() implies #[trigger] v[i]@ == v.deep_view()[i] by {
        assert(v[i].deep_view() =~= v[i]@);
    }
}

/// `str::lines`, collected.
pub fn split_lines(s: &[char]) -> (out: Vec<Vec<char>>)
    ensures
        out.deep_view() == lines(s@),
        out.len() == lines(s@).len(),
        forall|i: int| 0 <= i < out.len() ==> #[trigger] out[i]@ == lines(s@)[i],
{
    let mut out: Vec<Vec<char>> = Vec::new();
    let mut cur: Vec<char> = Vec::new();
    let mut i: usize = 0;
    proof {
        assert(s@.take(0) =~= Seq::<char>::empty());
    }
    while i < s.len()
        invariant
            i <= s.len(),
            split_by(s@.take(i as int), newline_sep()).len() >= 1,
            out.deep_view() =~= ({
                let p = split_by(s@.take(i as int), newline_sep());
                Seq::new((p.len() - 1) as nat, |j: int| strip_cr(p[j]))
            }),
            split_by(s@.take(i as int), newline_sep()).last() == cur@,
        decreases s.len() - i,
    {
        let c = s[i];
        let ghost p = split_by(s@.take(i as int), newline_sep());
        let ghost old_out = out.deep_view();
        proof {
            lemma_split_by_step(s@, i as int, newline_sep());
        }
        if c == '\n' {
            let n = cur.len();
            if n > 0 && cur[n - 1] == '\r' {
                cur.pop();
            }
            let ghost cv = cur@;
            assert(cv == strip_cr(p.last()));
            assert(cur.deep_view() =~= cv);
            out.push(cur);
            assert(out.deep_view() =~= old_out.push(cv));
            cur = Vec::new();
        } else {
            cur.push(c);
        }
        i = i + 1;
    }
    proof {
        assert(s@.take(s.len() as int) =~= s@);
    }
    if cur.len() > 0 {
        let ghost cv = cur@;
        let ghost old_out = out.deep_view();
        assert(cur.deep_view() =~= cv);
        out.push(cur);
        assert(out.deep_view() =~= old_out.push(cv));
    }
    proof {
        let p = split_by(s@, newline_sep());
        assert(out.deep_view() =~= lines(s@));
        lemma_views_of_chars(&out);
    }
    out
}

/// The number of leading white space characters, and the end of `s` without
/// its trailing white space: the bounds of `trim(s)`.
pub fn trim_bounds(s: &[char]) -> (r: (usize, usize))
    ensures
        r.0 <= r.1 <= s.len(),
        r.0 == leading_spaces(s@),
        s@.subrange(r.0 as int, r.1 as int) == trim(s@),
{
    let n = s.len();
    let mut lo: usize = 0;
    assert(s@.skip(0) =~= s@);
    while lo < n && is_space_char(s[lo])
        invariant
            lo <= n,
            n == s.len(),
            leading_spaces(s@) == lo + leading_spaces(s@.skip(lo as int)),
        decreases n - lo,
    {
        proof {
            assert(s@.skip(lo as int).drop_first() =~= s@.skip(lo + 1));
        }
        lo = lo + 1;
    }
    let ghost t = s@.subrange(lo as int, n as int);
    let mut hi: usize = n;
    proof {
        assert(t.take(t.len() as int) =~= t);
    }
    while hi > lo && is_space_char(s[hi - 1])
        invariant
            lo <= hi <= n,
            n == s.len(),
            t == s@.subrange(lo as int, n as int),
            trailing_spaces(t) == (n - hi) + trailing_spaces(t.take(hi - lo)),
        decreases hi,
    {
        proof {
            assert(t.take(hi - lo).drop_last() =~= t.take(hi - lo - 1));
        }
        hi = hi - 1;
    }
    proof {
        assert(s@.skip(lo as int).len() == 0 || !is_space(s@.skip(lo as int)[0]));
        assert(t.take(hi - lo).len() == 0 || !is_space(t.take(hi - lo).last()));
    }
    (lo, hi)
}

/// `str::trim`, collected.
pub fn trimmed(s: &[char]) -> (out: Vec<char>)
    ensures
        out@ == trim(s@),
{
    let (lo, hi) = trim_bounds(s);
    copy_range(s, lo, hi)
}

/// The characters of `s` from `lo` up to `hi`.
pub fn copy_range(s: &[char], lo: usize, hi: usize) -> (out: Vec<char>)
    requires
        lo <= hi <= s.len(),
    ensures
        out@ == s@.subrange(lo as int, hi as int),
{
    let mut out: Vec<char> = Vec::new();
    let mut i = lo;
    while i < hi
        invariant
            lo <= i <= hi <= s.len(),
            out@ == s@.subrange(lo as int, i as int),
        decreases hi - i,
    {
        out.push(s[i]);
        assert(out@ =~= s@.subrange(lo as int, i + 1));
        i = i + 1;
    }
    out
}

/// A numeral of digits has a value no smaller than that of any prefix.
proof fn lemma_decimal_prefix(d: Seq<char>, k: int)
    requires
        0 <= k <= d.len(),
        all_digits(d),
    ensures
        decimal_value(d.take(k)) <= decimal_value(d),
    decreases d.len(),
{
    if k < d.len() {
        assert(d.drop_last().take(k) =~= d.take(k));
        lemma_decimal_prefix(d.drop_last(), k);
    } else {
        assert(d.take(k) =~= d);
    }
}

/// `s.parse::<u64>()`, with the error folded to `None`.
pub fn parse_u64_chars(s: &[char]) -> (r: Option<u64>)
    ensures
        r == parse_u64(s@),
{
    let n = s.len();
    let start: usize = if n > 1 && s[0] == '+' {
        1
    } else {
        0
    };
    let ghost d = s@.skip(start as int);
    proof {
        if n > 1 && s@[0] == '+' {
            assert(d =~= s@.drop_first());
        } else {
            assert(d =~= s@);
        }
    }
    if start == n {
        return None;
    }
    let mut v: u64 = 0;
    let mut i: usize = start;
    proof {
        assert(d.take(0) =~= Seq::<char>::empty());
    }
    while i < n
        invariant
            start <= i <= n,
            n == s.len(),
            start < n,
            d == s@.skip(start as int),
            d == unsigned_digits(s@),
            forall|k: int| 0 <= k < i - start ==> is_digit(#[trigger] d[k]),
            v as nat == decimal_value(d.take(i - start)),
        decreases n - i,
    {
        let c = s[i];
        assert(d[i - start] == c);
        if !('0' <= c && c <= '9') {
            assert(!is_digit(d[i - start]));
            return None;
        }
        let dv: u64 = ((c as u32) - 48) as u64;
        proof {
            assert(d.take(i - start + 1).drop_last() =~= d.take(i - start));
            assert(d.take(i - start + 1).last() == c);
            assert(decimal_value(d.take(i - start + 1)) == v * 10 + dv);
        }
        let next = match v.checked_mul(10) {
            Some(m) => m.checked_add(dv),
            None => None,
        };
        match next {
            Some(x) => {
                v = x;
            },
            None => {
                proof {
                    assert(v * 10 + dv > u64::MAX);
                    if all_digits(d) {
                        lemma_decimal_prefix(d, i - start + 1);
                        assert(decimal_value(d) > u64::MAX);
                    }
                }
                return None;
            },
        }
        i = i + 1;
    }
    proof {
        assert(d.take(n - start) =~= d);
    }
    Some(v)
}

/// Appends the decimal numeral of `n`.
pub fn push_decimal(out: &mut Vec<char>, n: u128)
    ensures
        final(out)@ == old(out)@ + decimal(n as nat),
    decreases n,
{
    if n >= 10 {
        push_decimal(out, n / 10);
    }
    let d: u8 = (n % 10) as u8;
    out.push((48 + d) as char);
    proof {
        assert(final(out)@ =~= old(out)@ + decimal(n as nat));
    }
}

/// Whether `a` and `b` hold the same characters.
pub fn same_chars(a: &[char], b: &[char]) -> (r: bool)
    ensures
        r == (a@ == b@),
{
    if a.len() != b.len() {
        return false;
    }
    let mut i: usize = 0;
    while i < a.len()
        invariant
            i <= a.len() == b.len(),
            forall|j: int| 0 <= j < i ==> a@[j] == b@[j],
        decreases a.len() - i,
    {
        if a[i] != b[i] {
            return false;
        }
        i = i + 1;
    }
    assert(a@ =~= b@);
    true
}

/// The position of the first `c` in `s`, as `str::find` gives it.
pub open spec fn first_index(s: Seq<char>, c: char) -> Option<int>
    decreases s.len(),
{
    if s.len() == 0 {
        None
    } else {
        match first_index(s.drop_last(), c) {
            Some(k) => Some(k),
            None => if s.last() == c {
                Some(s.len() - 1)
            } else {
                None
            },
        }
    }
}

/// `s` with each comma replaced by a space, as `str::replace(',', " ")` gives it.
pub open spec fn commas_to_spaces(s: Seq<char>) -> Seq<char> {
    Seq::new(s.len(), |i: int| if s[i] == ',' { ' ' } else { s[i] })
}

/// The position of the first `c` in `s`.
pub fn find_char(s: &[char], c: char) -> (r: Option<usize>)
    ensures
        r matches Some(k) ==> first_index(s@, c) == Some(k as int) && k < s.len(),
        r is None ==> first_index(s@, c) is None,
{
    let mut i: usize = 0;
    assert(s@.take(0) =~= Seq::<char>::empty());
    while i < s.len()
        invariant
            i <= s.len(),
            first_index(s@.take(i as int), c) is None,
        decreases s.len() - i,
    {
        assert(s@.take(i + 1).drop_last() =~= s@.take(i as int));
        if s[i] == c {
            proof {
                lemma_first_index_prefix(s@, c, i + 1);
            }
            return Some(i);
        }
        i = i + 1;
    }
    assert(s@.take(s.len() as int) =~= s@);
    None
}

/// Where a prefix holds `c`, the first `c` of the whole is that of the prefix.
proof fn lemma_first_index_prefix(s: Seq<char>, c: char, k: int)
    requires
        0 <= k <= s.len(),
        first_index(s.take(k), c) is Some,
    ensures
        first_index(s, c) == first_index(s.take(k), c),
    decreases s.len(),
{
    if k < s.len() {
        assert(s.drop_last().take(k) =~= s.take(k));
        lemma_first_index_prefix(s.drop_last(), c, k);
    } else {
        assert(s.take(k) =~= s);
    }
}

/// `s` with each comma replaced by a space.
pub fn replace_commas(s: &[char]) -> (out: Vec<char>)
    ensures
        out@ == commas_to_spaces(s@),
{
    let mut out: Vec<char> = Vec::new();
    let mut i: usize = 0;
    while i < s.len()
        invariant
            i <= s.len(),
            out@ == commas_to_spaces(s@).take(i as int),
        decreases s.len() - i,
    {
        let c = s[i];
        out.push(if c == ',' { ' ' } else { c });
        assert(out@ =~= commas_to_spaces(s@).take(i + 1));
        i = i + 1;
    }
    assert(commas_to_spaces(s@).take(s.len() as int) =~= commas_to_spaces(s@));
    out
}

/// One `String` for each piece.
pub fn strings_of(parts: &Vec<Vec<char>>) -> (out: Vec<String>)
    ensures
        out.len() == parts.len(),
        forall|i: int| 0 <= i < out.len() ==> #[trigger] out[i]@ == parts[i]@,
{
    let mut out: Vec<String> = Vec::new();
    let mut i: usize = 0;
    while i < parts.len()
        invariant
            i <= parts.len(),
            out.len() == i,
            forall|j: int| 0 <= j < i ==> #[trigger] out[j]@ == parts[j]@,
        decreases parts.len() - i,
    {
        out.push(string_of(parts[i].as_slice()));
        i = i + 1;
    }
    out
}

/// The characters of `s`, in order.
pub fn chars_of(s: &str) -> (v: Vec<char>)
    ensures
        v@ == s@,
{
    let mut v: Vec<char> = Vec::new();
    for c in it: s.chars()
        invariant
            v@ == it.seq().take(it.index() as int),
    {
        v.push(c);
    }
    v
}

/// A `String` that holds the characters `cs`.
///
/// Calls std's `String: FromIterator<&char>`; the contract claims that the
/// string holds exactly those characters, in order.
#[verifier::external_body]
pub(crate) fn string_of(cs: &[char]) -> (s: String)
    ensures
        s@ == cs@,
{
    cs.iter().collect()
}

} // verus!
