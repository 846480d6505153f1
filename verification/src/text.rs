//! Text helpers: strings are reasoned about through their `Seq<char>` views.

use crate::seqs::{
    as_index, first_where, lemma_first_where, lemma_first_where_is, lemma_first_where_none,
    lemma_view_each_push, view_each,
};
use vstd::prelude::*;
use vstd::string::*;

verus! {

/// `String::push` appends one character to the end of the string.
pub assume_specification[ String::push ](s: &mut String, c: char)
    ensures
        final(s)@ == old(s)@.push(c),
;

/// The characters of `s`, in order.
pub fn chars_of(s: &str) -> (v: Vec<char>)
    ensures
        v@ == s@,
{
    let mut v: Vec<char> = Vec::new();
    for c in it: s.chars()
        invariant
            v@ == it.seq().take(it.index()),
    {
        v.push(c);
    }
    v
}

/// The string whose characters are `v[from..to]`.
pub fn string_of_range(v: &Vec<char>, from: usize, to: usize) -> (s: String)
    requires
        from <= to <= v.len(),
    ensures
        s@ == v@.subrange(from as int, to as int),
{
    let mut s = String::new();
    let mut i: usize = from;
    while i < to
        invariant
            from <= i <= to <= v.len(),
            s@ == v@.subrange(from as int, i as int),
        decreases to - i,
    {
        s.push(v[i]);
        i += 1;
    }
    s
}

/// Whether two strings hold the same characters.
pub fn str_eq(a: &str, b: &str) -> (r: bool)
    ensures
        r == (a@ == b@),
{
    let x = chars_of(a);
    let y = chars_of(b);
    if x.len() != y.len() {
        return false;
    }
    let mut i: usize = 0;
    while i < x.len()
        invariant
            i <= x.len(),
            x.len() == y.len(),
            x@ == a@,
            y@ == b@,
            x@.take(i as int) == y@.take(i as int),
        decreases x.len() - i,
    {
        if x[i] != y[i] {
            return false;
        }
        assert(x@.take(i + 1) == x@.take(i as int).push(x@[i as int]));
        assert(y@.take(i + 1) == y@.take(i as int).push(y@[i as int]));
        i += 1;
    }
    assert(x@.take(x.len() as int) == x@);
    assert(y@.take(y.len() as int) == y@);
    true
}

/// Whether `v[at..]` begins with `pat`.
pub fn matches_at(v: &Vec<char>, at: usize, pat: &Vec<char>) -> (r: bool)
    requires
        at <= v.len(),
    ensures
        r == pat@.is_prefix_of(v@.skip(at as int)),
{
    if pat.len() > v.len() - at {
        return false;
    }
    let mut i: usize = 0;
    while i < pat.len()
        invariant
            i <= pat.len(),
            at + pat.len() <= v.len(),
            forall|j: int| 0 <= j < i ==> pat@[j] == v@[at + j],
        decreases pat.len() - i,
    {
        if pat[i] != v[at + i] {
            assert(v@.skip(at as int)[i as int] == v@[at + i]);
            return false;
        }
        i += 1;
    }
    assert(pat@ =~= v@.skip(at as int).subrange(0, pat@.len() as int));
    true
}

/// Whether `s` begins with `prefix`.
pub fn starts_with(s: &str, prefix: &str) -> (r: bool)
    ensures
        r == prefix@.is_prefix_of(s@),
{
    let v = chars_of(s);
    let p = chars_of(prefix);
    assert(v@.skip(0) == v@);
    matches_at(&v, 0, &p)
}

/// `pat` occurs somewhere in `s`.
pub open spec fn occurs_in(pat: Seq<char>, s: Seq<char>) -> bool {
    exists|i: int| 0 <= i <= s.len() && #[trigger] pat.is_prefix_of(s.skip(i))
}

/// Whether `s` holds `pat` as a contiguous run of characters.
pub fn contains(s: &str, pat: &str) -> (r: bool)
    ensures
        r == occurs_in(pat@, s@),
{
    let v = chars_of(s);
    let p = chars_of(pat);
    let mut i: usize = 0;
    while i < v.len()
        invariant
            i <= v.len(),
            v@ == s@,
            p@ == pat@,
            forall|j: int| 0 <= j < i ==> !#[trigger] p@.is_prefix_of(v@.skip(j)),
        decreases v.len() - i,
    {
        if matches_at(&v, i, &p) {
            return true;
        }
        i += 1;
    }
    matches_at(&v, i, &p)
}

/// `s` with every non-overlapping occurrence of `pat`, found from the left,
/// replaced by `with`. An empty `pat` occurs nowhere.
pub open spec fn replaced(s: Seq<char>, pat: Seq<char>, with: Seq<char>) -> Seq<char>
    decreases s.len(),
{
    if pat.len() == 0 || s.len() < pat.len() {
        s
    } else if pat.is_prefix_of(s) {
        with + replaced(s.skip(pat.len() as int), pat, with)
    } else {
        seq![s[0]] + replaced(s.skip(1), pat, with)
    }
}

/// Replaces every occurrence of `pat` in `s` by `with`. An empty `pat`
/// occurs nowhere.
pub fn replace_all(s: &str, pat: &str, with: &str) -> (r: String)
    ensures
        r@ == replaced(s@, pat@, with@),
{
    let v = chars_of(s);
    let p = chars_of(pat);
    if p.len() == 0 {
        return String::from_str(s);
    }
    let mut out = String::new();
    let mut i: usize = 0;
    assert(v@.skip(0) == v@);
    while i < v.len()
        invariant
            i <= v.len(),
            p@ == pat@,
            p@.len() > 0,
            out@ + replaced(v@.skip(i as int), p@, with@) == replaced(v@, p@, with@),
        decreases v.len() - i,
    {
        let ghost rest = v@.skip(i as int);
        if matches_at(&v, i, &p) {
            assert(rest.skip(p@.len() as int) == v@.skip(i + p@.len()));
            assert(out@ + (with@ + replaced(rest.skip(p@.len() as int), p@, with@)) == (out@
                + with@) + replaced(rest.skip(p@.len() as int), p@, with@));
            out.append(with);
            i += p.len();
        } else {
            assert(rest.skip(1) == v@.skip(i + 1));
            assert(rest[0] == v@[i as int]);
            assert(out@ + (seq![rest[0]] + replaced(rest.skip(1), p@, with@)) == out@.push(
                rest[0],
            ) + replaced(rest.skip(1), p@, with@));
            assert(rest.len() < p@.len() ==> replaced(rest.skip(1), p@, with@) == rest.skip(1));
            assert(rest == seq![rest[0]] + rest.skip(1));
            out.push(v[i]);
            i += 1;
        }
    }
    assert(out@ + Seq::<char>::empty() == out@);
    out
}

/// `s` with every character equal to `from` replaced by `to`.
pub open spec fn swapped(s: Seq<char>, from: char, to: char) -> Seq<char> {
    Seq::new(s.len(), |i: int| if s[i] == from { to } else { s[i] })
}

/// Replaces every `from` in `s` by `to`.
pub fn replace_char(s: &str, from: char, to: char) -> (r: String)
    ensures
        r@ == swapped(s@, from, to),
{
    let v = chars_of(s);
    let mut out = String::new();
    let mut i: usize = 0;
    while i < v.len()
        invariant
            i <= v.len(),
            v@ == s@,
            out@ == swapped(v@.take(i as int), from, to),
        decreases v.len() - i,
    {
        let c = if v[i] == from { to } else { v[i] };
        assert(swapped(v@.take(i + 1), from, to) == swapped(v@.take(i as int), from, to).push(c));
        out.push(c);
        i += 1;
    }
    assert(v@.take(v.len() as int) == v@);
    out
}

/// The parts, each followed by `sep` except the last.
pub open spec fn joined(parts: Seq<Seq<char>>, sep: Seq<char>) -> Seq<char>
    decreases parts.len(),
{
    if parts.len() == 0 {
        Seq::empty()
    } else if parts.len() == 1 {
        parts[0]
    } else {
        joined(parts.drop_last(), sep) + sep + parts.last()
    }
}

/// Joins `parts` with `sep` between neighbours.
pub fn join(parts: &Vec<String>, sep: &str) -> (r: String)
    ensures
        r@ == joined(view_each(parts@), sep@),
{
    let mut out = String::new();
    let mut i: usize = 0;
    while i < parts.len()
        invariant
            i <= parts.len(),
            out@ == joined(view_each(parts@).take(i as int), sep@),
        decreases parts.len() - i,
    {
        let ghost before = view_each(parts@).take(i as int);
        let ghost after = view_each(parts@).take(i + 1);
        assert(after.drop_last() == before);
        assert(after.last() == parts@[i as int]@);
        if i > 0 {
            out.append(sep);
        } else {
            assert(Seq::<char>::empty() + parts@[i as int]@ == parts@[i as int]@);
        }
        out.append(parts[i].as_str());
        i += 1;
    }
    assert(view_each(parts@).take(parts.len() as int) == view_each(parts@));
    out
}

/// The character that writes the decimal digit `d`.
pub open spec fn digit(d: nat) -> char {
    if d == 0 {
        '0'
    } else if d == 1 {
        '1'
    } else if d == 2 {
        '2'
    } else if d == 3 {
        '3'
    } else if d == 4 {
        '4'
    } else if d == 5 {
        '5'
    } else if d == 6 {
        '6'
    } else if d == 7 {
        '7'
    } else if d == 8 {
        '8'
    } else {
        '9'
    }
}

/// `n` written in decimal, without leading zeros.
pub open spec fn digits(n: nat) -> Seq<char>
    decreases n,
{
    if n < 10 {
        seq![digit(n)]
    } else {
        digits(n / 10).push(digit(n % 10))
    }
}

/// `n` written in decimal, with a leading minus sign when negative.
pub open spec fn signed_digits(n: int) -> Seq<char> {
    if n < 0 {
        seq!['-'] + digits((-n) as nat)
    } else {
        digits(n as nat)
    }
}

fn digit_char(d: u64) -> (c: char)
    requires
        d < 10,
    ensures
        c == digit(d as nat),
{
    if d == 0 {
        '0'
    } else if d == 1 {
        '1'
    } else if d == 2 {
        '2'
    } else if d == 3 {
        '3'
    } else if d == 4 {
        '4'
    } else if d == 5 {
        '5'
    } else if d == 6 {
        '6'
    } else if d == 7 {
        '7'
    } else if d == 8 {
        '8'
    } else {
        '9'
    }
}

/// Writes `n` in decimal.
pub fn decimal(n: u64) -> (r: String)
    ensures
        r@ == digits(n as nat),
    decreases n,
{
    if n < 10 {
        let mut s = String::new();
        s.push(digit_char(n));
        assert(Seq::<char>::empty().push(digit(n as nat)) == seq![digit(n as nat)]);
        s
    } else {
        let mut s = decimal(n / 10);
        s.push(digit_char(n % 10));
        s
    }
}

/// Writes `n` in decimal, with a leading minus sign when negative.
pub fn signed_decimal(n: i64) -> (r: String)
    ensures
        r@ == signed_digits(n as int),
{
    if n < 0 {
        let m: u64 = if n == i64::MIN {
            9223372036854775808u64
        } else {
            (-n) as u64
        };
        let mut s = String::new();
        s.push('-');
        let d = decimal(m);
        s.append(d.as_str());
        assert(Seq::<char>::empty().push('-') == seq!['-']);
        s
    } else {
        decimal(n as u64)
    }
}

/// `s` followed by as many spaces as it takes to reach `width` characters.
pub open spec fn padded(s: Seq<char>, width: nat) -> Seq<char> {
    if s.len() >= width {
        s
    } else {
        s + Seq::new((width - s.len()) as nat, |i: int| ' ')
    }
}

/// Pads `s` on the right with spaces to `width` characters.
pub fn pad_right(s: &str, width: usize) -> (r: String)
    ensures
        r@ == padded(s@, width as nat),
{
    let n = s.unicode_len();
    let mut out = String::from_str(s);
    let mut i: usize = n;
    while i < width
        invariant
            n == s@.len(),
            n <= i,
            i <= width || i == n,
            out@ == s@ + Seq::new((i - n) as nat, |j: int| ' '),
        decreases width - i,
    {
        assert(Seq::new((i + 1 - n) as nat, |j: int| ' ') == Seq::new((i - n) as nat, |j: int| ' ').push(
            ' ',
        ));
        out.push(' ');
        i += 1;
    }
    assert(s@ + Seq::new(0, |j: int| ' ') == s@);
    out
}

/// The characters that `char::is_whitespace` accepts: the code points with
/// the Unicode property `White_Space`.
pub open spec fn is_space(c: char) -> bool {
    let n = c as u32;
    ||| 0x09 <= n <= 0x0D
    ||| n == 0x20
    ||| n == 0x85
    ||| n == 0xA0
    ||| n == 0x1680
    ||| 0x2000 <= n <= 0x200A
    ||| n == 0x2028
    ||| n == 0x2029
    ||| n == 0x202F
    ||| n == 0x205F
    ||| n == 0x3000
}

fn space(c: char) -> (r: bool)
    ensures
        r == is_space(c),
{
    let n = c as u32;
    (0x09 <= n && n <= 0x0D) || n == 0x20 || n == 0x85 || n == 0xA0 || n == 0x1680 || (0x2000 <= n
        && n <= 0x200A) || n == 0x2028 || n == 0x2029 || n == 0x202F || n == 0x205F || n == 0x3000
}

/// `s` without its leading whitespace.
pub open spec fn trimmed_start(s: Seq<char>) -> Seq<char>
    decreases s.len(),
{
    if s.len() > 0 && is_space(s[0]) {
        trimmed_start(s.skip(1))
    } else {
        s
    }
}

/// `s` without its trailing whitespace.
pub open spec fn trimmed_end(s: Seq<char>) -> Seq<char>
    decreases s.len(),
{
    if s.len() > 0 && is_space(s.last()) {
        trimmed_end(s.drop_last())
    } else {
        s
    }
}

/// `s` without leading and trailing whitespace.
pub open spec fn trimmed(s: Seq<char>) -> Seq<char> {
    trimmed_end(trimmed_start(s))
}

/// Removes leading and trailing whitespace.
pub fn trim(s: &str) -> (r: String)
    ensures
        r@ == trimmed(s@),
{
    let v = chars_of(s);
    let mut from: usize = 0;
    assert(v@.skip(0) == v@);
    while from < v.len() && space(v[from])
        invariant
            from <= v.len(),
            trimmed_start(v@.skip(from as int)) == trimmed_start(v@),
        decreases v.len() - from,
    {
        assert(v@.skip(from as int).skip(1) == v@.skip(from + 1));
        from += 1;
    }
    let mut to: usize = v.len();
    let ghost rest = v@.skip(from as int);
    assert(trimmed_start(rest) == rest);
    assert(rest == v@.subrange(from as int, to as int));
    while to > from && space(v[to - 1])
        invariant
            from <= to <= v.len(),
            trimmed_end(v@.subrange(from as int, to as int)) == trimmed_end(rest),
        decreases to - from,
    {
        assert(v@.subrange(from as int, to as int).drop_last() == v@.subrange(
            from as int,
            to - 1,
        ));
        to -= 1;
    }
    string_of_range(&v, from, to)
}

/// Removes trailing whitespace.
pub fn trim_end(s: &str) -> (r: String)
    ensures
        r@ == trimmed_end(s@),
{
    let v = chars_of(s);
    let mut to: usize = v.len();
    assert(v@.subrange(0, to as int) == v@);
    while to > 0 && space(v[to - 1])
        invariant
            to <= v.len(),
            v@ == s@,
            trimmed_end(v@.subrange(0, to as int)) == trimmed_end(v@),
        decreases to,
    {
        assert(v@.subrange(0, to as int).drop_last() == v@.subrange(0, to - 1));
        to -= 1;
    }
    string_of_range(&v, 0, to)
}

/// What formatting a string with `{:?}` writes: the text in double quotes
/// with its special characters escaped.
pub uninterp spec fn quoted(s: Seq<char>) -> Seq<char>;

/// `format!("{:?}", s)`: the `Debug` form of a string, which depends on the
/// characters of `s` alone.
#[verifier::external_body]
pub(crate) fn quote(s: &str) -> (r: String)
    ensures
        r@ == quoted(s@),
{
    format!("{:?}", s)
}

/// Whether `a` comes before `b` in the order of dictionaries: at the first
/// place where they differ `a` has the lesser character, or `a` ends there
/// and `b` does not.
pub open spec fn text_lt(a: Seq<char>, b: Seq<char>) -> bool
    decreases a.len(),
{
    if b.len() == 0 {
        false
    } else if a.len() == 0 {
        true
    } else if a[0] != b[0] {
        (a[0] as int) < (b[0] as int)
    } else {
        text_lt(a.skip(1), b.skip(1))
    }
}

/// Of two different texts one comes before the other, and never both.
pub proof fn lemma_text_order(a: Seq<char>, b: Seq<char>)
    ensures
        a != b ==> (text_lt(a, b) <==> !text_lt(b, a)),
        a == b ==> !text_lt(a, b),
    decreases a.len(),
{
    if a.len() > 0 && b.len() > 0 {
        if a[0] == b[0] {
            lemma_text_order(a.skip(1), b.skip(1));
            if a.skip(1) == b.skip(1) {
                assert(a =~= seq![a[0]] + a.skip(1));
                assert(b =~= seq![b[0]] + b.skip(1));
            }
        }
    } else if a.len() == 0 && b.len() == 0 {
        assert(a =~= b);
    }
}

/// The order of dictionaries is transitive.
pub proof fn lemma_text_lt_trans(a: Seq<char>, b: Seq<char>, c: Seq<char>)
    requires
        text_lt(a, b),
        text_lt(b, c),
    ensures
        text_lt(a, c),
    decreases a.len(),
{
    if a.len() > 0 && a[0] == b[0] && b[0] == c[0] {
        lemma_text_lt_trans(a.skip(1), b.skip(1), c.skip(1));
    }
}

/// Every text stands before every later one.
pub open spec fn strictly_sorted(items: Seq<Seq<char>>) -> bool {
    forall|i: int, j: int| 0 <= i < j < items.len() ==> text_lt(#[trigger] items[i], #[trigger] items[j])
}

/// Whether the text at place `k` does not come after the one before it.
pub open spec fn out_of_order(items: Seq<Seq<char>>, k: int) -> bool {
    k > 0 && !text_lt(items[k - 1], items[k])
}

/// The first place at which a text does not come after the one before it.
pub open spec fn first_out_of_order(items: Seq<Seq<char>>) -> Option<int> {
    first_where(items.len(), |k: int| out_of_order(items, k))
}

/// Texts are strictly sorted exactly if none is out of order.
pub proof fn lemma_in_order(items: Seq<Seq<char>>)
    ensures
        first_out_of_order(items) is None <==> strictly_sorted(items),
        first_out_of_order(items) matches Some(k) ==> 0 < k < items.len(),
{
    let p = |k: int| out_of_order(items, k);
    lemma_first_where(items.len(), p);
    if first_out_of_order(items) is None {
        assert forall|k: int| 0 <= k < items.len() implies !out_of_order(items, k) by {
            assert(!p(k));
        }
        assert forall|i: int, j: int| 0 <= i < j < items.len() implies text_lt(
            #[trigger] items[i],
            #[trigger] items[j],
        ) by {
            lemma_ascending(items, i, j);
        }
    } else {
        let k = first_out_of_order(items)->0;
        assert(p(k));
        assert(!text_lt(items[k - 1], items[k]));
    }
}

proof fn lemma_ascending(items: Seq<Seq<char>>, i: int, j: int)
    requires
        0 <= i < j < items.len(),
        forall|k: int| 0 <= k < items.len() ==> !out_of_order(items, k),
    ensures
        text_lt(items[i], items[j]),
    decreases j - i,
{
    assert(!out_of_order(items, j));
    if i + 1 < j {
        lemma_ascending(items, i, j - 1);
        lemma_text_lt_trans(items[i], items[j - 1], items[j]);
    }
}

/// Finds the first text that does not come after the one before it.
pub fn find_out_of_order(items: &Vec<String>) -> (r: Option<usize>)
    ensures
        as_index(r) == first_out_of_order(view_each(items@)),
        r matches Some(k) ==> 0 < k < items.len(),
{
    let ghost vs = view_each(items@);
    let ghost p = |k: int| out_of_order(vs, k);
    if items.len() == 0 {
        proof {
            lemma_first_where_none(vs.len(), p);
        }
        return None;
    }
    assert(!p(0));
    let mut k: usize = 1;
    while k < items.len()
        invariant
            1 <= k <= items.len(),
            vs == view_each(items@),
            p == |k: int| out_of_order(vs, k),
            forall|j: int| 0 <= j < k ==> !#[trigger] p(j),
        decreases items.len() - k,
    {
        assert(vs[k - 1] == items@[k - 1]@);
        assert(vs[k as int] == items@[k as int]@);
        if !precedes(items[k - 1].as_str(), items[k].as_str()) {
            proof {
                assert(p(k as int));
                lemma_first_where_is(vs.len(), p, k as int);
            }
            return Some(k);
        }
        assert(!p(k as int));
        k += 1;
    }
    proof {
        lemma_first_where_none(vs.len(), p);
    }
    None
}

/// Puts `x` into a sorted list of distinct texts, unless it is there.
pub fn insert_sorted(out: &mut Vec<String>, x: &str)
    requires
        strictly_sorted(view_each(old(out)@)),
    ensures
        strictly_sorted(view_each(final(out)@)),
        forall|s: Seq<char>|
            view_each(final(out)@).contains(s) <==> (view_each(old(out)@).contains(s) || s == x@),
{
    let ghost before = view_each(out@);
    let mut p: usize = 0;
    while p < out.len() && precedes(out[p].as_str(), x)
        invariant
            p <= out.len(),
            before == view_each(out@),
            forall|k: int| 0 <= k < p ==> text_lt(#[trigger] before[k], x@),
        decreases out.len() - p,
    {
        p += 1;
    }
    if p < out.len() && str_eq(out[p].as_str(), x) {
        assert(before[p as int] == x@);
        assert(before.contains(x@));
        return ;
    }
    let item = String::from_str(x);
    out.insert(p, item);
    proof {
        let after = view_each(out@);
        assert(after =~= before.insert(p as int, x@));
        if p < before.len() {
            lemma_text_order(before[p as int], x@);
        }
        assert forall|i: int, j: int| 0 <= i < j < after.len() implies text_lt(
            #[trigger] after[i],
            #[trigger] after[j],
        ) by {
            if j < p {
                assert(after[i] == before[i] && after[j] == before[j]);
            } else if j == p {
                assert(after[i] == before[i]);
            } else if i == p {
                assert(after[j] == before[j - 1]);
                if j - 1 > p {
                    assert(text_lt(before[p as int], before[j - 1]));
                    lemma_text_lt_trans(x@, before[p as int], before[j - 1]);
                }
            } else if i < p {
                assert(after[i] == before[i] && after[j] == before[j - 1]);
            } else {
                assert(after[i] == before[i - 1] && after[j] == before[j - 1]);
            }
        }
        assert forall|s: Seq<char>| after.contains(s) <==> (before.contains(s) || s == x@) by {
            if after.contains(s) {
                let k = choose|k: int| 0 <= k < after.len() && after[k] == s;
                if k < p {
                    assert(before[k] == s);
                } else if k > p {
                    assert(before[k - 1] == s);
                }
            }
            if before.contains(s) {
                let k = choose|k: int| 0 <= k < before.len() && before[k] == s;
                if k < p {
                    assert(after[k] == s);
                } else {
                    assert(after[k + 1] == s);
                }
            }
            if s == x@ {
                assert(after[p as int] == s);
            }
        }
    }
}

fn code(c: char) -> (n: u32)
    ensures
        n == c as int,
{
    c as u32
}

/// Whether `a` comes before `b` in the order of dictionaries.
pub fn precedes(a: &str, b: &str) -> (r: bool)
    ensures
        r == text_lt(a@, b@),
{
    let x = chars_of(a);
    let y = chars_of(b);
    let mut i: usize = 0;
    assert(x@.skip(0) == x@);
    assert(y@.skip(0) == y@);
    while i < x.len() && i < y.len()
        invariant
            i <= x.len(),
            i <= y.len(),
            x@ == a@,
            y@ == b@,
            text_lt(x@.skip(i as int), y@.skip(i as int)) == text_lt(x@, y@),
        decreases x.len() - i,
    {
        let ghost xs = x@.skip(i as int);
        let ghost ys = y@.skip(i as int);
        assert(xs[0] == x@[i as int]);
        assert(ys[0] == y@[i as int]);
        if x[i] != y[i] {
            return code(x[i]) < code(y[i]);
        }
        assert(xs.skip(1) == x@.skip(i + 1));
        assert(ys.skip(1) == y@.skip(i + 1));
        i += 1;
    }
    i < y.len()
}

/// Adds a line to a list of lines.
pub fn push_line(lines: &mut Vec<String>, line: String)
    ensures
        view_each(final(lines)@) == view_each(old(lines)@).push(line@),
{
    proof {
        lemma_view_each_push(lines@, line);
    }
    lines.push(line);
}

/// A titled list as lines: nothing if the list is empty; else an empty
/// line, the title, and each item indented by two spaces.
pub open spec fn section(title: Seq<char>, items: Seq<Seq<char>>) -> Seq<Seq<char>> {
    if items.len() == 0 {
        Seq::empty()
    } else {
        seq![Seq::<char>::empty(), title] + Seq::new(items.len(), |i: int| "  "@ + items[i])
    }
}

/// Adds a titled list to a list of lines.
pub fn push_section(lines: &mut Vec<String>, title: &str, items: &Vec<String>)
    ensures
        view_each(final(lines)@) == view_each(old(lines)@) + section(title@, view_each(items@)),
{
    let ghost before = view_each(lines@);
    if items.len() == 0 {
        assert(before + Seq::<Seq<char>>::empty() =~= before);
        return ;
    }
    push_line(lines, String::new());
    push_line(lines, String::from_str(title));
    let ghost head = view_each(lines@);
    let ghost body = Seq::new(items@.len(), |i: int| "  "@ + view_each(items@)[i]);
    let mut i: usize = 0;
    while i < items.len()
        invariant
            i <= items.len(),
            body == Seq::new(items@.len(), |i: int| "  "@ + view_each(items@)[i]),
            view_each(lines@) == head + body.take(i as int),
        decreases items.len() - i,
    {
        let mut line = String::from_str("  ");
        line.append(items[i].as_str());
        proof {
            assert(body.take(i + 1) == body.take(i as int).push(line@));
            assert((head + body.take(i as int)).push(line@) =~= head + body.take(i + 1));
        }
        push_line(lines, line);
        i += 1;
    }
    proof {
        assert(body.take(items.len() as int) == body);
        assert(head =~= before + seq![Seq::<char>::empty(), title@]);
        assert(head + body =~= before + section(title@, view_each(items@)));
    }
}

} // verus!
