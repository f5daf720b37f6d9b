//! Text as sequences of characters: the small, exact vocabulary in which the
//! rest of the library states what it reads and writes.

use vstd::prelude::*;

verus! {

/// `String::push` appends one character to the string and changes nothing else.
pub assume_specification[ std::string::String::push ](s: &mut String, c: char)
    ensures
        final(s)@ == old(s)@.push(c),
;

/// The characters of `s`, in order.
pub fn chars_of(s: &str) -> (out: Vec<char>)
    ensures
        out@ == s@,
{
    let mut out: Vec<char> = Vec::new();
    for c in it: s.chars()
        invariant
            out@ == it.seq().take(it.index() as int),
    {
        out.push(c);
    }
    out
}

/// A string that holds the characters `v[from..to]`.
pub fn string_of_range(v: &Vec<char>, from: usize, to: usize) -> (out: String)
    requires
        from <= to <= v.len(),
    ensures
        out@ == v@.subrange(from as int, to as int),
{
    let mut out = String::new();
    let mut i: usize = from;
    while i < to
        invariant
            from <= i <= to <= v.len(),
            out@ == v@.subrange(from as int, i as int),
        decreases to - i,
    {
        out.push(v[i]);
        i += 1;
    }
    out
}

/// A string that holds exactly the characters of `v`.
pub fn string_of(v: &Vec<char>) -> (out: String)
    ensures
        out@ == v@,
{
    let out = string_of_range(v, 0, v.len());
    out
}

/// Whether two texts hold the same characters.
pub fn same_text(a: &str, b: &str) -> (out: bool)
    ensures
        out == (a@ == b@),
{
    let x = a.to_owned();
    let y = b.to_owned();
    x == y
}

/// White space as Unicode defines it (the property `White_Space`).
pub open spec fn is_space(c: char) -> bool {
    let n = c as u32;
    ||| 0x09 <= n <= 0x0D
    ||| n == 0x20
    ||| n == 0x85
    ||| n == 0xA0
    ||| n == 0x1680
    ||| 0x2000 <= n <= 0x200A
    ||| n == 0x2028
    ||| n == 0x2029
    ||| n == 0x202F
    ||| n == 0x205F
    ||| n == 0x3000
}

pub fn char_is_space(c: char) -> (out: bool)
    ensures
        out == is_space(c),
{
    let n: u32 = c as u32;
    (0x09 <= n && n <= 0x0D) || n == 0x20 || n == 0x85 || n == 0xA0 || n == 0x1680 || (0x2000 <= n
        && n <= 0x200A) || n == 0x2028 || n == 0x2029 || n == 0x202F || n == 0x205F || n == 0x3000
}

/// A text is blank when it holds nothing but white space.
pub open spec fn is_blank(s: Seq<char>) -> bool {
    forall|i: int| 0 <= i < s.len() ==> is_space(#[trigger] s[i])
}

/// How many white-space characters stand at the front of `s`.
pub open spec fn leading_spaces(s: Seq<char>) -> nat
    decreases s.len(),
{
    if s.len() > 0 && is_space(s[0]) {
        1 + leading_spaces(s.drop_first())
    } else {
        0
    }
}

/// How many white-space characters stand at the end of `s`.
pub open spec fn trailing_spaces(s: Seq<char>) -> nat
    decreases s.len(),
{
    if s.len() > 0 && is_space(s.last()) {
        1 + trailing_spaces(s.drop_last())
    } else {
        0
    }
}

/// `s` without the white space at its front.
pub open spec fn trimmed_start(s: Seq<char>) -> Seq<char> {
    s.skip(leading_spaces(s) as int)
}

/// `s` without the white space at either end.
pub open spec fn trimmed(s: Seq<char>) -> Seq<char> {
    let rest = trimmed_start(s);
    rest.take(rest.len() - trailing_spaces(rest))
}

pub proof fn lemma_leading_spaces(s: Seq<char>)
    ensures
        leading_spaces(s) <= s.len(),
        forall|i: int| 0 <= i < leading_spaces(s) ==> is_space(#[trigger] s[i]),
        leading_spaces(s) < s.len() ==> !is_space(s[leading_spaces(s) as int]),
        leading_spaces(s) == s.len() <==> is_blank(s),
    decreases s.len(),
{
    if s.len() > 0 && is_space(s[0]) {
        let t = s.drop_first();
        lemma_leading_spaces(t);
        assert forall|i: int| 0 <= i < leading_spaces(s) implies is_space(#[trigger] s[i]) by {
            if i > 0 {
                assert(s[i] == t[i - 1]);
            }
        }
    }
}

/// The number of leading white-space characters of `v[from..]`.
fn count_leading_spaces(v: &Vec<char>) -> (n: usize)
    ensures
        n == leading_spaces(v@),
{
    let mut i: usize = 0;
    assert(v@.skip(0) == v@);
    while i < v.len() && char_is_space(v[i])
        invariant
            i <= v.len(),
            leading_spaces(v@) == i + leading_spaces(v@.skip(i as int)),
        decreases v.len() - i,
    {
        proof {
            let t = v@.skip(i as int);
            assert(t.drop_first() == v@.skip(i + 1));
        }
        i += 1;
    }
    proof {
        let t = v@.skip(i as int);
    }
    i
}

/// The number of trailing white-space characters of `v[..upto]`.
fn count_trailing_spaces(v: &Vec<char>, from: usize) -> (n: usize)
    requires
        from <= v.len(),
    ensures
        n == trailing_spaces(v@.skip(from as int)),
        n <= v.len() - from,
{
    let ghost s = v@.skip(from as int);
    let mut end: usize = v.len();
    assert(s.take(s.len() as int) == s);
    while end > from && char_is_space(v[end - 1])
        invariant
            from <= end <= v.len(),
            s == v@.skip(from as int),
            trailing_spaces(s) == (v.len() - end) + trailing_spaces(s.take(end - from)),
        decreases end,
    {
        proof {
            let t = s.take(end - from);
            assert(t.drop_last() == s.take(end - 1 - from));
        }
        end -= 1;
    }
    proof {
        let t = s.take(end - from);
    }
    v.len() - end
}

/// Whether `s` holds nothing but white space.
pub fn str_is_blank(s: &str) -> (out: bool)
    ensures
        out == is_blank(s@),
{
    let v = chars_of(s);
    let n = count_leading_spaces(&v);
    proof {
        lemma_leading_spaces(v@);
    }
    n == v.len()
}

/// `s` without the white space at either end.
pub fn trim(s: &str) -> (out: String)
    ensures
        out@ == trimmed(s@),
{
    let v = chars_of(s);
    let lead = count_leading_spaces(&v);
    proof {
        lemma_leading_spaces(v@);
    }
    let trail = count_trailing_spaces(&v, lead);
    let out = string_of_range(&v, lead, v.len() - trail);
    proof {
        let rest = v@.skip(lead as int);
    }
    out
}

/// `s` without the white space at its front.
pub fn trim_start(s: &str) -> (out: String)
    ensures
        out@ == trimmed_start(s@),
{
    let v = chars_of(s);
    let lead = count_leading_spaces(&v);
    proof {
        lemma_leading_spaces(v@);
    }
    string_of_range(&v, lead, v.len())
}

/// Whether `s` begins with `prefix`.
pub fn starts_with(s: &str, prefix: &str) -> (out: bool)
    ensures
        out == prefix@.is_prefix_of(s@),
{
    let v = chars_of(s);
    let p = chars_of(prefix);
    if p.len() > v.len() {
        return false;
    }
    let mut i: usize = 0;
    while i < p.len()
        invariant
            i <= p.len() <= v.len(),
            v@ == s@,
            p@ == prefix@,
            forall|j: int| 0 <= j < i ==> v@[j] == p@[j],
        decreases p.len() - i,
    {
        if v[i] != p[i] {
            return false;
        }
        i += 1;
    }
    true
}

/// Whether `s` begins with the character `c`.
pub fn starts_with_char(s: &str, c: char) -> (out: bool)
    ensures
        out == (s@.len() > 0 && s@[0] == c),
{
    let v = chars_of(s);
    v.len() > 0 && v[0] == c
}

/// The decimal digit that stands for `d`.
pub open spec fn digit_char(d: int) -> char {
    if d == 0 {
        '0'
    } else if d == 1 {
        '1'
    } else if d == 2 {
        '2'
    } else if d == 3 {
        '3'
    } else if d == 4 {
        '4'
    } else if d == 5 {
        '5'
    } else if d == 6 {
        '6'
    } else if d == 7 {
        '7'
    } else if d == 8 {
        '8'
    } else {
        '9'
    }
}

/// The decimal numeral of `n`, without sign or leading zeros.
pub open spec fn decimal_text(n: nat) -> Seq<char>
    decreases n,
{
    if n < 10 {
        seq![digit_char(n as int)]
    } else {
        decimal_text(n / 10).push(digit_char((n % 10) as int))
    }
}

fn digit_of(d: u64) -> (c: char)
    requires
        d < 10,
    ensures
        c == digit_char(d as int),
{
    if d == 0 {
        '0'
    } else if d == 1 {
        '1'
    } else if d == 2 {
        '2'
    } else if d == 3 {
        '3'
    } else if d == 4 {
        '4'
    } else if d == 5 {
        '5'
    } else if d == 6 {
        '6'
    } else if d == 7 {
        '7'
    } else if d == 8 {
        '8'
    } else {
        '9'
    }
}

/// The decimal numeral of `n`.
pub fn u64_to_text(n: u64) -> (out: String)
    ensures
        out@ == decimal_text(n as nat),
{
    let mut digits: Vec<char> = Vec::new();
    let mut rest: u64 = n;
    // Digits are produced lowest first, then written out in reverse.
    while rest >= 10
        invariant
            decimal_text(n as nat) == decimal_text(rest as nat) + digits@.reverse(),
        decreases rest,
    {
        let d = digit_of(rest % 10);
        proof {
            let before = digits@;
            let after = before.push(d);
        }
        digits.push(d);
        rest = rest / 10;
    }
    let last = digit_of(rest);
    let mut out = String::new();
    out.push(last);
    let mut i: usize = digits.len();
    while i > 0
        invariant
            i <= digits.len(),
            out@ == seq![last] + digits@.reverse().take(digits.len() - i),
        decreases i,
    {
        i -= 1;
        out.push(digits[i]);
    }
    out
}

/// Whether `a` comes before `b` in the order of `str`: character by
/// character, a proper prefix first.
pub open spec fn text_lt(a: Seq<char>, b: Seq<char>) -> bool {
    exists|k: int|
        0 <= k <= a.len() && k <= b.len() && #[trigger] a.take(k) == b.take(k) && (if k == a.len() {
            k < b.len()
        } else {
            k < b.len() && a[k] < b[k]
        })
}

/// The three ways in which two texts can stand to each other.
#[derive(Clone, Copy, Debug, PartialEq, Eq)]
pub enum TextOrder {
    Before,
    Same,
    After,
}

/// Compares two texts in the order of `str`.
fn compare_text(a: &str, b: &str) -> (out: TextOrder)
    ensures
        out == TextOrder::Before ==> text_lt(a@, b@),
        out == TextOrder::Same ==> a@ == b@,
        out == TextOrder::After ==> text_lt(b@, a@),
{
    let x = chars_of(a);
    let y = chars_of(b);
    let mut i: usize = 0;
    while i < x.len() && i < y.len()
        invariant
            i <= x.len(),
            i <= y.len(),
            x@ == a@,
            y@ == b@,
            x@.take(i as int) == y@.take(i as int),
        decreases x.len() - i,
    {
        if x[i] < y[i] {
            return TextOrder::Before;
        }
        if y[i] < x[i] {
            return TextOrder::After;
        }
        i += 1;
    }
    if i < y.len() {
        TextOrder::Before
    } else if i < x.len() {
        TextOrder::After
    } else {
        proof {
            assert(x@.take(i as int) == x@);
        }
        TextOrder::Same
    }
}

/// The index of the first `c` in `s`, or the length of `s` where there is none.
pub open spec fn first_index(s: Seq<char>, c: char) -> int
    decreases s.len(),
{
    if s.len() == 0 || s[0] == c {
        0
    } else {
        1 + first_index(s.drop_first(), c)
    }
}

pub proof fn lemma_first_index(s: Seq<char>, c: char)
    ensures
        0 <= first_index(s, c) <= s.len(),
        forall|i: int| 0 <= i < first_index(s, c) ==> #[trigger] s[i] != c,
        first_index(s, c) < s.len() ==> s[first_index(s, c)] == c,
    decreases s.len(),
{
    if !(s.len() == 0 || s[0] == c) {
        let t = s.drop_first();
        lemma_first_index(t, c);
        assert forall|i: int| 0 <= i < first_index(s, c) implies #[trigger] s[i] != c by {
            if i > 0 {
                assert(s[i] == t[i - 1]);
            }
        }
    }
}

/// Where `k` is the place of the first `c`, the function says so.
pub proof fn lemma_first_index_is(s: Seq<char>, c: char, k: int)
    requires
        0 <= k <= s.len(),
        forall|i: int| 0 <= i < k ==> #[trigger] s[i] != c,
        k < s.len() ==> s[k] == c,
    ensures
        first_index(s, c) == k,
{
    lemma_first_index(s, c);
}

/// The pieces of `s` between the occurrences of `sep`: one more than there
/// are occurrences, empty pieces included.
pub open spec fn split_on(s: Seq<char>, sep: char) -> Seq<Seq<char>>
    decreases s.len(),
{
    let k = first_index(s, sep);
    if 0 <= k < s.len() {
        seq![s.take(k)] + split_on(s.skip(k + 1), sep)
    } else {
        seq![s]
    }
}

/// The models of a list of strings.
pub open spec fn texts(v: Seq<String>) -> Seq<Seq<char>> {
    v.map_values(|s: String| s@)
}

/// Finds the first `c` at or after `from`.
pub fn find_char(v: &Vec<char>, from: usize, c: char) -> (k: usize)
    requires
        from <= v.len(),
    ensures
        k == from + first_index(v@.skip(from as int), c),
        from <= k <= v.len(),
{
    let mut i: usize = from;
    while i < v.len() && v[i] != c
        invariant
            from <= i <= v.len(),
            forall|j: int| from <= j < i ==> v@[j] != c,
        decreases v.len() - i,
    {
        i += 1;
    }
    proof {
        let t = v@.skip(from as int);
        lemma_first_index_is(t, c, i - from);
    }
    i
}

/// Splits `s` at every `sep`.
pub fn split_text(s: &str, sep: char) -> (out: Vec<String>)
    ensures
        texts(out@) == split_on(s@, sep),
        out.len() >= 1,
{
    let v = chars_of(s);
    let mut out: Vec<String> = Vec::new();
    let mut start: usize = 0;
    assert(v@.skip(0) == v@);
    loop
        invariant
            start <= v.len(),
            v@ == s@,
            split_on(s@, sep) == texts(out@) + split_on(v@.skip(start as int), sep),
        decreases v.len() - start,
    {
        let k = find_char(&v, start, sep);
        let piece = string_of_range(&v, start, k);
        let ghost rest = v@.skip(start as int);
        proof {
            assert(rest.take(k - start) == v@.subrange(start as int, k as int));
        }
        out.push(piece);
        if k >= v.len() {
            return out;
        }
        proof {
            assert(rest.skip(k - start + 1) == v@.skip(k + 1));
        }
        start = k + 1;
    }
}

/// Whether `c` is one of the ten ASCII digits.
pub open spec fn is_digit(c: char) -> bool {
    '0' <= c <= '9'
}

/// Whether every character of `s` is an ASCII digit.
pub open spec fn all_digits(s: Seq<char>) -> bool {
    forall|i: int| 0 <= i < s.len() ==> is_digit(#[trigger] s[i])
}

pub fn char_is_digit(c: char) -> (out: bool)
    ensures
        out == is_digit(c),
{
    '0' <= c && c <= '9'
}

/// Whether `s` is made of ASCII digits alone.
pub fn str_all_digits(s: &str) -> (out: bool)
    ensures
        out == all_digits(s@),
{
    let v = chars_of(s);
    let mut i: usize = 0;
    while i < v.len()
        invariant
            i <= v.len(),
            v@ == s@,
            forall|j: int| 0 <= j < i ==> is_digit(#[trigger] v@[j]),
        decreases v.len() - i,
    {
        if !char_is_digit(v[i]) {
            return false;
        }
        i += 1;
    }
    true
}

/// Whether `needle` is one of `items`.
pub fn contains_text(items: &Vec<String>, needle: &str) -> (out: bool)
    ensures
        out == texts(items@).contains(needle@),
{
    let mut i: usize = 0;
    while i < items.len()
        invariant
            i <= items.len(),
            forall|j: int| 0 <= j < i ==> #[trigger] texts(items@)[j] != needle@,
        decreases items.len() - i,
    {
        assert(texts(items@)[i as int] == items@[i as int]@);
        if same_text(items[i].as_str(), needle) {
            return true;
        }
        i += 1;
    }
    false
}

/// The parts written one after the other, with `sep` between neighbours.
pub open spec fn joined(parts: Seq<Seq<char>>, sep: Seq<char>) -> Seq<char>
    decreases parts.len(),
{
    if parts.len() == 0 {
        Seq::empty()
    } else if parts.len() == 1 {
        parts[0]
    } else {
        joined(parts.drop_last(), sep) + sep + parts.last()
    }
}

/// Writes the parts one after the other, with `sep` between neighbours.
pub fn join(parts: &Vec<String>, sep: &str) -> (out: String)
    ensures
        out@ == joined(texts(parts@), sep@),
{
    let mut out = String::new();
    let mut i: usize = 0;
    while i < parts.len()
        invariant
            i <= parts.len(),
            out@ == joined(texts(parts@).take(i as int), sep@),
        decreases parts.len() - i,
    {
        proof {
            let t = texts(parts@);
            assert(t.take(i + 1).drop_last() == t.take(i as int));
        }
        if i > 0 {
            out.append(sep);
        }
        out.append(parts[i].as_str());
        i += 1;
    }
    proof {
        assert(texts(parts@).take(parts.len() as int) == texts(parts@));
    }
    out
}

/// Each text comes before its successor in the order of `str`; so none stands twice.
pub open spec fn strictly_sorted(items: Seq<Seq<char>>) -> bool {
    forall|i: int| 0 <= i < items.len() - 1 ==> text_lt(#[trigger] items[i], items[i + 1])
}

/// Puts `item` at its place in a sorted list, unless the list holds it already.
pub fn insert_sorted_unique(items: &mut Vec<String>, item: String)
    requires
        strictly_sorted(texts(old(items)@)),
    ensures
        strictly_sorted(texts(final(items)@)),
        forall|t: Seq<char>| #[trigger]
            texts(final(items)@).contains(t) <==> (texts(old(items)@).contains(t) || t == item@),
{
    let ghost before = texts(items@);
    let mut p: usize = 0;
    let mut found: bool = false;
    while p < items.len()
        invariant_except_break
            !found,
        invariant
            p <= items.len(),
            texts(items@) == before,
            forall|j: int| 0 <= j < p ==> text_lt(#[trigger] before[j], item@),
        ensures
            p <= items.len(),
            texts(items@) == before,
            forall|j: int| 0 <= j < p ==> text_lt(#[trigger] before[j], item@),
            found ==> p < items.len() && before[p as int] == item@,
            !found && p < items.len() ==> text_lt(item@, before[p as int]),
        decreases items.len() - p,
    {
        match compare_text(items[p].as_str(), item.as_str()) {
            TextOrder::Before => {
                p += 1;
            },
            TextOrder::Same => {
                found = true;
                break ;
            },
            TextOrder::After => {
                break ;
            },
        }
    }
    if found {
        return ;
    }
    let ghost added = item@;
    items.insert(p, item);
    proof {
        let after = texts(items@);
        assert(after == before.insert(p as int, added));
        assert forall|t: Seq<char>| #[trigger]
            after.contains(t) <==> (before.contains(t) || t == added) by {
            if after.contains(t) {
                let i = choose|i: int| 0 <= i < after.len() && after[i] == t;
            }
            if before.contains(t) {
                let i = choose|i: int| 0 <= i < before.len() && before[i] == t;
                if i < p {
                    assert(after[i] == t);
                } else {
                    assert(after[i + 1] == t);
                }
            }
            if t == added {
                assert(after[p as int] == t);
            }
        }
    }
}

/// Whether `pattern` stands in `s` at place `at`.
pub open spec fn occurs_at(s: Seq<char>, pattern: Seq<char>, at: int) -> bool {
    0 <= at && at + pattern.len() <= s.len() && s.subrange(at, at + pattern.len()) == pattern
}

/// `s` with every occurrence of `pattern` replaced by `with`, read from
/// left to right; an occurrence that overlaps a replaced one does not count.
pub open spec fn replaced(s: Seq<char>, pattern: Seq<char>, with: Seq<char>) -> Seq<char>
    decreases s.len(),
{
    if pattern.len() == 0 || s.len() < pattern.len() {
        s
    } else if occurs_at(s, pattern, 0) {
        with + replaced(s.skip(pattern.len() as int), pattern, with)
    } else {
        seq![s[0]] + replaced(s.skip(1), pattern, with)
    }
}

/// Whether `pattern` stands in `v` at place `at`.
pub fn matches_at(v: &Vec<char>, pattern: &Vec<char>, at: usize) -> (out: bool)
    ensures
        out == occurs_at(v@, pattern@, at as int),
{
    if at > v.len() || pattern.len() > v.len() - at {
        return false;
    }
    let mut i: usize = 0;
    while i < pattern.len()
        invariant
            i <= pattern.len(),
            at + pattern.len() <= v.len(),
            forall|j: int| 0 <= j < i ==> v@[at + j] == pattern@[j],
        decreases pattern.len() - i,
    {
        if v[at + i] != pattern[i] {
            return false;
        }
        i += 1;
    }
    assert(v@.subrange(at as int, at + pattern.len()) =~= pattern@);
    true
}

/// Replaces every occurrence of `pattern` in `s` by `with`.
pub fn replace(s: &str, pattern: &str, with: &str) -> (out: String)
    ensures
        out@ == replaced(s@, pattern@, with@),
{
    let v = chars_of(s);
    let p = chars_of(pattern);
    if p.len() == 0 {
        return s.to_owned();
    }
    let mut out = String::new();
    let mut i: usize = 0;
    assert(v@.skip(0) == v@);
    while i < v.len()
        invariant
            i <= v.len(),
            p@ == pattern@,
            p.len() > 0,
            v@ == s@,
            replaced(s@, pattern@, with@) == out@ + replaced(v@.skip(i as int), pattern@, with@),
        decreases v.len() - i,
    {
        let ghost rest = v@.skip(i as int);
        if matches_at(&v, &p, i) {
            proof {
                assert(rest.subrange(0, p.len() as int) == v@.subrange(i as int, i + p.len()));
                assert(rest.skip(p.len() as int) == v@.skip(i + p.len()));
            }
            out.append(with);
            i += p.len();
        } else {
            proof {
                if rest.len() >= p.len() {
                    assert(rest.subrange(0, p.len() as int) == v@.subrange(i as int, i + p.len()));
                    assert(rest.skip(1) == v@.skip(i + 1));
                }
            }
            if v.len() - i < p.len() {
                let tail = string_of_range(&v, i, v.len());
                out.append(tail.as_str());
                i = v.len();
            } else {
                out.push(v[i]);
                i += 1;
            }
        }
    }
    out
}

/// Whether `needle` stands somewhere in `hay`.
pub open spec fn has_sub(hay: Seq<char>, needle: Seq<char>) -> bool {
    exists|at: int| occurs_at(hay, needle, at)
}

/// Whether `needle` stands somewhere in `hay`.
pub fn contains_sub(hay: &str, needle: &str) -> (out: bool)
    ensures
        out == has_sub(hay@, needle@),
{
    let v = chars_of(hay);
    let p = chars_of(needle);
    let mut i: usize = 0;
    while i < v.len()
        invariant
            i <= v.len(),
            v@ == hay@,
            p@ == needle@,
            forall|at: int| 0 <= at < i ==> !occurs_at(v@, p@, at),
        decreases v.len() - i,
    {
        if matches_at(&v, &p, i) {
            return true;
        }
        i += 1;
    }
    matches_at(&v, &p, i)
}

/// Whether `c` stands somewhere in `s`.
pub fn contains_char(s: &str, c: char) -> (out: bool)
    ensures
        out == s@.contains(c),
{
    let v = chars_of(s);
    let k = find_char(&v, 0, c);
    proof {
        assert(v@.skip(0) == v@);
        lemma_first_index(v@, c);
        if s@.contains(c) {
            let i = choose|i: int| 0 <= i < v@.len() && v@[i] == c;
        }
    }
    k < v.len()
}

/// The two parts of `s` around its first `sep`, if it has one.
pub open spec fn split_first(s: Seq<char>, sep: char) -> Option<(Seq<char>, Seq<char>)> {
    let k = first_index(s, sep);
    if 0 <= k < s.len() {
        Some((s.take(k), s.skip(k + 1)))
    } else {
        None
    }
}

/// The two texts of an optional pair of strings.
pub open spec fn pair_texts(pair: Option<(String, String)>) -> Option<(Seq<char>, Seq<char>)> {
    match pair {
        Some((a, b)) => Some((a@, b@)),
        None => None,
    }
}

/// Splits `s` at its first `sep`.
pub fn split_once(s: &str, sep: char) -> (out: Option<(String, String)>)
    ensures
        pair_texts(out) == split_first(s@, sep),
{
    let v = chars_of(s);
    assert(v@.skip(0) == v@);
    let k = find_char(&v, 0, sep);
    if k >= v.len() {
        return None;
    }
    let head = string_of_range(&v, 0, k);
    let tail = string_of_range(&v, k + 1, v.len());
    Some((head, tail))
}

/// `s` without `suffix` at its end, if it ends with it.
pub open spec fn without_suffix(s: Seq<char>, suffix: Seq<char>) -> Option<Seq<char>> {
    if suffix.is_suffix_of(s) {
        Some(s.take(s.len() - suffix.len()))
    } else {
        None
    }
}

/// `s` without `prefix` at its front, if it begins with it.
pub open spec fn without_prefix(s: Seq<char>, prefix: Seq<char>) -> Option<Seq<char>> {
    if prefix.is_prefix_of(s) {
        Some(s.skip(prefix.len() as int))
    } else {
        None
    }
}

/// Takes `prefix` off the front of `s`.
pub fn strip_prefix(s: &str, prefix: &str) -> (out: Option<String>)
    ensures
        crate::calendar::optional_text(out) == without_prefix(s@, prefix@),
{
    let v = chars_of(s);
    let p = chars_of(prefix);
    if matches_at(&v, &p, 0) {
        Some(string_of_range(&v, p.len(), v.len()))
    } else {
        None
    }
}

/// Takes `suffix` off the end of `s`.
pub fn strip_suffix(s: &str, suffix: &str) -> (out: Option<String>)
    ensures
        crate::calendar::optional_text(out) == without_suffix(s@, suffix@),
{
    let v = chars_of(s);
    let p = chars_of(suffix);
    if p.len() <= v.len() && matches_at(&v, &p, v.len() - p.len()) {
        Some(string_of_range(&v, 0, v.len() - p.len()))
    } else {
        None
    }
}

/// The number that a text of digits stands for.
pub open spec fn digits_value(digits: Seq<char>) -> nat
    decreases digits.len(),
{
    if digits.len() == 0 {
        0
    } else {
        10 * digits_value(digits.drop_last()) + ((digits.last() as int) - ('0' as int)) as nat
    }
}

/// The integer that a text names: an optional sign, then one or more ASCII
/// digits and nothing else.
pub open spec fn signed_value(text: Seq<char>) -> Option<int> {
    if text.len() > 0 && (text[0] == '-' || text[0] == '+') {
        let digits = text.skip(1);
        if digits.len() > 0 && all_digits(digits) {
            Some(if text[0] == '-' {
                -(digits_value(digits) as int)
            } else {
                digits_value(digits) as int
            })
        } else {
            None
        }
    } else if text.len() > 0 && all_digits(text) {
        Some(digits_value(text) as int)
    } else {
        None
    }
}

/// The integer that a text names, if no minus sign stands before it.
pub open spec fn unsigned_value(text: Seq<char>) -> Option<int> {
    if text.len() > 0 && text[0] == '-' {
        None
    } else {
        signed_value(text)
    }
}

proof fn lemma_digits_grow(digits: Seq<char>, i: int)
    requires
        all_digits(digits),
        0 <= i <= digits.len(),
    ensures
        digits_value(digits.take(i)) <= digits_value(digits),
    decreases digits.len() - i,
{
    if i < digits.len() {
        lemma_digits_grow(digits, i + 1);
        assert(digits.take(i + 1).drop_last() == digits.take(i));
    } else {
        assert(digits.take(i) == digits);
    }
}

/// Reads the digits `v[from..]`; `None` where they are no number or one above `limit`.
fn read_digits(v: &Vec<char>, from: usize, limit: u64) -> (out: Option<u64>)
    requires
        from <= v.len(),
    ensures
        match out {
            Some(n) => v.len() > from && all_digits(v@.skip(from as int)) && digits_value(
                v@.skip(from as int),
            ) == n && n <= limit,
            None => !(v.len() > from && all_digits(v@.skip(from as int)) && digits_value(
                v@.skip(from as int),
            ) <= limit),
        },
{
    let ghost digits = v@.skip(from as int);
    if from == v.len() {
        return None;
    }
    let mut acc: u64 = 0;
    let mut i: usize = from;
    while i < v.len()
        invariant
            from <= i <= v.len(),
            digits == v@.skip(from as int),
            acc <= limit,
            acc == digits_value(digits.take(i - from)),
            forall|j: int| 0 <= j < i - from ==> is_digit(#[trigger] digits[j]),
        decreases v.len() - i,
    {
        let c = v[i];
        assert(digits[i - from] == c);
        if !char_is_digit(c) {
            return None;
        }
        let d: u64 = (c as u64) - ('0' as u64);
        proof {
            assert(digits.take(i + 1 - from).drop_last() == digits.take(i - from));
        }
        if limit < d || acc > (limit - d) / 10 {
            proof {
                if all_digits(digits) {
                    lemma_digits_grow(digits, i + 1 - from);
                }
            }
            return None;
        }
        acc = acc * 10 + d;
        i += 1;
    }
    assert(digits.take(digits.len() as int) == digits);
    Some(acc)
}

/// Reads an integer from `i64::MIN` to `i64::MAX`.
pub fn parse_i64(text: &str) -> (out: Option<i64>)
    ensures
        match out {
            Some(n) => signed_value(text@) == Some(n as int),
            None => !(signed_value(text@) matches Some(n) && i64::MIN <= n <= i64::MAX),
        },
{
    let v = chars_of(text);
    if v.len() > 0 && v[0] == '-' {
        match read_digits(&v, 1, 0x8000_0000_0000_0000) {
            Some(n) => if n == 0x8000_0000_0000_0000 {
                Some(i64::MIN)
            } else {
                Some(-(n as i64))
            },
            None => None,
        }
    } else if v.len() > 0 && v[0] == '+' {
        match read_digits(&v, 1, 0x7fff_ffff_ffff_ffff) {
            Some(n) => Some(n as i64),
            None => None,
        }
    } else {
        assert(v@.skip(0) == v@);
        match read_digits(&v, 0, 0x7fff_ffff_ffff_ffff) {
            Some(n) => Some(n as i64),
            None => None,
        }
    }
}

/// Reads an integer from 0 to `u64::MAX`.
pub fn parse_u64(text: &str) -> (out: Option<u64>)
    ensures
        match out {
            Some(n) => unsigned_value(text@) == Some(n as int),
            None => !(unsigned_value(text@) matches Some(n) && n <= u64::MAX),
        },
{
    let v = chars_of(text);
    if v.len() > 0 && v[0] == '-' {
        None
    } else if v.len() > 0 && v[0] == '+' {
        read_digits(&v, 1, 0xffff_ffff_ffff_ffff)
    } else {
        assert(v@.skip(0) == v@);
        read_digits(&v, 0, 0xffff_ffff_ffff_ffff)
    }
}

/// The text in lower case, as `str::to_lowercase` gives it.
pub uninterp spec fn lowercase(text: Seq<char>) -> Seq<char>;

/// `str::to_lowercase` hands back the text in lower case by the rules of
/// Unicode, which depend on nothing but the text.
pub assume_specification[ str::to_lowercase ](s: &str) -> (out: String)
    ensures
        out@ == lowercase(s@),
;

/// How two texts stand to each other in the order of `str`: the first
/// place at which they differ decides, and a text comes before every
/// longer text that begins with it.
pub open spec fn text_order(a: Seq<char>, b: Seq<char>) -> TextOrder
    decreases a.len(),
{
    if a.len() == 0 {
        if b.len() == 0 {
            TextOrder::Same
        } else {
            TextOrder::Before
        }
    } else if b.len() == 0 {
        TextOrder::After
    } else if a[0] < b[0] {
        TextOrder::Before
    } else if b[0] < a[0] {
        TextOrder::After
    } else {
        text_order(a.drop_first(), b.drop_first())
    }
}

/// Compares two texts in the order of `str`.
pub fn order_of(a: &str, b: &str) -> (out: TextOrder)
    ensures
        out == text_order(a@, b@),
{
    let x = chars_of(a);
    let y = chars_of(b);
    let mut i: usize = 0;
    assert(x@.skip(0) == x@ && y@.skip(0) == y@);
    while i < x.len() && i < y.len()
        invariant
            i <= x.len(),
            i <= y.len(),
            x@ == a@,
            y@ == b@,
            text_order(a@, b@) == text_order(x@.skip(i as int), y@.skip(i as int)),
        decreases x.len() - i,
    {
        proof {
            assert(x@.skip(i as int).drop_first() == x@.skip(i + 1));
            assert(y@.skip(i as int).drop_first() == y@.skip(i + 1));
        }
        if x[i] < y[i] {
            return TextOrder::Before;
        }
        if y[i] < x[i] {
            return TextOrder::After;
        }
        i += 1;
    }
    if i < y.len() {
        TextOrder::Before
    } else if i < x.len() {
        TextOrder::After
    } else {
        TextOrder::Same
    }
}

/// Whether `c` is a digit of the hexadecimal system, in either case.
pub open spec fn is_hex_digit(c: char) -> bool {
    ('0' <= c <= '9') || ('a' <= c <= 'f') || ('A' <= c <= 'F')
}

/// The number from 0 to 99 in two digits.
pub open spec fn two_digits(n: int) -> Seq<char> {
    seq![digit_char(n / 10), digit_char(n % 10)]
}

/// Writes a number from 0 to 99 in two digits.
pub fn two_digit_text(n: u64) -> (out: String)
    requires
        n < 100,
    ensures
        out@ == two_digits(n as int),
{
    let mut out = String::new();
    out.push(digit_of(n / 10));
    out.push(digit_of(n % 10));
    out
}

} // verus!
