//! Text as a sequence of characters: searching, ordering, trimming, joining and
//! writing numbers.
use vstd::prelude::*;
use vstd::string::*;

verus! {

/// `String::push` of the standard library: the character goes to the end of the text.
pub assume_specification[ String::push ](s: &mut String, c: char)
    ensures
        final(s)@ == old(s)@.push(c),
;

/// `part` stands in `s` at `i`.
pub open spec fn occurs_at(s: Seq<char>, part: Seq<char>, i: int) -> bool {
    &&& 0 <= i
    &&& i + part.len() <= s.len()
    &&& s.subrange(i, i + part.len()) == part
}

/// `part` stands somewhere in `s`.
pub open spec fn occurs_in(s: Seq<char>, part: Seq<char>) -> bool {
    exists|i: int| occurs_at(s, part, i)
}

/// `s` begins with `part`.
pub open spec fn begins_with(s: Seq<char>, part: Seq<char>) -> bool {
    occurs_at(s, part, 0)
}

/// `s` ends with `part`.
pub open spec fn ends_in(s: Seq<char>, part: Seq<char>) -> bool {
    occurs_at(s, part, s.len() - part.len())
}

/// The order of texts by their first different character; a proper beginning of a
/// text comes before it.
pub open spec fn text_less(a: Seq<char>, b: Seq<char>) -> bool
    decreases a.len(),
{
    if b.len() == 0 {
        false
    } else if a.len() == 0 {
        true
    } else if a[0] == b[0] {
        text_less(a.skip(1), b.skip(1))
    } else {
        a[0] < b[0]
    }
}

/// The White_Space property of Unicode.
pub open spec fn is_white_space(c: char) -> bool {
    ||| '\u{9}' <= c <= '\u{d}'
    ||| c == ' '
    ||| c == '\u{85}'
    ||| c == '\u{a0}'
    ||| c == '\u{1680}'
    ||| '\u{2000}' <= c <= '\u{200a}'
    ||| c == '\u{2028}'
    ||| c == '\u{2029}'
    ||| c == '\u{202f}'
    ||| c == '\u{205f}'
    ||| c == '\u{3000}'
}

/// `s` without the white space at its beginning.
pub open spec fn trim_start_text(s: Seq<char>) -> Seq<char>
    decreases s.len(),
{
    if s.len() > 0 && is_white_space(s.first()) {
        trim_start_text(s.skip(1))
    } else {
        s
    }
}

/// `s` without the white space at its end.
pub open spec fn trim_end_text(s: Seq<char>) -> Seq<char>
    decreases s.len(),
{
    if s.len() > 0 && is_white_space(s.last()) {
        trim_end_text(s.drop_last())
    } else {
        s
    }
}

/// `s` without the white space at either end.
pub open spec fn trim_text(s: Seq<char>) -> Seq<char> {
    trim_end_text(trim_start_text(s))
}

/// `s` without `part` at its beginning, or `s` itself where it does not begin so.
pub open spec fn without_prefix_text(s: Seq<char>, part: Seq<char>) -> Seq<char> {
    if begins_with(s, part) {
        s.skip(part.len() as int)
    } else {
        s
    }
}

/// `s` with `to` in the place of each `from`.
pub open spec fn replaced(s: Seq<char>, from: char, to: char) -> Seq<char> {
    Seq::new(
        s.len(),
        |i: int|
            if s[i] == from {
                to
            } else {
                s[i]
            },
    )
}

/// The texts one after the other.
pub open spec fn concat(parts: Seq<Seq<char>>) -> Seq<char>
    decreases parts.len(),
{
    if parts.len() == 0 {
        Seq::empty()
    } else {
        concat(parts.drop_last()) + parts.last()
    }
}

/// The texts one after the other, with `separator` between each two.
pub open spec fn joined(parts: Seq<Seq<char>>, separator: Seq<char>) -> Seq<char> {
    concat(
        Seq::new(
            parts.len(),
            |i: int|
                if i == 0 {
                    parts[i]
                } else {
                    separator + parts[i]
                },
        ),
    )
}

/// The characters of each text of a list.
pub open spec fn texts(list: Seq<String>) -> Seq<Seq<char>> {
    Seq::new(list.len(), |i: int| list[i]@)
}

/// The decimal digit of value `d`.
pub open spec fn digit(d: int) -> char {
    (48 + d) as char
}

/// `n` in decimal digits, without leading zeros.
pub open spec fn decimal_text(n: nat) -> Seq<char>
    decreases n,
{
    if n < 10 {
        seq![digit(n as int)]
    } else {
        decimal_text(n / 10).push(digit((n % 10) as int))
    }
}

/// `n` in decimal digits, after a minus sign where it is negative.
pub open spec fn signed_decimal_text(n: int) -> Seq<char> {
    if n < 0 {
        seq!['-'] + decimal_text((-n) as nat)
    } else {
        decimal_text(n as nat)
    }
}

/// The characters of `s`, in order.
pub fn chars_of(s: &str) -> (r: Vec<char>)
    ensures
        r@ == s@,
{
    let mut r: Vec<char> = Vec::new();
    for c in it: s.chars()
        invariant
            it.seq() == s@,
            r@ == s@.take(it.index()),
    {
        r.push(c);
    }
    r
}

/// The text made of the characters of `v` from `from` up to `to`.
pub fn text_of(v: &Vec<char>, from: usize, to: usize) -> (r: String)
    requires
        from <= to <= v@.len(),
    ensures
        r@ == v@.subrange(from as int, to as int),
{
    let mut r = String::new();
    let mut i: usize = from;
    while i < to
        invariant
            from <= i <= to <= v@.len(),
            r@ == v@.subrange(from as int, i as int),
        decreases to - i,
    {
        r.push(v[i]);
        i += 1;
    }
    r
}

/// Whether `part` stands in `s` at `at`.
fn matches_at(s: &Vec<char>, part: &Vec<char>, at: usize) -> (r: bool)
    requires
        at + part@.len() <= s@.len(),
    ensures
        r == occurs_at(s@, part@, at as int),
{
    let n: usize = s.len();
    let mut i: usize = 0;
    while i < part.len()
        invariant
            at + part@.len() <= n == s@.len(),
            i <= part@.len(),
            forall|j: int| 0 <= j < i ==> s@[at + j] == part@[j],
        decreases part@.len() - i,
    {
        if s[at + i] != part[i] {
            assert(s@.subrange(at as int, at + part@.len())[i as int] != part@[i as int]);
            return false;
        }
        i += 1;
    }
    assert(s@.subrange(at as int, at + part@.len()) =~= part@);
    true
}

/// Whether the two texts have the same characters.
pub fn same_text(a: &str, b: &str) -> (r: bool)
    ensures
        r == (a@ == b@),
{
    let x = chars_of(a);
    let y = chars_of(b);
    if x.len() != y.len() {
        return false;
    }
    let r = matches_at(&x, &y, 0);
    assert(x@.subrange(0, y@.len() as int) =~= x@);
    r
}

/// Whether `s` ends with `part`.
pub fn ends_with(s: &str, part: &str) -> (r: bool)
    ensures
        r == ends_in(s@, part@),
{
    let x = chars_of(s);
    let y = chars_of(part);
    y.len() <= x.len() && matches_at(&x, &y, x.len() - y.len())
}

/// Whether `part` stands somewhere in `s`.
pub fn contains(s: &str, part: &str) -> (r: bool)
    ensures
        r == occurs_in(s@, part@),
{
    let x = chars_of(s);
    let y = chars_of(part);
    if y.len() > x.len() {
        return false;
    }
    let last: usize = x.len() - y.len();
    let mut i: usize = 0;
    while i <= last
        invariant
            x@ == s@,
            y@ == part@,
            last + y@.len() == x@.len(),
            i <= last + 1,
            forall|j: int| 0 <= j < i ==> !occurs_at(s@, part@, j),
        decreases last + 1 - i,
    {
        if matches_at(&x, &y, i) {
            return true;
        }
        if i == last {
            return false;
        }
        i += 1;
    }
    false
}

/// Whether `a` comes before `b` in the order of texts.
pub fn comes_before(a: &str, b: &str) -> (r: bool)
    ensures
        r == text_less(a@, b@),
{
    let x = chars_of(a);
    let y = chars_of(b);
    let mut i: usize = 0;
    assert(x@.skip(0) =~= x@ && y@.skip(0) =~= y@);
    while i < x.len() && i < y.len() && x[i] == y[i]
        invariant
            x@ == a@,
            y@ == b@,
            i <= x@.len(),
            i <= y@.len(),
            text_less(a@, b@) == text_less(x@.skip(i as int), y@.skip(i as int)),
        decreases x@.len() - i,
    {
        assert(x@.skip(i as int).skip(1) =~= x@.skip(i + 1));
        assert(y@.skip(i as int).skip(1) =~= y@.skip(i + 1));
        i += 1;
    }
    if i >= y.len() {
        false
    } else if i >= x.len() {
        true
    } else {
        x[i] < y[i]
    }
}

/// Whether `c` is white space.
fn white_space(c: char) -> (r: bool)
    ensures
        r == is_white_space(c),
{
    ('\u{9}' <= c && c <= '\u{d}') || c == ' ' || c == '\u{85}' || c == '\u{a0}' || c
        == '\u{1680}' || ('\u{2000}' <= c && c <= '\u{200a}') || c == '\u{2028}' || c
        == '\u{2029}' || c == '\u{202f}' || c == '\u{205f}' || c == '\u{3000}'
}

/// `s` without the white space at either end.
pub fn trim(s: &str) -> (r: String)
    ensures
        r@ == trim_text(s@),
{
    let v = chars_of(s);
    let mut from: usize = 0;
    assert(v@.skip(0) =~= v@);
    while from < v.len() && white_space(v[from])
        invariant
            v@ == s@,
            from <= v@.len(),
            trim_start_text(s@) == trim_start_text(v@.skip(from as int)),
        decreases v@.len() - from,
    {
        assert(v@.skip(from as int).skip(1) =~= v@.skip(from + 1));
        from += 1;
    }
    let ghost rest = v@.skip(from as int);
    assert(trim_start_text(s@) == rest);
    let mut to: usize = v.len();
    assert(v@.subrange(from as int, to as int) =~= rest);
    while from < to && white_space(v[to - 1])
        invariant
            from <= to <= v@.len(),
            trim_end_text(rest) == trim_end_text(v@.subrange(from as int, to as int)),
        decreases to,
    {
        assert(v@.subrange(from as int, to as int).drop_last() =~= v@.subrange(
            from as int,
            to - 1,
        ));
        to -= 1;
    }
    text_of(&v, from, to)
}

/// `s` without `part` at its beginning, or `s` itself where it does not begin so.
pub fn without_prefix(s: &str, part: &str) -> (r: String)
    ensures
        r@ == without_prefix_text(s@, part@),
{
    let v = chars_of(s);
    let p = chars_of(part);
    if p.len() <= v.len() && matches_at(&v, &p, 0) {
        text_of(&v, p.len(), v.len())
    } else {
        s.to_owned()
    }
}

/// `s` with `to` in the place of each `from`.
pub fn replace(s: &str, from: char, to: char) -> (r: String)
    ensures
        r@ == replaced(s@, from, to),
{
    let mut r = String::new();
    for c in it: s.chars()
        invariant
            it.seq() == s@,
            r@ == replaced(s@, from, to).take(it.index()),
    {
        if c == from {
            r.push(to);
        } else {
            r.push(c);
        }
    }
    r
}

/// The texts of `parts` with `separator` between each two.
pub fn join(parts: &Vec<String>, separator: &str) -> (r: String)
    ensures
        r@ == joined(texts(parts@), separator@),
{
    let ghost pieces = Seq::new(
        parts@.len(),
        |i: int|
            if i == 0 {
                texts(parts@)[i]
            } else {
                separator@ + texts(parts@)[i]
            },
    );
    let mut r = String::new();
    let mut i: usize = 0;
    while i < parts.len()
        invariant
            i <= parts@.len(),
            pieces.len() == parts@.len(),
            forall|j: int|
                0 <= j < parts@.len() ==> #[trigger] pieces[j] == if j == 0 {
                    parts@[j]@
                } else {
                    separator@ + parts@[j]@
                },
            r@ == concat(pieces.take(i as int)),
        decreases parts@.len() - i,
    {
        if i > 0 {
            r.append(separator);
        }
        r.append(parts[i].as_str());
        assert(pieces.take(i + 1).drop_last() =~= pieces.take(i as int));
        assert(pieces.take(i + 1).last() == pieces[i as int]);
        i += 1;
    }
    assert(pieces.take(i as int) =~= pieces);
    r
}

/// The decimal digit of value `d`.
fn digit_of(d: u64) -> (r: char)
    requires
        d < 10,
    ensures
        r == digit(d as int),
{
    match d {
        0 => '0',
        1 => '1',
        2 => '2',
        3 => '3',
        4 => '4',
        5 => '5',
        6 => '6',
        7 => '7',
        8 => '8',
        _ => '9',
    }
}

/// `n` in decimal digits.
pub fn decimal(n: u64) -> (r: String)
    ensures
        r@ == decimal_text(n as nat),
    decreases n,
{
    if n < 10 {
        let mut r = String::new();
        r.push(digit_of(n));
        r
    } else {
        let mut r = decimal(n / 10);
        r.push(digit_of(n % 10));
        r
    }
}

/// `n` in decimal digits, after a minus sign where it is negative.
pub fn signed_decimal(n: i64) -> (r: String)
    ensures
        r@ == signed_decimal_text(n as int),
{
    if n < 0 {
        let mut r = String::new();
        r.push('-');
        let magnitude: u64 = if n == i64::MIN {
            0x8000_0000_0000_0000u64
        } else {
            (-n) as u64
        };
        let digits = decimal(magnitude);
        r.append(digits.as_str());
        r
    } else {
        decimal(n as u64)
    }
}

/// No text comes before itself.
pub proof fn text_less_irreflexive(a: Seq<char>)
    ensures
        !text_less(a, a),
    decreases a.len(),
{
    if a.len() > 0 {
        text_less_irreflexive(a.skip(1));
    }
}

/// The order of texts is transitive.
pub proof fn text_less_transitive(a: Seq<char>, b: Seq<char>, c: Seq<char>)
    requires
        text_less(a, b),
        text_less(b, c),
    ensures
        text_less(a, c),
    decreases a.len(),
{
    if a.len() > 0 && a[0] == b[0] && b[0] == c[0] {
        text_less_transitive(a.skip(1), b.skip(1), c.skip(1));
    }
}

/// Of two different texts one comes before the other.
pub proof fn text_less_total(a: Seq<char>, b: Seq<char>)
    requires
        a != b,
    ensures
        text_less(a, b) || text_less(b, a),
    decreases a.len(),
{
    if a.len() > 0 && b.len() > 0 && a[0] == b[0] {
        if a.skip(1) == b.skip(1) {
            assert(a =~= seq![a[0]] + a.skip(1));
            assert(b =~= seq![b[0]] + b.skip(1));
        }
        text_less_total(a.skip(1), b.skip(1));
    } else if a.len() == 0 && b.len() == 0 {
        assert(a =~= b);
    }
}

/// A text stands in another exactly where the other is made of something before it, the text
/// itself, and something after it.
pub proof fn occurrence_is_a_middle(s: Seq<char>, part: Seq<char>)
    ensures
        occurs_in(s, part) <==> exists|before: Seq<char>, after: Seq<char>|
            s == #[trigger] (before + part + after),
{
    if occurs_in(s, part) {
        let i = choose|i: int| occurs_at(s, part, i);
        assert(s =~= s.take(i) + part + s.skip(i + part.len())) by {
            assert forall|j: int| i <= j < i + part.len() implies s[j] == part[j - i] by {
                assert(s.subrange(i, i + part.len())[j - i] == s[j]);
            }
        }
    }
    if exists|before: Seq<char>, after: Seq<char>| s == #[trigger] (before + part + after) {
        let (before, after) = choose|before: Seq<char>, after: Seq<char>|
            s == #[trigger] (before + part + after);
        middle_occurs(before, part, after);
    }
}

/// What stands between two texts stands in the whole.
pub proof fn middle_occurs(before: Seq<char>, part: Seq<char>, after: Seq<char>)
    ensures
        occurs_in(before + part + after, part),
{
    let s = before + part + after;
    assert(s.subrange(before.len() as int, (before.len() + part.len()) as int) =~= part);
    assert(occurs_at(s, part, before.len() as int));
}

/// A text ends with another exactly where it is made of something and the other.
pub proof fn ending_is_a_tail(s: Seq<char>, part: Seq<char>)
    ensures
        ends_in(s, part) <==> exists|before: Seq<char>| s == #[trigger] (before + part),
{
    if ends_in(s, part) {
        let n = s.len() - part.len();
        assert(s =~= s.take(n) + part) by {
            assert forall|j: int| n <= j < s.len() implies s[j] == part[j - n] by {
                assert(s.subrange(n, n + part.len())[j - n] == s[j]);
            }
        }
    }
    if exists|before: Seq<char>| s == #[trigger] (before + part) {
        let before = choose|before: Seq<char>| s == #[trigger] (before + part);
        tail_ends(before, part);
    }
}

/// A text ends with what was put at its end.
pub proof fn tail_ends(before: Seq<char>, part: Seq<char>)
    ensures
        ends_in(before + part, part),
{
    let s = before + part;
    assert(s.subrange(s.len() - part.len(), s.len() as int) =~= part);
}

/// A text begins with another exactly where it is made of the other and something.
pub proof fn beginning_is_a_head(s: Seq<char>, part: Seq<char>)
    ensures
        begins_with(s, part) <==> exists|after: Seq<char>| s == #[trigger] (part + after),
{
    if begins_with(s, part) {
        assert(s =~= part + s.skip(part.len() as int)) by {
            assert forall|j: int| 0 <= j < part.len() implies s[j] == part[j] by {
                assert(s.subrange(0, part.len() as int)[j] == s[j]);
            }
        }
    }
    if exists|after: Seq<char>| s == #[trigger] (part + after) {
        let after = choose|after: Seq<char>| s == #[trigger] (part + after);
        assert(s.subrange(0, part.len() as int) =~= part);
    }
}

/// What is left of a text without a beginning that it has is what was put behind it; a text that
/// does not begin so is left as it is.
pub proof fn prefix_is_taken_off(s: Seq<char>, part: Seq<char>, rest: Seq<char>)
    ensures
        without_prefix_text(part + rest, part) == rest,
        (forall|after: Seq<char>| s != #[trigger] (part + after)) ==> without_prefix_text(s, part)
            == s,
{
    let whole = part + rest;
    assert(whole == part + rest);
    beginning_is_a_head(whole, part);
    assert(whole.skip(part.len() as int) =~= rest);
    beginning_is_a_head(s, part);
}

/// The texts have the same characters up to `i`, where the first is at its end and the other is
/// not, or has the character of the smaller number.
pub open spec fn parts_at(a: Seq<char>, b: Seq<char>, i: int) -> bool {
    &&& 0 <= i <= a.len()
    &&& i < b.len()
    &&& forall|j: int| 0 <= j < i ==> a[j] == #[trigger] b[j]
    &&& i == a.len() || (a[i] as int) < (b[i] as int)
}

/// One text comes before another exactly where, after what both begin with, it is at its end and
/// the other is not, or has a character of a smaller number.
pub proof fn order_is_by_first_difference(a: Seq<char>, b: Seq<char>)
    ensures
        text_less(a, b) <==> exists|i: int| parts_at(a, b, i),
    decreases a.len(),
{
    if a.len() > 0 && b.len() > 0 && a[0] == b[0] {
        let x = a.skip(1);
        let y = b.skip(1);
        order_is_by_first_difference(x, y);
        if text_less(a, b) {
            let i = choose|i: int| parts_at(x, y, i);
            assert forall|j: int| 0 <= j < i + 1 implies a[j] == #[trigger] b[j] by {
                if j > 0 {
                    assert(x[j - 1] == y[j - 1]);
                }
            }
            assert(parts_at(a, b, i + 1));
        }
        if exists|i: int| parts_at(a, b, i) {
            let i = choose|i: int| parts_at(a, b, i);
            assert forall|j: int| 0 <= j < i - 1 implies x[j] == #[trigger] y[j] by {
                assert(a[j + 1] == b[j + 1]);
            }
            assert(parts_at(x, y, i - 1));
        }
    } else {
        if text_less(a, b) {
            assert(parts_at(a, b, 0));
        }
        if exists|i: int| parts_at(a, b, i) {
            let i = choose|i: int| parts_at(a, b, i);
            if i > 0 {
                assert(a[0] == b[0]);
            }
        }
    }
}

/// Which characters are white space, by their numbers.
pub proof fn white_space_by_number(c: char)
    ensures
        is_white_space(c) <==> {
            let n = c as u32;
            ||| n == 9 || n == 10 || n == 11 || n == 12 || n == 13
            ||| n == 32 || n == 133 || n == 160 || n == 5760
            ||| 8192 <= n <= 8202
            ||| n == 8232 || n == 8233 || n == 8239 || n == 8287 || n == 12288
        },
{
}

proof fn start_is_trimmed(s: Seq<char>) -> (n: int)
    ensures
        0 <= n <= s.len(),
        trim_start_text(s) == s.skip(n),
        forall|i: int| 0 <= i < n ==> is_white_space(#[trigger] s[i]),
        n < s.len() ==> !is_white_space(s[n]),
    decreases s.len(),
{
    if s.len() > 0 && is_white_space(s.first()) {
        let m = start_is_trimmed(s.skip(1));
        assert(s.skip(1).skip(m) =~= s.skip(m + 1));
        assert forall|i: int| 0 <= i < m + 1 implies is_white_space(#[trigger] s[i]) by {
            if i > 0 {
                assert(s.skip(1)[i - 1] == s[i]);
            }
        }
        m + 1
    } else {
        assert(s.skip(0) =~= s);
        0
    }
}

proof fn end_is_trimmed(s: Seq<char>) -> (n: int)
    ensures
        0 <= n <= s.len(),
        trim_end_text(s) == s.take(n),
        forall|i: int| n <= i < s.len() ==> is_white_space(#[trigger] s[i]),
        n > 0 ==> !is_white_space(s[n - 1]),
    decreases s.len(),
{
    if s.len() > 0 && is_white_space(s.last()) {
        let m = end_is_trimmed(s.drop_last());
        assert(s.drop_last().take(m) =~= s.take(m));
        assert forall|i: int| m <= i < s.len() implies is_white_space(#[trigger] s[i]) by {
            if i < s.len() - 1 {
                assert(s.drop_last()[i] == s[i]);
            }
        }
        m
    } else {
        assert(s.take(s.len() as int) =~= s);
        s.len() as int
    }
}

/// A text that neither begins nor ends with white space is what is left of it, whatever white
/// space stands before and after it.
pub proof fn white_space_around_is_trimmed(
    before: Seq<char>,
    inner: Seq<char>,
    after: Seq<char>,
)
    requires
        forall|i: int| 0 <= i < before.len() ==> is_white_space(#[trigger] before[i]),
        forall|i: int| 0 <= i < after.len() ==> is_white_space(#[trigger] after[i]),
        inner.len() > 0 ==> !is_white_space(inner[0]) && !is_white_space(inner[inner.len() - 1]),
    ensures
        trim_text(before + inner + after) == inner,
{
    let s = before + inner + after;
    let n = start_is_trimmed(s);
    let rest = s.skip(n);
    let m = end_is_trimmed(rest);
    if inner.len() > 0 {
        if n > before.len() {
            assert(is_white_space(s[before.len() as int]));
        } else if n < before.len() {
            assert(is_white_space(before[n]));
        }
        assert(rest =~= inner + after);
        if m > inner.len() {
            assert(rest[m - 1] == after[m - 1 - inner.len()]);
        } else if m < inner.len() {
            assert(is_white_space(rest[inner.len() - 1]));
        }
        assert(rest.take(m) =~= inner);
    } else {
        assert(s =~= before + after);
        if n < s.len() {
            if n < before.len() {
                assert(is_white_space(before[n]));
            } else {
                assert(is_white_space(after[n - before.len()]));
            }
        }
        assert(rest.take(m) =~= inner);
    }
}

/// Replacing a character leaves the length, puts the new one in its places, and leaves the others.
pub proof fn one_character_is_replaced(s: Seq<char>, from: char, to: char)
    ensures
        replaced(s, from, to).len() == s.len(),
        forall|i: int|
            0 <= i < s.len() && s[i] == from ==> #[trigger] replaced(s, from, to)[i] == to,
        forall|i: int|
            0 <= i < s.len() && s[i] != from ==> #[trigger] replaced(s, from, to)[i] == s[i],
{
}

/// Texts one after the other: of none, of one, and of one list after another.
pub proof fn texts_follow_each_other(a: Seq<Seq<char>>, b: Seq<Seq<char>>, one: Seq<char>)
    ensures
        concat(Seq::empty()) == Seq::<char>::empty(),
        concat(seq![one]) == one,
        concat(a + b) == concat(a) + concat(b),
    decreases b.len(),
{
    reveal_with_fuel(concat, 2);
    assert(seq![one].drop_last() =~= Seq::empty());
    assert(concat(seq![one]) =~= one);
    if b.len() == 0 {
        assert(a + b =~= a);
        assert(concat(a) + concat(b) =~= concat(a));
    } else {
        texts_follow_each_other(a, b.drop_last(), one);
        assert((a + b).drop_last() =~= a + b.drop_last());
        assert((a + b).last() == b.last());
        assert(concat(a + b) =~= concat(a) + concat(b));
    }
}

/// Each text of a list stands in the whole, behind those before it.
pub proof fn each_text_stands_in_the_whole(parts: Seq<Seq<char>>, i: int)
    requires
        0 <= i < parts.len(),
    ensures
        concat(parts) == concat(parts.take(i)) + parts[i] + concat(parts.skip(i + 1)),
{
    assert(parts =~= parts.take(i) + seq![parts[i]] + parts.skip(i + 1));
    texts_follow_each_other(parts.take(i) + seq![parts[i]], parts.skip(i + 1), parts[i]);
    texts_follow_each_other(parts.take(i), seq![parts[i]], parts[i]);
}

/// Joined texts: of none, of one, and of one more, with the separator before it.
pub proof fn joined_texts_are_separated(
    parts: Seq<Seq<char>>,
    separator: Seq<char>,
    last: Seq<char>,
)
    ensures
        joined(Seq::empty(), separator) == Seq::<char>::empty(),
        joined(seq![last], separator) == last,
        parts.len() > 0 ==> joined(parts.push(last), separator) == joined(parts, separator)
            + separator + last,
{
    let piece = |parts: Seq<Seq<char>>|
        Seq::new(
            parts.len(),
            |i: int|
                if i == 0 {
                    parts[i]
                } else {
                    separator + parts[i]
                },
        );
    assert(piece(Seq::empty()) =~= Seq::empty());
    assert(piece(seq![last]) =~= seq![last]);
    texts_follow_each_other(Seq::empty(), Seq::empty(), last);
    if parts.len() > 0 {
        assert(piece(parts.push(last)).drop_last() =~= piece(parts));
        assert(joined(parts.push(last), separator) =~= joined(parts, separator) + separator + last);
    }
}

/// The number that decimal digits stand for, the first of them the highest.
pub open spec fn decimal_value(digits: Seq<char>) -> int
    decreases digits.len(),
{
    if digits.len() == 0 {
        0
    } else {
        10 * decimal_value(digits.drop_last()) + (digits.last() as int - '0' as int)
    }
}

/// Decimal digits stand for the number that they were written for, they are digits, and the first
/// of several is not zero.
pub proof fn decimal_digits_give_the_number(n: nat)
    ensures
        decimal_value(decimal_text(n)) == n,
        decimal_text(n).len() > 0,
        forall|i: int| 0 <= i < decimal_text(n).len() ==> '0' <= #[trigger] decimal_text(n)[i] <= '9',
        decimal_text(n).len() > 1 ==> decimal_text(n)[0] != '0',
        n > 0 ==> decimal_text(n)[0] != '0',
    decreases n,
{
    reveal_with_fuel(decimal_value, 2);
    if n < 10 {
        assert(decimal_text(n).drop_last() =~= Seq::empty());
    } else {
        decimal_digits_give_the_number(n / 10);
        assert(decimal_text(n).drop_last() =~= decimal_text(n / 10));
    }
}

/// A negative number is written as a minus sign and the digits of its amount, any other as its
/// digits.
pub proof fn signed_digits_give_the_number(n: int)
    ensures
        n >= 0 ==> signed_decimal_text(n) == decimal_text(n as nat),
        n < 0 ==> signed_decimal_text(n) == seq!['-'] + decimal_text((0 - n) as nat),
{
}

/// The characters of a list of texts are those of each, in its place.
pub proof fn texts_keep_their_places(list: Seq<String>)
    ensures
        texts(list).len() == list.len(),
        forall|i: int| 0 <= i < list.len() ==> #[trigger] texts(list)[i] == list[i]@,
{
}

} // verus!
