//! Text primitives over Unicode scalar values.
//!
//! Every function here works on the character sequence of a string, so that
//! contracts elsewhere can speak about `Seq<char>` alone.

use vstd::prelude::*;

verus! {

/// The characters with the Unicode property White_Space.
pub open spec fn is_white_space(c: char) -> bool {
    let n = c as u32;
    ||| 9 <= n <= 13
    ||| n == 0x20 || n == 0x85 || n == 0xa0 || n == 0x1680
    ||| 0x2000 <= n <= 0x200a
    ||| n == 0x2028 || n == 0x2029 || n == 0x202f || n == 0x205f || n == 0x3000
}

/// The lowercase form of a text, as `str::to_lowercase` computes it.
pub uninterp spec fn lowercased(s: Seq<char>) -> Seq<char>;

/// Lowercase of one ASCII character; other characters are unchanged.
pub open spec fn ascii_lower(c: char) -> char {
    if 'A' <= c && c <= 'Z' {
        ((c as u32) + 32) as char
    } else {
        c
    }
}

/// `char::is_whitespace` holds exactly of the characters with the Unicode property
/// White_Space.
pub assume_specification[ char::is_whitespace ](c: char) -> (r: bool)
    ensures
        r == is_white_space(c),
;

/// `str::to_lowercase`: named by [`lowercased`]. On ASCII text it maps the
/// letters `A` to `Z` one by one and keeps everything else.
pub assume_specification[ str::to_lowercase ](s: &str) -> (r: String)
    ensures
        r@ == lowercased(s@),
        (forall|i: int| 0 <= i < s@.len() ==> (#[trigger] s@[i] as u32) < 128)
            ==> r@ == s@.map_values(|c: char| ascii_lower(c)),
;

/// `String::push` appends one character.
pub assume_specification[ String::push ](s: &mut String, c: char)
    ensures
        final(s)@ == old(s)@.push(c),
;

/// The characters of a list of strings.
pub open spec fn texts(v: Seq<String>) -> Seq<Seq<char>> {
    v.map_values(|s: String| s@)
}

/// `part` occurs somewhere in `s`.
pub open spec fn has_part(s: Seq<char>, part: Seq<char>) -> bool {
    exists|i: int|
        0 <= i && i + part.len() <= s.len() && #[trigger] s.subrange(i, i + part.len()) == part
}

/// `s` without its leading whitespace.
pub open spec fn trim_front(s: Seq<char>) -> Seq<char>
    decreases s.len(),
{
    if s.len() > 0 && is_white_space(s[0]) {
        trim_front(s.drop_first())
    } else {
        s
    }
}

/// `s` without its trailing whitespace.
pub open spec fn trim_back(s: Seq<char>) -> Seq<char>
    decreases s.len(),
{
    if s.len() > 0 && is_white_space(s.last()) {
        trim_back(s.drop_last())
    } else {
        s
    }
}

/// `s` without leading and trailing whitespace.
pub open spec fn trimmed(s: Seq<char>) -> Seq<char> {
    trim_back(trim_front(s))
}

/// The decimal digit `d`.
pub open spec fn digit_char(d: nat) -> char {
    (48 + d) as char
}

/// Decimal notation of a natural number, without leading zeros.
pub open spec fn decimal(n: nat) -> Seq<char>
    decreases n,
{
    if n < 10 {
        seq![digit_char(n)]
    } else {
        decimal(n / 10).push(digit_char(n % 10))
    }
}

/// Decimal notation of an integer, with a minus sign where it is negative.
pub open spec fn signed_decimal(n: int) -> Seq<char> {
    if n < 0 {
        seq!['-'] + decimal((-n) as nat)
    } else {
        decimal(n as nat)
    }
}

pub open spec fn is_digit(c: char) -> bool {
    '0' <= c && c <= '9'
}

pub open spec fn all_digits(s: Seq<char>) -> bool {
    forall|i: int| 0 <= i < s.len() ==> is_digit(#[trigger] s[i])
}

/// Value of a sequence of decimal digits.
pub open spec fn digits_value(s: Seq<char>) -> nat
    decreases s.len(),
{
    if s.len() == 0 {
        0
    } else {
        digits_value(s.drop_last()) * 10 + (s.last() as nat - 48) as nat
    }
}

/// What is left of a number's text once an optional plus sign is taken away.
pub open spec fn without_plus(s: Seq<char>) -> Seq<char> {
    if s.len() > 0 && s[0] == '+' {
        s.drop_first()
    } else {
        s
    }
}

/// The unsigned number that `s` denotes, if it denotes one not above `max`.
pub open spec fn unsigned_value(s: Seq<char>, max: nat) -> Option<nat> {
    let digits = without_plus(s);
    if digits.len() > 0 && all_digits(digits) && digits_value(digits) <= max {
        Some(digits_value(digits))
    } else {
        None
    }
}

/// The pieces of `s` between occurrences of `sep`; never empty.
pub open spec fn split_on(s: Seq<char>, sep: char) -> Seq<Seq<char>>
    decreases s.len(),
{
    if s.len() == 0 {
        seq![Seq::empty()]
    } else {
        let before = split_on(s.drop_last(), sep);
        if s.last() == sep {
            before.push(Seq::empty())
        } else {
            before.drop_last().push(before.last().push(s.last()))
        }
    }
}

/// `s` with every occurrence of `c` replaced by `with`.
pub open spec fn replaced(s: Seq<char>, c: char, with: Seq<char>) -> Seq<char>
    decreases s.len(),
{
    if s.len() == 0 {
        Seq::empty()
    } else {
        replaced(s.drop_last(), c, with) + (if s.last() == c {
            with
        } else {
            seq![s.last()]
        })
    }
}

/// Replacing can be followed from the front as well.
pub proof fn lemma_replaced_front(s: Seq<char>, c: char, with: Seq<char>)
    requires
        s.len() > 0,
    ensures
        replaced(s, c, with) == (if s[0] == c {
            with
        } else {
            seq![s[0]]
        }) + replaced(s.drop_first(), c, with),
    decreases s.len(),
{
    let head = if s[0] == c {
        with
    } else {
        seq![s[0]]
    };
    let rest = s.drop_first();
    if s.len() == 1 {
        assert(s.drop_last() =~= Seq::empty());
        assert(rest =~= Seq::empty());
        assert(replaced(s.drop_last(), c, with) =~= Seq::empty());
        assert(replaced(s, c, with) =~= head + replaced(rest, c, with));
    } else {
        lemma_replaced_front(s.drop_last(), c, with);
        assert(s.drop_last().drop_first() =~= rest.drop_last());
        assert(replaced(s, c, with) =~= head + replaced(rest, c, with));
    }
}

/// The parts one after another, with `sep` between neighbours.
pub open spec fn joined(parts: Seq<Seq<char>>, sep: Seq<char>) -> Seq<char>
    decreases parts.len(),
{
    if parts.len() == 0 {
        Seq::empty()
    } else if parts.len() == 1 {
        parts[0]
    } else {
        joined(parts.drop_last(), sep) + sep + parts.last()
    }
}

/// `a` stands strictly before `b` in code point order.
pub open spec fn before(a: Seq<char>, b: Seq<char>) -> bool
    decreases a.len(),
{
    if b.len() == 0 {
        false
    } else if a.len() == 0 {
        true
    } else if a[0] == b[0] {
        before(a.drop_first(), b.drop_first())
    } else {
        a[0] < b[0]
    }
}

/// The characters of `s`.
pub fn chars_of(s: &str) -> (v: Vec<char>)
    ensures
        v@ == s@,
{
    let mut v: Vec<char> = Vec::new();
    for c in it: s.chars()
        invariant
            it.seq() == s@,
            v@ == it.seq().take(it.index() as int),
    {
        v.push(c);
    }
    v
}

/// The string with the characters `v[from..to]`.
pub fn text_of(v: &Vec<char>, from: usize, to: usize) -> (s: String)
    requires
        from <= to <= v@.len(),
    ensures
        s@ == v@.subrange(from as int, to as int),
{
    let mut s = String::new();
    let mut i: usize = from;
    while i < to
        invariant
            from <= i <= to <= v@.len(),
            s@ == v@.subrange(from as int, i as int),
        decreases to - i,
    {
        s.push(v[i]);
        i = i + 1;
    }
    s
}

/// Whether the characters of `b` stand in `a` from position `at` on.
fn stands_at(a: &Vec<char>, at: usize, b: &Vec<char>) -> (r: bool)
    ensures
        r == (at + b@.len() <= a@.len() && a@.subrange(at as int, at + b@.len()) == b@),
{
    if at > a.len() || b.len() > a.len() - at {
        return false;
    }
    let mut i: usize = 0;
    while i < b.len()
        invariant
            i <= b@.len(),
            at + b.len() <= a.len(),
            forall|j: int| 0 <= j < i ==> a@[at + j] == #[trigger] b@[j],
        decreases b.len() - i,
    {
        if a[at + i] != b[i] {
            assert(a@.subrange(at as int, at + b@.len())[i as int] != b@[i as int]);
            return false;
        }
        i = i + 1;
    }
    assert(a@.subrange(at as int, at + b@.len()) =~= b@);
    true
}

/// Whether `a` and `b` hold the same characters.
pub fn same(a: &str, b: &str) -> (r: bool)
    ensures
        r == (a@ == b@),
{
    let x = chars_of(a);
    let y = chars_of(b);
    if x.len() != y.len() {
        return false;
    }
    assert(x@.subrange(0, x@.len() as int) =~= x@);
    stands_at(&x, 0, &y)
}

/// `str::starts_with` on a text.
pub fn starts_with(s: &str, head: &str) -> (r: bool)
    ensures
        r == head@.is_prefix_of(s@),
{
    let a = chars_of(s);
    let b = chars_of(head);
    stands_at(&a, 0, &b)
}

/// `str::ends_with` on a text.
pub fn ends_with(s: &str, tail: &str) -> (r: bool)
    ensures
        r == tail@.is_suffix_of(s@),
{
    let a = chars_of(s);
    let b = chars_of(tail);
    if b.len() > a.len() {
        return false;
    }
    stands_at(&a, a.len() - b.len(), &b)
}

/// `str::contains` with a text.
pub fn contains(s: &str, part: &str) -> (r: bool)
    ensures
        r == has_part(s@, part@),
{
    let a = chars_of(s);
    let b = chars_of(part);
    if b.len() > a.len() {
        return false;
    }
    let mut i: usize = 0;
    while i <= a.len() - b.len()
        invariant
            i <= a@.len() - b@.len() + 1,
            b@.len() <= a@.len(),
            a@ == s@,
            b@ == part@,
            forall|j: int| 0 <= j < i ==> #[trigger] a@.subrange(j, j + b@.len()) != b@,
        decreases a.len() - b.len() + 1 - i,
    {
        if stands_at(&a, i, &b) {
            return true;
        }
        if i == a.len() - b.len() {
            return false;
        }
        i = i + 1;
    }
    false
}

/// `str::contains` with a character.
pub fn contains_char(s: &str, c: char) -> (r: bool)
    ensures
        r == s@.contains(c),
{
    let a = chars_of(s);
    let mut i: usize = 0;
    while i < a.len()
        invariant
            i <= a@.len(),
            a@ == s@,
            forall|j: int| 0 <= j < i ==> a@[j] != c,
        decreases a.len() - i,
    {
        if a[i] == c {
            return true;
        }
        i = i + 1;
    }
    false
}

/// `str::trim`: the text without leading and trailing whitespace.
pub fn trim(s: &str) -> (r: String)
    ensures
        r@ == trimmed(s@),
{
    let a = chars_of(s);
    let n = a.len();
    let mut i: usize = 0;
    assert(a@.subrange(0, n as int) =~= s@);
    while i < n && a[i].is_whitespace()
        invariant
            i <= n == a@.len(),
            trim_front(s@) == trim_front(a@.subrange(i as int, n as int)),
        decreases n - i,
    {
        proof {
            assert(a@.subrange(i as int, n as int).drop_first() =~= a@.subrange(i + 1, n as int));
        }
        i = i + 1;
    }
    let mut j: usize = n;
    while j > i && a[j - 1].is_whitespace()
        invariant
            i <= j <= n == a@.len(),
            trim_back(a@.subrange(i as int, n as int)) == trim_back(
                a@.subrange(i as int, j as int),
            ),
        decreases j,
    {
        proof {
            assert(a@.subrange(i as int, j as int).drop_last() =~= a@.subrange(i as int, j - 1));
        }
        j = j - 1;
    }
    text_of(&a, i, j)
}

/// Decimal digit `d` as a character.
fn digit_of(d: u64) -> (c: char)
    requires
        d < 10,
    ensures
        c == digit_char(d as nat),
{
    if d == 0 {
        '0'
    } else if d == 1 {
        '1'
    } else if d == 2 {
        '2'
    } else if d == 3 {
        '3'
    } else if d == 4 {
        '4'
    } else if d == 5 {
        '5'
    } else if d == 6 {
        '6'
    } else if d == 7 {
        '7'
    } else if d == 8 {
        '8'
    } else {
        '9'
    }
}

/// Decimal notation of `n`.
pub fn decimal_text(n: u64) -> (s: String)
    ensures
        s@ == decimal(n as nat),
    decreases n,
{
    if n < 10 {
        let mut s = String::new();
        s.push(digit_of(n));
        assert(s@ =~= decimal(n as nat));
        s
    } else {
        let mut s = decimal_text(n / 10);
        s.push(digit_of(n % 10));
        s
    }
}

/// Decimal notation of `n`, with its sign.
pub fn signed_decimal_text(n: i32) -> (s: String)
    ensures
        s@ == signed_decimal(n as int),
{
    if n < 0 {
        let mut s = String::new();
        s.push('-');
        let wide: i64 = -(n as i64);
        let digits = decimal_text(wide as u64);
        s.append(digits.as_str());
        assert(s@ =~= signed_decimal(n as int));
        s
    } else {
        decimal_text(n as u64)
    }
}

/// Reads an unsigned decimal number not above `max`, with an optional plus sign.
pub fn parse_unsigned(s: &str, max: u64) -> (r: Option<u64>)
    ensures
        match r {
            Some(n) => unsigned_value(s@, max as nat) == Some(n as nat),
            None => unsigned_value(s@, max as nat) is None,
        },
{
    let a = chars_of(s);
    let start: usize = if a.len() > 0 && a[0] == '+' {
        1
    } else {
        0
    };
    let ghost digits = without_plus(s@);
    assert(digits =~= a@.subrange(start as int, a@.len() as int));
    if start == a.len() {
        return None;
    }
    let mut value: u64 = 0;
    let mut i: usize = start;
    while i < a.len()
        invariant
            start <= i <= a@.len(),
            a@ == s@,
            digits == without_plus(s@),
            digits == a@.subrange(start as int, a@.len() as int),
            all_digits(digits.take(i - start)),
            value as nat == digits_value(digits.take(i - start)),
            value <= max,
        decreases a.len() - i,
    {
        let c = a[i];
        let ghost k = i - start;
        assert(digits[k] == c);
        if c < '0' || c > '9' {
            return None;
        }
        let d: u64 = (c as u64) - 48;
        assert(digits.take(k + 1).drop_last() =~= digits.take(k));
        assert(digits_value(digits.take(k + 1)) == value * 10 + d);
        let wide: u128 = (value as u128) * 10 + (d as u128);
        if wide > max as u128 {
            proof {
                lemma_digits_value_grows(digits, k + 1);
            }
            return None;
        }
        value = wide as u64;
        assert(all_digits(digits.take(k + 1))) by {
            assert forall|j: int| 0 <= j < k + 1 implies is_digit(
                #[trigger] digits.take(k + 1)[j],
            ) by {
                if j < k {
                    assert(is_digit(digits.take(k)[j]));
                }
            }
        }
        i = i + 1;
    }
    assert(digits.take(a.len() - start) =~= digits);
    Some(value)
}

/// A longer run of digits never has a smaller value than one of its prefixes.
proof fn lemma_digits_value_grows(s: Seq<char>, k: int)
    requires
        0 <= k <= s.len(),
    ensures
        digits_value(s.take(k)) <= digits_value(s),
    decreases s.len() - k,
{
    if k < s.len() {
        lemma_digits_value_grows(s, k + 1);
        assert(s.take(k + 1).drop_last() =~= s.take(k));
    } else {
        assert(s.take(k) =~= s);
    }
}

/// `str::split` on one character.
pub fn split(s: &str, sep: char) -> (parts: Vec<String>)
    ensures
        texts(parts@) == split_on(s@, sep),
        parts@.len() > 0,
{
    let a = chars_of(s);
    let mut parts: Vec<String> = Vec::new();
    let mut start: usize = 0;
    let mut i: usize = 0;
    assert(a@.take(0) =~= Seq::empty());
    assert(texts(parts@).push(a@.subrange(0, 0)) =~= split_on(a@.take(0), sep));
    while i < a.len()
        invariant
            start <= i <= a@.len(),
            a@ == s@,
            texts(parts@).push(a@.subrange(start as int, i as int)) == split_on(
                a@.take(i as int),
                sep,
            ),
        decreases a.len() - i,
    {
        let ghost p = texts(parts@);
        assert(a@.take(i + 1).drop_last() =~= a@.take(i as int));
        if a[i] == sep {
            parts.push(text_of(&a, start, i));
            assert(texts(parts@) =~= p.push(a@.subrange(start as int, i as int)));
            start = i + 1;
            assert(a@.subrange(start as int, i + 1) =~= Seq::empty());
        } else {
            assert(a@.subrange(start as int, i + 1) =~= a@.subrange(start as int, i as int).push(
                a@[i as int],
            ));
            assert(p.push(a@.subrange(start as int, i as int)).drop_last() =~= p);
        }
        i = i + 1;
    }
    let ghost p = texts(parts@);
    parts.push(text_of(&a, start, i));
    assert(texts(parts@) =~= p.push(a@.subrange(start as int, i as int)));
    assert(a@.take(i as int) =~= s@);
    parts
}

/// `str::replace` of one character.
pub fn replace_char(s: &str, c: char, with: &str) -> (r: String)
    ensures
        r@ == replaced(s@, c, with@),
{
    let a = chars_of(s);
    let mut r = String::new();
    let mut i: usize = 0;
    assert(a@.take(0) =~= Seq::empty());
    while i < a.len()
        invariant
            i <= a@.len(),
            a@ == s@,
            r@ == replaced(a@.take(i as int), c, with@),
        decreases a.len() - i,
    {
        assert(a@.take(i + 1).drop_last() =~= a@.take(i as int));
        let ghost done = r@;
        if a[i] == c {
            r.append(with);
        } else {
            r.push(a[i]);
            assert(r@ =~= done + seq![a@[i as int]]);
        }
        i = i + 1;
    }
    assert(a@.take(i as int) =~= s@);
    r
}

/// The parts one after another, with `sep` between neighbours.
pub fn join(parts: &Vec<String>, sep: &str) -> (r: String)
    ensures
        r@ == joined(texts(parts@), sep@),
{
    let mut r = String::new();
    let mut i: usize = 0;
    let ghost all = texts(parts@);
    while i < parts.len()
        invariant
            i <= parts@.len(),
            all == texts(parts@),
            r@ == joined(all.take(i as int), sep@),
        decreases parts.len() - i,
    {
        assert(all.take(i + 1).drop_last() =~= all.take(i as int));
        let ghost done = r@;
        if i > 0 {
            r.append(sep);
        }
        r.append(parts[i].as_str());
        assert(all.take(i + 1).last() == parts@[i as int]@);
        if i == 0 {
            assert(r@ =~= parts@[0]@);
        } else {
            assert(r@ =~= done + sep@ + parts@[i as int]@);
        }
        i = i + 1;
    }
    assert(all.take(i as int) =~= all);
    r
}

/// Whether `a` stands strictly before `b` in code point order, which is the
/// order of their UTF-8 bytes.
pub fn stands_before(a: &str, b: &str) -> (r: bool)
    ensures
        r == before(a@, b@),
{
    let x = chars_of(a);
    let y = chars_of(b);
    let mut i: usize = 0;
    assert(x@.skip(0) =~= x@);
    assert(y@.skip(0) =~= y@);
    while i < x.len() && i < y.len()
        invariant
            i <= x@.len(),
            i <= y@.len(),
            x@ == a@,
            y@ == b@,
            before(a@, b@) == before(x@.skip(i as int), y@.skip(i as int)),
        decreases x.len() - i,
    {
        if x[i] != y[i] {
            return x[i] < y[i];
        }
        assert(x@.skip(i as int).drop_first() =~= x@.skip(i + 1));
        assert(y@.skip(i as int).drop_first() =~= y@.skip(i + 1));
        i = i + 1;
    }
    i < y.len()
}

/// `a` followed by `b`.
pub fn glue2(a: &str, b: &str) -> (r: String)
    ensures
        r@ == a@ + b@,
{
    let mut r = a.to_owned();
    r.append(b);
    r
}

/// `a`, `b` and `c` in a row.
pub fn glue3(a: &str, b: &str, c: &str) -> (r: String)
    ensures
        r@ == a@ + b@ + c@,
{
    let mut r = a.to_owned();
    r.append(b);
    r.append(c);
    r
}

/// Four texts in a row.
pub fn glue4(a: &str, b: &str, c: &str, d: &str) -> (r: String)
    ensures
        r@ == a@ + b@ + c@ + d@,
{
    let mut r = glue3(a, b, c);
    r.append(d);
    r
}

/// Five texts in a row.
pub fn glue5(a: &str, b: &str, c: &str, d: &str, e: &str) -> (r: String)
    ensures
        r@ == a@ + b@ + c@ + d@ + e@,
{
    let mut r = glue4(a, b, c, d);
    r.append(e);
    r
}

/// A copy of a list of strings.
pub fn copy_texts(v: &Vec<String>) -> (r: Vec<String>)
    ensures
        texts(r@) == texts(v@),
{
    let mut r: Vec<String> = Vec::new();
    let mut i: usize = 0;
    while i < v.len()
        invariant
            i <= v@.len(),
            texts(r@) == texts(v@).take(i as int),
        decreases v.len() - i,
    {
        let ghost done = texts(r@);
        r.push(v[i].clone());
        assert(texts(r@) =~= done.push(v@[i as int]@));
        assert(texts(v@).take(i + 1) =~= texts(v@).take(i as int).push(v@[i as int]@));
        i = i + 1;
    }
    assert(texts(v@).take(i as int) =~= texts(v@));
    r
}

proof fn lemma_decimal_digits(n: nat)
    ensures
        decimal(n).len() > 0,
        all_digits(decimal(n)),
        digits_value(decimal(n)) == n,
    decreases n,
{
    let d = if n < 10 {
        n
    } else {
        n % 10
    };
    assert(digit_char(d) as nat == 48 + d);
    if n < 10 {
        assert(decimal(n).drop_last() =~= Seq::empty());
        assert(digits_value(decimal(n).drop_last()) == 0);
    } else {
        lemma_decimal_digits(n / 10);
        assert(decimal(n).drop_last() =~= decimal(n / 10));
    }
}

/// The decimal notation of a number reads back as the number.
pub proof fn law_decimal_reads_back(n: nat, max: nat)
    requires
        n <= max,
    ensures
        unsigned_value(decimal(n), max) == Some(n),
{
    lemma_decimal_digits(n);
    assert(is_digit(decimal(n)[0]));
}

/// The pieces of a text, put together again, are the text.
pub proof fn law_pieces_join_back(s: Seq<char>, sep: char)
    ensures
        split_on(s, sep).len() > 0,
        joined(split_on(s, sep), seq![sep]) == s,
    decreases s.len(),
{
    if s.len() == 0 {
        assert(joined(split_on(s, sep), seq![sep]) =~= s);
    } else {
        let rest = s.drop_last();
        law_pieces_join_back(rest, sep);
        let before = split_on(rest, sep);
        let pieces = split_on(s, sep);
        assert(s =~= rest.push(s.last()));
        if s.last() == sep {
            assert(pieces.drop_last() =~= before);
            assert(joined(pieces, seq![sep]) =~= s);
        } else {
            assert(pieces.drop_last() =~= before.drop_last());
            assert(joined(pieces, seq![sep]) =~= s);
        }
    }
}

/// A text without the separator is its only piece; and what stands before the first
/// separator is the first piece, followed by the pieces of the rest.
pub proof fn law_first_piece(head: Seq<char>, rest: Seq<char>, sep: char)
    requires
        !head.contains(sep),
    ensures
        split_on(head, sep) == seq![head],
        split_on(head + seq![sep] + rest, sep) == seq![head] + split_on(rest, sep),
    decreases head.len() + rest.len(),
{
    if head.len() == 0 {
        assert(head =~= Seq::empty());
    } else {
        let shorter = head.drop_last();
        assert(!shorter.contains(sep)) by {
            if shorter.contains(sep) {
                let i = choose|i: int| 0 <= i < shorter.len() && shorter[i] == sep;
                assert(head[i] == sep);
            }
        }
        assert(head.contains(head.last()));
        law_first_piece(shorter, Seq::empty(), sep);
        assert(seq![shorter].drop_last().push(shorter.push(head.last())) =~= seq![head]) by {
            assert(shorter.push(head.last()) =~= head);
        }
    }
    assert(split_on(head, sep) =~= seq![head]);
    let whole = head + seq![sep] + rest;
    if rest.len() == 0 {
        assert(whole.drop_last() =~= head);
        assert(split_on(whole, sep) =~= seq![head].push(Seq::empty()));
        assert(seq![head] + split_on(rest, sep) =~= seq![head].push(Seq::empty()));
    } else {
        let fewer = rest.drop_last();
        law_first_piece(head, fewer, sep);
        law_pieces_join_back(fewer, sep);
        assert(whole.drop_last() =~= head + seq![sep] + fewer);
        let before = split_on(fewer, sep);
        let all = seq![head] + before;
        assert(all.last() == before.last());
        assert(all.drop_last() =~= seq![head] + before.drop_last());
        assert(split_on(whole, sep) =~= seq![head] + split_on(rest, sep));
    }
}

/// Every character of `s` is white space.
pub open spec fn is_blank(s: Seq<char>) -> bool {
    forall|i: int| 0 <= i < s.len() ==> is_white_space(#[trigger] s[i])
}

/// Trimming takes away white space around a text and nothing else: a text that neither
/// begins nor ends with white space is what is left of it, whatever white space stands
/// around it.
pub proof fn law_trim_takes_white_space(front: Seq<char>, s: Seq<char>, back: Seq<char>)
    requires
        is_blank(front),
        is_blank(back),
        s.len() > 0 ==> !is_white_space(s[0]) && !is_white_space(s.last()),
    ensures
        trimmed(front + s + back) == s,
    decreases front.len() + back.len(),
{
    let whole = front + s + back;
    if front.len() > 0 {
        let rest = front.drop_first();
        assert(is_blank(rest)) by {
            assert forall|i: int| 0 <= i < rest.len() implies is_white_space(#[trigger] rest[i]) by {
                assert(rest[i] == front[i + 1]);
            }
        }
        law_trim_takes_white_space(rest, s, back);
        assert(whole[0] == front[0]);
        assert(whole.drop_first() =~= rest + s + back);
    } else if s.len() > 0 {
        assert(whole =~= s + back);
        assert(trim_front(whole) == whole);
        lemma_trim_back(s, back);
    } else {
        assert(whole =~= back);
        assert(s =~= Seq::empty());
        lemma_blank_is_trimmed(back);
    }
}

proof fn lemma_trim_back(s: Seq<char>, back: Seq<char>)
    requires
        is_blank(back),
        s.len() > 0,
        !is_white_space(s.last()),
    ensures
        trim_back(s + back) == s,
    decreases back.len(),
{
    if back.len() > 0 {
        let rest = back.drop_last();
        assert(is_blank(rest)) by {
            assert forall|i: int| 0 <= i < rest.len() implies is_white_space(#[trigger] rest[i]) by {
                assert(rest[i] == back[i]);
            }
        }
        assert((s + back).last() == back[back.len() - 1]);
        assert((s + back).drop_last() =~= s + rest);
        lemma_trim_back(s, rest);
    } else {
        assert(s + back =~= s);
    }
}

proof fn lemma_blank_is_trimmed(s: Seq<char>)
    requires
        is_blank(s),
    ensures
        trimmed(s) == Seq::<char>::empty(),
    decreases s.len(),
{
    if s.len() > 0 {
        let rest = s.drop_first();
        assert(is_blank(rest)) by {
            assert forall|i: int| 0 <= i < rest.len() implies is_white_space(#[trigger] rest[i]) by {
                assert(rest[i] == s[i + 1]);
            }
        }
        lemma_blank_is_trimmed(rest);
    } else {
        assert(s =~= Seq::empty());
    }
}

proof fn lemma_trim_front_blank(s: Seq<char>)
    ensures
        trim_front(s).len() == 0 ==> is_blank(s),
        trim_front(s).len() > 0 ==> !is_white_space(trim_front(s)[0]),
    decreases s.len(),
{
    if s.len() > 0 && is_white_space(s[0]) {
        let rest = s.drop_first();
        lemma_trim_front_blank(rest);
        if is_blank(rest) {
            assert forall|i: int| 0 <= i < s.len() implies is_white_space(#[trigger] s[i]) by {
                if i > 0 {
                    assert(rest[i - 1] == s[i]);
                }
            }
        }
    }
}

proof fn lemma_trim_back_keeps(s: Seq<char>)
    requires
        s.len() > 0,
        !is_white_space(s[0]),
    ensures
        trim_back(s).len() > 0,
    decreases s.len(),
{
    if is_white_space(s.last()) {
        lemma_trim_back_keeps(s.drop_last());
    }
}

/// Trimming leaves nothing exactly of a text of nothing but white space.
pub proof fn law_blank_is_trimmed_away(s: Seq<char>)
    ensures
        trimmed(s).len() == 0 <==> is_blank(s),
{
    if is_blank(s) {
        lemma_blank_is_trimmed(s);
    } else {
        lemma_trim_front_blank(s);
        lemma_trim_back_keeps(trim_front(s));
    }
}

/// One text stands before another exactly where it is a beginning of it, or has the
/// smaller character where they first differ.
pub proof fn law_before_is_by_first_difference(a: Seq<char>, b: Seq<char>, k: int)
    requires
        0 <= k <= a.len(),
        k <= b.len(),
        a.take(k) == b.take(k),
        k < a.len() && k < b.len() ==> a[k] != b[k],
    ensures
        k < a.len() && k < b.len() ==> before(a, b) == (a[k] < b[k]),
        k == a.len() ==> before(a, b) == (a.len() < b.len()),
        k == b.len() ==> !before(a, b),
    decreases a.len(),
{
    if k > 0 {
        assert(a[0] == a.take(k)[0] && b[0] == b.take(k)[0]);
        let a1 = a.drop_first();
        let b1 = b.drop_first();
        assert(a1.take(k - 1) =~= a.take(k).drop_first());
        assert(b1.take(k - 1) =~= b.take(k).drop_first());
        law_before_is_by_first_difference(a1, b1, k - 1);
        assert(before(a, b) == before(a1, b1));
    }
}

/// Decimal notation has no leading zero, so that no two notations mean one number.
pub proof fn law_decimal_has_no_leading_zero(n: nat)
    ensures
        n > 0 ==> decimal(n)[0] != '0',
        n == 0 ==> decimal(n) == seq!['0'],
        all_digits(decimal(n)),
        decimal(n).len() > 0,
    decreases n,
{
    lemma_decimal_digits(n);
    if n >= 10 {
        law_decimal_has_no_leading_zero(n / 10);
        assert(decimal(n)[0] == decimal(n / 10)[0]);
    }
}

/// The option number `i` of a command line that is made of pairs.
pub open spec fn option_at(args: Seq<Seq<char>>, i: int) -> (Seq<char>, Seq<char>) {
    (args[2 * i], args[2 * i + 1])
}

/// A command line that is made of pairs holds the option `name`, and wherever it does,
/// with `value` directly behind it.
pub open spec fn option_is(args: Seq<Seq<char>>, name: Seq<char>, value: Seq<char>) -> bool {
    &&& exists|i: int|
        0 <= i && 2 * i + 1 < args.len() && #[trigger] option_at(args, i) == (name, value)
    &&& forall|i: int|
        0 <= i && 2 * i + 1 < args.len() && (#[trigger] option_at(args, i)).0 == name ==> option_at(
            args,
            i,
        ).1 == value
}

/// A number may be written with a plus sign, which changes nothing.
pub proof fn law_plus_changes_nothing(n: nat, max: nat)
    requires
        n <= max,
    ensures
        unsigned_value(seq!['+'] + decimal(n), max) == Some(n),
        unsigned_value(decimal(n), max) == Some(n),
{
    law_decimal_reads_back(n, max);
    law_decimal_has_no_leading_zero(n);
    let s = seq!['+'] + decimal(n);
    assert(s.drop_first() =~= decimal(n));
    assert(without_plus(s) == decimal(n));
    assert(is_digit(decimal(n)[0]));
    assert(without_plus(decimal(n)) == decimal(n));
}

} // verus!
