use vstd::prelude::*;
use vstd::std_specs::iter::IteratorSpec;

verus! {

broadcast use vstd::string::group_string_axioms;

/// Relies on `String::push`: appends one character at the end of the string.
#[verifier::external_body]
pub(crate) fn push_char(s: &mut String, c: char)
    ensures
        final(s)@ == old(s)@.push(c),
{
    s.push(c);
}

/// Characters that a quoted string writes as a backslash and a code.
pub open spec fn needs_escape(c: char) -> bool {
    c == '"' || c == '\\' || c == '\n' || c == '\r' || c == '\t'
}

/// The code written after the backslash for a character that needs escaping.
pub open spec fn escape_code(c: char) -> char {
    if c == '\n' {
        'n'
    } else if c == '\r' {
        'r'
    } else if c == '\t' {
        't'
    } else {
        c
    }
}

/// The character that a code after a backslash stands for.
pub open spec fn unescape_code(c: char) -> Option<char> {
    if c == '"' {
        Some('"')
    } else if c == '\\' {
        Some('\\')
    } else if c == 'n' {
        Some('\n')
    } else if c == 'r' {
        Some('\r')
    } else if c == 't' {
        Some('\t')
    } else {
        None
    }
}

/// How one character is written inside a quoted string.
pub open spec fn escape_char(c: char) -> Seq<char> {
    if needs_escape(c) {
        seq!['\\', escape_code(c)]
    } else {
        seq![c]
    }
}

/// How a text is written inside a quoted string.
pub open spec fn escaped(s: Seq<char>) -> Seq<char>
    decreases s.len(),
{
    if s.len() == 0 {
        Seq::empty()
    } else {
        escape_char(s[0]) + escaped(s.drop_first())
    }
}

/// A text written as a quoted string.
pub open spec fn quoted(s: Seq<char>) -> Seq<char> {
    seq!['"'] + escaped(s) + seq!['"']
}

/// The character for a decimal digit.
pub open spec fn digit_char(d: int) -> char {
    if d == 0 {
        '0'
    } else if d == 1 {
        '1'
    } else if d == 2 {
        '2'
    } else if d == 3 {
        '3'
    } else if d == 4 {
        '4'
    } else if d == 5 {
        '5'
    } else if d == 6 {
        '6'
    } else if d == 7 {
        '7'
    } else if d == 8 {
        '8'
    } else {
        '9'
    }
}

/// A natural number in decimal digits, without leading zeros.
pub open spec fn digits(n: nat) -> Seq<char>
    decreases n,
{
    if n < 10 {
        seq![digit_char(n as int)]
    } else {
        digits(n / 10).push(digit_char((n % 10) as int))
    }
}

/// An integer in decimal, with a minus sign when it is negative.
pub open spec fn decimal(v: int) -> Seq<char> {
    if v < 0 {
        seq!['-'] + digits((-v) as nat)
    } else {
        digits(v as nat)
    }
}

proof fn lemma_escaped_append(a: Seq<char>, b: Seq<char>)
    ensures
        escaped(a + b) == escaped(a) + escaped(b),
    decreases a.len(),
{
    if a.len() == 0 {
        assert(a + b == b);
    } else {
        lemma_escaped_append(a.drop_first(), b);
        assert((a + b).drop_first() == a.drop_first() + b);
    }
}

proof fn lemma_escaped_push(a: Seq<char>, c: char)
    ensures
        escaped(a.push(c)) == escaped(a) + escape_char(c),
{
    lemma_escaped_append(a, seq![c]);
    assert(a + seq![c] == a.push(c));
    assert(escaped(seq![c]) == escape_char(c) + escaped(seq![c].drop_first()));
    assert(seq![c].drop_first() == Seq::<char>::empty());
}

/// The characters of a string, one by one.
pub(crate) fn chars_of(s: &str) -> (r: Vec<char>)
    ensures
        r@ == s@,
{
    let mut it = s.chars();
    let mut out: Vec<char> = Vec::new();
    loop
        invariant
            it.obeys_prophetic_iter_laws(),
            out@ + it.remaining() == s@,
        ensures
            out@ == s@,
        decreases s@.len() - out@.len(),
    {
        match it.next() {
            Some(c) => {
                out.push(c);
            },
            None => {
                assert(out@ + it.remaining() =~= out@);
                break ;
            },
        }
    }
    out
}

/// Appends `text` as it is written inside a quoted string.
pub(crate) fn push_escaped(out: &mut String, text: &str)
    ensures
        final(out)@ == old(out)@ + escaped(text@),
{
    let cs = chars_of(text);
    let mut i: usize = 0;
    while i < cs.len()
        invariant
            i <= cs@.len(),
            cs@ == text@,
            out@ == old(out)@ + escaped(cs@.take(i as int)),
        decreases cs@.len() - i,
    {
        let c = cs[i];
        proof {
            lemma_escaped_push(cs@.take(i as int), c);
            assert(cs@.take(i as int).push(c) == cs@.take(i as int + 1));
        }
        if c == '"' || c == '\\' {
            push_char(out, '\\');
            push_char(out, c);
        } else if c == '\n' {
            push_char(out, '\\');
            push_char(out, 'n');
        } else if c == '\r' {
            push_char(out, '\\');
            push_char(out, 'r');
        } else if c == '\t' {
            push_char(out, '\\');
            push_char(out, 't');
        } else {
            push_char(out, c);
        }
        i = i + 1;
    }
    assert(cs@.take(i as int) == cs@);
}

/// Appends `text` as a quoted string.
pub(crate) fn push_quoted(out: &mut String, text: &str)
    ensures
        final(out)@ == old(out)@ + quoted(text@),
{
    push_char(out, '"');
    push_escaped(out, text);
    push_char(out, '"');
}

/// The character for the digit `d`.
fn digit_char_of(d: u32) -> (c: char)
    requires
        d < 10,
    ensures
        c == digit_char(d as int),
{
    if d == 0 {
        '0'
    } else if d == 1 {
        '1'
    } else if d == 2 {
        '2'
    } else if d == 3 {
        '3'
    } else if d == 4 {
        '4'
    } else if d == 5 {
        '5'
    } else if d == 6 {
        '6'
    } else if d == 7 {
        '7'
    } else if d == 8 {
        '8'
    } else {
        '9'
    }
}

/// Appends the decimal digits of `n`.
fn push_digits(out: &mut String, n: u32)
    ensures
        final(out)@ == old(out)@ + digits(n as nat),
    decreases n,
{
    if n >= 10 {
        push_digits(out, n / 10);
        push_char(out, digit_char_of(n % 10));
        assert(old(out)@ + digits((n / 10) as nat) + seq![digit_char((n % 10) as int)] == old(out)@
            + digits(n as nat));
    } else {
        push_char(out, digit_char_of(n));
        assert(old(out)@.push(digit_char(n as int)) == old(out)@ + digits(n as nat));
    }
}

/// Appends `v` in decimal.
pub(crate) fn push_decimal(out: &mut String, v: i32)
    ensures
        final(out)@ == old(out)@ + decimal(v as int),
{
    if v < 0 {
        push_char(out, '-');
        let magnitude: u32 = (0i64 - v as i64) as u32;
        push_digits(out, magnitude);
        assert(old(out)@.push('-') + digits(magnitude as nat) == old(out)@ + decimal(v as int));
    } else {
        push_digits(out, v as u32);
    }
}

/// `piece` occurs in `s` starting at `pos`.
pub open spec fn starts_with_at(s: Seq<char>, pos: int, piece: Seq<char>) -> bool {
    0 <= pos && pos + piece.len() <= s.len() && s.subrange(pos, pos + piece.len()) == piece
}

pub proof fn lemma_starts_with_split(s: Seq<char>, pos: int, a: Seq<char>, b: Seq<char>)
    requires
        starts_with_at(s, pos, a + b),
    ensures
        starts_with_at(s, pos, a),
        starts_with_at(s, pos + a.len(), b),
{
    let whole = s.subrange(pos, pos + a.len() + b.len());
    assert forall|i: int| 0 <= i < a.len() implies s.subrange(pos, pos + a.len())[i] == a[i] by {
        assert(whole[i] == (a + b)[i]);
    }
    assert(s.subrange(pos, pos + a.len()) =~= a);
    assert forall|i: int| 0 <= i < b.len() implies s.subrange(pos + a.len(), pos + a.len() + b.len())[i]
        == b[i] by {
        assert(whole[a.len() + i] == (a + b)[a.len() + i]);
    }
    assert(s.subrange(pos + a.len(), pos + a.len() + b.len()) =~= b);
}

/// A decimal digit character.
pub open spec fn is_digit(c: char) -> bool {
    48 <= (c as u32) <= 57
}

/// The value of a run of decimal digits.
pub open spec fn digits_value(d: Seq<char>) -> int
    decreases d.len(),
{
    if d.len() == 0 {
        0
    } else {
        digits_value(d.drop_last()) * 10 + ((d.last() as u32) - 48)
    }
}

proof fn lemma_digits(n: nat)
    ensures
        digits_value(digits(n)) == n,
        digits(n).len() >= 1,
        forall|i: int| 0 <= i < digits(n).len() ==> is_digit(#[trigger] digits(n)[i]),
    decreases n,
{
    lemma_digit_char((n % 10) as int);
    if n >= 10 {
        lemma_digits(n / 10);
        let d = digits(n);
        assert(d.drop_last() == digits(n / 10));
        assert(d.last() == digit_char((n % 10) as int));
        assert(digits_value(d) == digits_value(digits(n / 10)) * 10 + ((d.last() as u32) - 48));
        assert(digits_value(d) == (n / 10) * 10 + n % 10);
        assert(n == (n / 10) * 10 + n % 10);
    } else {
        lemma_digit_char(n as int);
        assert(digits(n) == seq![digit_char(n as int)]);
        assert(digits(n).drop_last() =~= Seq::<char>::empty());
        assert(digits_value(Seq::<char>::empty()) == 0);
        assert(digits(n).last() == digit_char(n as int));
    }
}

proof fn lemma_digit_char(k: int)
    requires
        0 <= k < 10,
    ensures
        digit_char(k) as u32 == 48 + k,
        is_digit(digit_char(k)),
{
}

proof fn lemma_digits_value_nonneg(d: Seq<char>)
    requires
        forall|i: int| 0 <= i < d.len() ==> is_digit(#[trigger] d[i]),
    ensures
        digits_value(d) >= 0,
    decreases d.len(),
{
    if d.len() > 0 {
        lemma_digits_value_nonneg(d.drop_last());
    }
}

proof fn lemma_prefix_value(d: Seq<char>, j: int)
    requires
        0 <= j <= d.len(),
        forall|i: int| 0 <= i < d.len() ==> is_digit(#[trigger] d[i]),
    ensures
        digits_value(d.take(j)) <= digits_value(d),
    decreases d.len() - j,
{
    if j < d.len() {
        lemma_prefix_value(d, j + 1);
        assert(d.take(j + 1).drop_last() == d.take(j));
        lemma_digits_value_nonneg(d.take(j));
    } else {
        assert(d.take(j) == d);
    }
}

/// Reads the characters of `lit` at `pos`; on success, the position after them.
pub(crate) fn expect_text(buf: &Vec<char>, pos: usize, lit: &str) -> (r: Option<usize>)
    requires
        pos <= buf@.len(),
    ensures
        match r {
            Some(p) => p == pos + lit@.len() && starts_with_at(buf@, pos as int, lit@),
            None => !starts_with_at(buf@, pos as int, lit@),
        },
{
    let l = chars_of(lit);
    if l.len() > buf.len() - pos {
        return None;
    }
    assert(pos + l@.len() <= buf@.len());
    let total = buf.len();
    let mut k: usize = 0;
    while k < l.len()
        invariant
            total == buf@.len(),
            k <= l@.len(),
            l@ == lit@,
            pos + l@.len() <= buf@.len(),
            forall|j: int| 0 <= j < k ==> buf@[pos + j] == l@[j],
        decreases l@.len() - k,
    {
        assert(pos + k < buf@.len());
        if buf[pos + k] != l[k] {
            assert(buf@.subrange(pos as int, pos + l@.len())[k as int] != lit@[k as int]);
            return None;
        }
        k = k + 1;
    }
    assert(buf@.subrange(pos as int, pos + l@.len()) =~= lit@);
    Some(pos + l.len())
}

/// What the text after an opening quote looks like when `k` characters of `t`
/// have been read back from it.
proof fn lemma_quoted_step(buf: Seq<char>, start: int, t: Seq<char>, k: int)
    requires
        starts_with_at(buf, start, escaped(t)),
        starts_with_at(buf, start + escaped(t).len(), seq!['"']),
        0 <= k <= t.len(),
    ensures
        start + escaped(t.take(k)).len() <= start + escaped(t).len() < buf.len(),
        k == t.len() ==> buf[start + escaped(t.take(k)).len()] == '"',
        k < t.len() ==> ({
            let i = start + escaped(t.take(k)).len();
            &&& buf[i] != '"'
            &&& needs_escape(t[k]) ==> buf[i] == '\\' && i + 1 < buf.len() && buf[i + 1] == escape_code(
                t[k],
            )
            &&& !needs_escape(t[k]) ==> buf[i] == t[k]
            &&& i + escape_char(t[k]).len() == start + escaped(t.take(k + 1)).len()
            &&& t.take(k + 1) == t.take(k).push(t[k])
        }),
{
    let rest = t.skip(k);
    lemma_escaped_append(t.take(k), rest);
    assert(t.take(k) + rest == t);
    lemma_starts_with_split(buf, start, escaped(t.take(k)), escaped(rest));
    let i = start + escaped(t.take(k)).len();
    assert(buf[start + escaped(t).len()] == buf.subrange(
        start + escaped(t).len(),
        start + escaped(t).len() + 1,
    )[0]);
    if k < t.len() {
        assert(rest == seq![t[k]] + rest.drop_first());
        lemma_escaped_append(seq![t[k]], rest.drop_first());
        assert(seq![t[k]].drop_first() == Seq::<char>::empty());
        assert(escaped(seq![t[k]]) == escape_char(t[k]) + escaped(Seq::<char>::empty()));
        assert(escape_char(t[k]) + Seq::<char>::empty() == escape_char(t[k]));
        lemma_starts_with_split(buf, i, escape_char(t[k]), escaped(rest.drop_first()));
        assert(buf[i] == buf.subrange(i, i + escape_char(t[k]).len())[0]);
        if needs_escape(t[k]) {
            assert(buf[i + 1] == buf.subrange(i, i + 2)[1]);
        }
        assert(t.take(k + 1) == t.take(k).push(t[k]));
        lemma_escaped_push(t.take(k), t[k]);
    } else {
        assert(t.take(k) == t);
    }
}

/// Reads a quoted string at `pos`; on success, its text and the position after it.
/// Whatever `quoted` writes for a text is read back as that text.
pub(crate) fn parse_quoted(buf: &Vec<char>, pos: usize, Ghost(t): Ghost<Seq<char>>) -> (r: Option<
    (String, usize),
>)
    requires
        pos <= buf@.len(),
    ensures
        r matches Some((_, p)) ==> pos < p <= buf@.len(),
        starts_with_at(buf@, pos as int, quoted(t)) ==> (r matches Some((text, p)) && text@ == t && p
            == pos + quoted(t).len()),
{
    let ghost ok = starts_with_at(buf@, pos as int, quoted(t));
    if pos >= buf.len() || buf[pos] != '"' {
        proof {
            if ok {
                assert(buf@.subrange(pos as int, pos + quoted(t).len())[0] == quoted(t)[0]);
            }
        }
        return None;
    }
    proof {
        if ok {
            lemma_starts_with_split(buf@, pos as int, seq!['"'] + escaped(t), seq!['"']);
            lemma_starts_with_split(buf@, pos as int, seq!['"'], escaped(t));
        }
    }
    let mut out = String::new();
    let mut i: usize = pos + 1;
    let ghost mut k: int = 0;
    while i < buf.len()
        invariant
            pos < i <= buf@.len(),
            ok == starts_with_at(buf@, pos as int, quoted(t)),
            ok ==> starts_with_at(buf@, pos as int + 1, escaped(t)),
            ok ==> starts_with_at(buf@, pos as int + 1 + escaped(t).len(), seq!['"']),
            ok ==> 0 <= k <= t.len() && out@ == t.take(k) && i == pos + 1 + escaped(t.take(k)).len(),
        decreases buf@.len() - i,
    {
        proof {
            if ok {
                lemma_quoted_step(buf@, pos as int + 1, t, k);
            }
        }
        let c = buf[i];
        if c == '"' {
            proof {
                if ok {
                    assert(k == t.len());
                    assert(t.take(k) == t);
                }
            }
            return Some((out, i + 1));
        }
        if c == '\\' {
            if i + 1 >= buf.len() {
                return None;
            }
            let code = buf[i + 1];
            let plain = if code == '"' {
                '"'
            } else if code == '\\' {
                '\\'
            } else if code == 'n' {
                '\n'
            } else if code == 'r' {
                '\r'
            } else if code == 't' {
                '\t'
            } else {
                return None;
            };
            push_char(&mut out, plain);
            i = i + 2;
        } else {
            push_char(&mut out, c);
            i = i + 1;
        }
        proof {
            if ok {
                k = k + 1;
            }
        }
    }
    proof {
        if ok {
            lemma_quoted_step(buf@, pos as int + 1, t, k);
        }
    }
    None
}

/// Reads an integer written in decimal at `pos`; on success, its value and the
/// position after it. Whatever `decimal` writes for an `i32` is read back as that
/// value when no digit follows it.
pub(crate) fn parse_decimal(buf: &Vec<char>, pos: usize, Ghost(v): Ghost<int>) -> (r: Option<
    (i32, usize),
>)
    requires
        pos <= buf@.len(),
    ensures
        r matches Some((_, p)) ==> pos < p <= buf@.len(),
        ({
            let d = decimal(v);
            &&& i32::MIN <= v <= i32::MAX
            &&& starts_with_at(buf@, pos as int, d)
            &&& (pos + d.len() == buf@.len() || !is_digit(buf@[pos + d.len()]))
        }) ==> (r matches Some((x, p)) && x == v && p == pos + decimal(v).len()),
{
    let ghost d = decimal(v);
    let ghost ok = i32::MIN <= v <= i32::MAX && starts_with_at(buf@, pos as int, d) && (pos + d.len()
        == buf@.len() || !is_digit(buf@[pos + d.len()]));
    let ghost n: nat = if v < 0 { (-v) as nat } else { v as nat };
    let ghost ds = digits(n);
    proof {
        lemma_digits(n);
        if ok {
            if v < 0 {
                assert(d == seq!['-'] + ds);
                lemma_starts_with_split(buf@, pos as int, seq!['-'], ds);
                assert(buf@[pos as int] == buf@.subrange(pos as int, pos + 1)[0]);
            } else {
                assert(d == ds);
                assert(buf@[pos as int] == buf@.subrange(pos as int, pos + ds.len())[0]);
                assert(is_digit(ds[0]));
            }
        }
    }
    let negative = pos < buf.len() && buf[pos] == '-';
    let start: usize = if negative {
        pos + 1
    } else {
        pos
    };
    let ghost stop = start + ds.len();
    proof {
        if ok {
            assert(negative <==> v < 0);
            assert(starts_with_at(buf@, start as int, ds));
            assert(stop == pos + d.len());
        }
    }
    let mut i: usize = start;
    let mut acc: i64 = 0;
    while i < buf.len() && 48 <= (buf[i] as u32) && (buf[i] as u32) <= 57
        invariant
            start <= i <= buf@.len(),
            0 <= acc <= 2147483648,
            acc == digits_value(buf@.subrange(start as int, i as int)),
            forall|j: int| 0 <= j < ds.len() ==> is_digit(#[trigger] ds[j]),
            digits_value(ds) == n,
            stop == start + ds.len(),
            d == decimal(v),
            ok == (i32::MIN <= v <= i32::MAX && starts_with_at(buf@, pos as int, d) && (pos + d.len()
                == buf@.len() || !is_digit(buf@[pos + d.len()]))),
            ok ==> n <= 2147483648,
            ok ==> starts_with_at(buf@, start as int, ds),
            ok ==> (stop == buf@.len() || !is_digit(buf@[stop])),
            ok ==> i <= stop && buf@.subrange(start as int, i as int) == ds.take(i - start),
        decreases buf@.len() - i,
    {
        let code = buf[i] as u32;
        let digit = code - 48;
        proof {
            assert(buf@.subrange(start as int, i + 1).drop_last() == buf@.subrange(
                start as int,
                i as int,
            ));
            assert(buf@.subrange(start as int, i + 1).last() == buf@[i as int]);
            assert(digits_value(buf@.subrange(start as int, i + 1)) == acc * 10 + digit);
            if ok {
                assert(is_digit(buf@[i as int]));
                assert(i < stop);
                assert(buf@[i as int] == buf@.subrange(start as int, stop)[i - start]);
                assert(buf@.subrange(start as int, i + 1) == ds.take(i + 1 - start));
                lemma_prefix_value(ds, i + 1 - start);
            }
        }
        acc = acc * 10 + digit as i64;
        if acc > 2147483648 {
            return None;
        }
        i = i + 1;
    }
    proof {
        if ok {
            if i < stop {
                assert(buf@[i as int] == buf@.subrange(start as int, stop)[i - start]);
                assert(is_digit(ds[i - start]));
            }
            assert(i == stop);
            assert(ds.take(ds.len() as int) == ds);
        }
    }
    if i == start {
        return None;
    }
    let value: i64 = if negative {
        0 - acc
    } else {
        acc
    };
    if value < -2147483648 || value > 2147483647 {
        return None;
    }
    Some((value as i32, i))
}

proof fn lemma_quoted_unique_from(s: Seq<char>, start: int, t1: Seq<char>, t2: Seq<char>, k: int)
    requires
        starts_with_at(s, start, escaped(t1)),
        starts_with_at(s, start + escaped(t1).len(), seq!['"']),
        starts_with_at(s, start, escaped(t2)),
        starts_with_at(s, start + escaped(t2).len(), seq!['"']),
        0 <= k <= t1.len(),
        k <= t2.len(),
        t1.take(k) == t2.take(k),
    ensures
        t1 == t2,
    decreases t1.len() - k,
{
    lemma_quoted_step(s, start, t1, k);
    lemma_quoted_step(s, start, t2, k);
    if k == t1.len() || k == t2.len() {
        assert(k == t1.len() && k == t2.len());
        assert(t1.take(k) == t1);
        assert(t2.take(k) == t2);
    } else {
        let i = start + escaped(t1.take(k)).len();
        if needs_escape(t1[k]) {
            assert(needs_escape(t2[k]));
        } else {
            assert(!needs_escape(t2[k]));
        }
        assert(t1[k] == t2[k]);
        assert(t1.take(k + 1) == t2.take(k + 1));
        lemma_quoted_unique_from(s, start, t1, t2, k + 1);
    }
}

/// Two texts whose quoted forms start at the same place are the same text.
pub proof fn lemma_quoted_unique(s: Seq<char>, pos: int, t1: Seq<char>, t2: Seq<char>)
    requires
        starts_with_at(s, pos, quoted(t1)),
        starts_with_at(s, pos, quoted(t2)),
    ensures
        t1 == t2,
{
    lemma_starts_with_split(s, pos, seq!['"'] + escaped(t1), seq!['"']);
    lemma_starts_with_split(s, pos, seq!['"'], escaped(t1));
    lemma_starts_with_split(s, pos, seq!['"'] + escaped(t2), seq!['"']);
    lemma_starts_with_split(s, pos, seq!['"'], escaped(t2));
    assert(t1.take(0) == t2.take(0));
    lemma_quoted_unique_from(s, pos + 1, t1, t2, 0);
}

/// Two integers whose decimal forms start at the same place, each followed by
/// the end or by a character that is not a digit, are equal.
pub proof fn lemma_decimal_unique(s: Seq<char>, pos: int, v1: int, v2: int)
    requires
        starts_with_at(s, pos, decimal(v1)),
        pos + decimal(v1).len() == s.len() || !is_digit(s[pos + decimal(v1).len()]),
        starts_with_at(s, pos, decimal(v2)),
        pos + decimal(v2).len() == s.len() || !is_digit(s[pos + decimal(v2).len()]),
    ensures
        v1 == v2,
{
    let n1: nat = if v1 < 0 { (-v1) as nat } else { v1 as nat };
    let n2: nat = if v2 < 0 { (-v2) as nat } else { v2 as nat };
    let ds1 = digits(n1);
    let ds2 = digits(n2);
    lemma_digits(n1);
    lemma_digits(n2);
    let start1 = if v1 < 0 { pos + 1 } else { pos };
    let start2 = if v2 < 0 { pos + 1 } else { pos };
    if v1 < 0 {
        lemma_starts_with_split(s, pos, seq!['-'], ds1);
        assert(s[pos] == s.subrange(pos, pos + 1)[0]);
    } else {
        assert(decimal(v1) == ds1);
        assert(s[pos] == s.subrange(pos, pos + ds1.len())[0]);
        assert(is_digit(ds1[0]));
    }
    if v2 < 0 {
        lemma_starts_with_split(s, pos, seq!['-'], ds2);
        assert(s[pos] == s.subrange(pos, pos + 1)[0]);
    } else {
        assert(decimal(v2) == ds2);
        assert(s[pos] == s.subrange(pos, pos + ds2.len())[0]);
        assert(is_digit(ds2[0]));
    }
    assert((v1 < 0) == (v2 < 0));
    assert(start1 == start2);
    if ds1.len() < ds2.len() {
        let j = start1 + ds1.len();
        assert(s[j] == s.subrange(start2, start2 + ds2.len())[ds1.len() as int]);
        assert(is_digit(ds2[ds1.len() as int]));
        assert(false);
    }
    if ds2.len() < ds1.len() {
        let j = start2 + ds2.len();
        assert(s[j] == s.subrange(start1, start1 + ds1.len())[ds2.len() as int]);
        assert(is_digit(ds1[ds2.len() as int]));
        assert(false);
    }
    assert(ds1 == ds2);
}

} // verus!
