//! Text form of dotted-quad values: splitting on `.`, reading unsigned
//! decimal fields the way `str::parse` does for unsigned integers, and
//! rendering octets back to canonical decimal text.

use vstd::prelude::*;

verus! {

/// True when `c` is an ASCII decimal digit.
pub open spec fn is_digit(c: char) -> bool {
    48 <= c as int <= 57
}

/// Numeric value of a decimal digit character.
pub open spec fn digit_val(c: char) -> int {
    c as int - 48
}

pub open spec fn all_digits(s: Seq<char>) -> bool {
    forall|i: int| 0 <= i < s.len() ==> is_digit(#[trigger] s[i])
}

/// Value of a digit string read in base ten.
pub open spec fn dec_val(s: Seq<char>) -> int
    decreases s.len(),
{
    if s.len() == 0 {
        0
    } else {
        dec_val(s.drop_last()) * 10 + digit_val(s.last())
    }
}

/// The digits of an unsigned numeric literal: one optional leading `+` is
/// removed, mirroring what `str::parse` accepts for unsigned integers.
pub open spec fn digit_body(s: Seq<char>) -> Seq<char> {
    if s.len() >= 1 && s[0] == '+' {
        s.drop_first()
    } else {
        s
    }
}

/// Whether `s` parses as an unsigned integer no greater than `max`.
pub open spec fn is_uint_str(s: Seq<char>, max: int) -> bool {
    &&& digit_body(s).len() >= 1
    &&& all_digits(digit_body(s))
    &&& dec_val(digit_body(s)) <= max
}

/// The number denoted by a string accepted by `is_uint_str`.
pub open spec fn uint_val(s: Seq<char>) -> int {
    dec_val(digit_body(s))
}


/// Once some prefix of a digit string already exceeds `bound`, the whole
/// string does too.
pub proof fn lemma_dec_val_grows(s: Seq<char>, i: int, bound: int)
    requires
        all_digits(s),
        0 <= i <= s.len(),
        bound >= 0,
        dec_val(s.take(i)) > bound,
    ensures
        dec_val(s) > bound,
    decreases s.len() - i,
{
    if i < s.len() {
        assert(s.take(i + 1).drop_last() =~= s.take(i));
        assert(s.take(i + 1).last() == s[i]);
        assert(dec_val(s.take(i + 1)) == dec_val(s.take(i)) * 10 + digit_val(s[i]));
        lemma_dec_val_grows(s, i + 1, bound);
    } else {
        assert(s.take(i) =~= s);
    }
}

/// The fields of `s` between `.` separators, as `str::split('.')` yields
/// them: every string has at least one field, and empty fields are kept.
pub open spec fn split_dots(s: Seq<char>) -> Seq<Seq<char>>
    decreases s.len(),
{
    if s.len() == 0 {
        seq![Seq::<char>::empty()]
    } else if s[0] == '.' {
        seq![Seq::<char>::empty()] + split_dots(s.drop_first())
    } else {
        let rest = split_dots(s.drop_first());
        seq![seq![s[0]] + rest[0]] + rest.drop_first()
    }
}


/// A string without separators is a single field.
pub proof fn lemma_split_dots_dotless(x: Seq<char>)
    requires
        forall|i: int| 0 <= i < x.len() ==> x[i] != '.',
    ensures
        split_dots(x) == seq![x],
    decreases x.len(),
{
    if x.len() == 0 {
        assert(x =~= Seq::<char>::empty());
        assert(split_dots(x) =~~= seq![x]);
    } else {
        lemma_split_dots_dotless(x.drop_first());
        assert(seq![x[0]] + x.drop_first() =~= x);
        assert(split_dots(x.drop_first()).drop_first() =~= Seq::<Seq<char>>::empty());
        assert(split_dots(x) =~~= seq![x]);
    }
}

/// Splitting at the first separator of a string whose head is dotless
/// peels off the head as one field.
pub proof fn lemma_split_dots_append(x: Seq<char>, y: Seq<char>)
    requires
        forall|i: int| 0 <= i < x.len() ==> x[i] != '.',
    ensures
        split_dots(x + seq!['.'] + y) == seq![x] + split_dots(y),
    decreases x.len(),
{
    let s = x + seq!['.'] + y;
    if x.len() == 0 {
        assert(s =~= seq!['.'] + y);
        assert(s[0] == '.');
        assert(s.drop_first() =~= y);
        assert(x =~= Seq::<char>::empty());
        assert(split_dots(s) =~~= seq![x] + split_dots(y));
    } else {
        lemma_split_dots_append(x.drop_first(), y);
        assert(s[0] == x[0]);
        assert(s.drop_first() =~= x.drop_first() + seq!['.'] + y);
        let r = split_dots(s.drop_first());
        assert(r == seq![x.drop_first()] + split_dots(y));
        assert(r[0] == x.drop_first());
        assert(seq![s[0]] + r[0] =~= x);
        assert(r.drop_first() =~= split_dots(y));
        assert(split_dots(s) =~~= seq![x] + split_dots(y));
    }
}

/// The fields of `s` around each `.`, left to right, as owned strings.
pub fn split_on_dots(s: &str) -> (fields: Vec<String>)
    ensures
        fields@.map_values(|f: String| f@) == split_dots(s@),
{
    let n: usize = s.unicode_len();
    let mut fields: Vec<String> = Vec::new();
    let mut start: usize = 0;
    let mut i: usize = 0;
    proof {
        assert(s@.subrange(0, n as int) =~= s@);
        assert(fields@.map_values(|f: String| f@) =~= Seq::<Seq<char>>::empty());
    }
    while i < n
        invariant
            start <= i <= n,
            n == s@.len(),
            split_dots(s@) == fields@.map_values(|f: String| f@) + split_dots(
                s@.subrange(start as int, n as int),
            ),
            forall|k: int| start <= k < i ==> s@[k] != '.',
        decreases n - i,
    {
        let c = s.get_char(i);
        if c == '.' {
            let piece = s.substring_char(start, i).to_owned();
            let ghost before = fields@.map_values(|f: String| f@);
            fields.push(piece);
            proof {
                let head = s@.subrange(start as int, i as int);
                let tail = s@.subrange(i + 1, n as int);
                lemma_split_dots_append(head, tail);
                assert(s@.subrange(start as int, n as int) =~= head + seq!['.'] + tail);
                assert(fields@.map_values(|f: String| f@) =~= before + seq![head]);
            }
            start = i + 1;
        }
        i = i + 1;
    }
    let piece = s.substring_char(start, n).to_owned();
    let ghost before = fields@.map_values(|f: String| f@);
    fields.push(piece);
    proof {
        let head = s@.subrange(start as int, n as int);
        lemma_split_dots_dotless(head);
        assert(fields@.map_values(|f: String| f@) =~= before + seq![head]);
    }
    fields
}

/// Reads `s` as an unsigned decimal number of at most `max`, accepting
/// exactly the strings `str::parse` accepts for an unsigned integer type
/// whose largest value is `max`.
pub fn parse_uint(s: &str, max: u32) -> (r: Option<u32>)
    requires
        max <= 0xFFFF,
    ensures
        match r {
            Some(v) => is_uint_str(s@, max as int) && v == uint_val(s@),
            None => !is_uint_str(s@, max as int),
        },
{
    let n: usize = s.unicode_len();
    if n == 0 {
        return None;
    }
    let first = s.get_char(0);
    let start: usize = if first == '+' {
        1
    } else {
        0
    };
    if start >= n {
        return None;
    }
    let ghost t = digit_body(s@);
    proof {
        assert(t =~= s@.subrange(start as int, n as int));
    }
    let mut acc: u32 = 0;
    let mut i: usize = start;
    while i < n
        invariant
            max <= 0xFFFF,
            start <= i <= n,
            n == s@.len(),
            start < n,
            t == digit_body(s@),
            t =~= s@.subrange(start as int, n as int),
            acc <= max,
            acc as int == dec_val(t.take(i - start)),
            forall|k: int| 0 <= k < i - start ==> is_digit(#[trigger] t[k]),
        decreases n - i,
    {
        let c = s.get_char(i);
        let cv = c as u32;
        let ghost j = i - start;
        proof {
            assert(t[j] == s@[i as int]);
        }
        if cv < 48 || cv > 57 {
            proof {
                assert(!is_digit(t[j]));
            }
            return None;
        }
        let d = cv - 48;
        let next = acc * 10 + d;
        proof {
            assert(t.take(j + 1).drop_last() =~= t.take(j));
            assert(t.take(j + 1).last() == t[j]);
            assert(dec_val(t.take(j + 1)) == acc * 10 + digit_val(t[j]));
        }
        if next > max {
            proof {
                if is_uint_str(s@, max as int) {
                    lemma_dec_val_grows(t, j + 1, max as int);
                }
            }
            return None;
        }
        acc = next;
        i = i + 1;
    }
    proof {
        assert(t.take(n - start) =~= t);
    }
    Some(acc)
}

/// The character for one decimal digit.
pub open spec fn digit_char(d: int) -> char {
    if d == 0 {
        '0'
    } else if d == 1 {
        '1'
    } else if d == 2 {
        '2'
    } else if d == 3 {
        '3'
    } else if d == 4 {
        '4'
    } else if d == 5 {
        '5'
    } else if d == 6 {
        '6'
    } else if d == 7 {
        '7'
    } else if d == 8 {
        '8'
    } else {
        '9'
    }
}

/// Canonical decimal rendering, without sign or leading zeros, of an
/// octet-sized value.
pub open spec fn dec_str(n: int) -> Seq<char> {
    if n < 10 {
        seq![digit_char(n)]
    } else if n < 100 {
        seq![digit_char(n / 10), digit_char(n % 10)]
    } else {
        seq![digit_char(n / 100), digit_char((n / 10) % 10), digit_char(n % 10)]
    }
}

/// Dotted-quad rendering of four octet values.
pub open spec fn dotted(a: int, b: int, c: int, d: int) -> Seq<char> {
    dec_str(a) + seq!['.'] + dec_str(b) + seq!['.'] + dec_str(c) + seq!['.'] + dec_str(d)
}

fn push_digit(out: &mut String, d: u8)
    requires
        d < 10,
    ensures
        final(out)@ == old(out)@ + seq![digit_char(d as int)],
{
    let p: &str = match d {
        0 => "0",
        1 => "1",
        2 => "2",
        3 => "3",
        4 => "4",
        5 => "5",
        6 => "6",
        7 => "7",
        8 => "8",
        _ => "9",
    };
    proof {
        reveal_strlit("0");
        reveal_strlit("1");
        reveal_strlit("2");
        reveal_strlit("3");
        reveal_strlit("4");
        reveal_strlit("5");
        reveal_strlit("6");
        reveal_strlit("7");
        reveal_strlit("8");
        reveal_strlit("9");
        assert(p@ =~= seq![digit_char(d as int)]);
    }
    out.append(p);
}

/// Appends the canonical decimal form of `v` to `out`.
pub fn push_octet(out: &mut String, v: u8)
    ensures
        final(out)@ == old(out)@ + dec_str(v as int),
{
    if v >= 100 {
        push_digit(out, v / 100);
        push_digit(out, (v / 10) % 10);
        push_digit(out, v % 10);
    } else if v >= 10 {
        push_digit(out, v / 10);
        push_digit(out, v % 10);
    } else {
        push_digit(out, v);
    }
    proof {
        assert(out@ =~= old(out)@ + dec_str(v as int));
    }
}

/// Renders four octets as dotted-quad text.
pub fn format_quad(a: u8, b: u8, c: u8, d: u8) -> (r: String)
    ensures
        r@ == dotted(a as int, b as int, c as int, d as int),
{
    let mut out = String::new();
    push_octet(&mut out, a);
    out.append(".");
    push_octet(&mut out, b);
    out.append(".");
    push_octet(&mut out, c);
    out.append(".");
    push_octet(&mut out, d);
    proof {
        reveal_strlit(".");
        assert(out@ =~= dotted(a as int, b as int, c as int, d as int));
    }
    out
}

pub proof fn lemma_digit_char_val(d: int)
    requires
        0 <= d < 10,
    ensures
        is_digit(digit_char(d)),
        digit_val(digit_char(d)) == d,
{
}

proof fn lemma_dec_val_one(a: char)
    ensures
        dec_val(seq![a]) == digit_val(a),
{
    assert(seq![a].drop_last() =~= Seq::<char>::empty());
    assert(dec_val(Seq::<char>::empty()) == 0);
    assert(seq![a].last() == a);
}

proof fn lemma_dec_val_two(a: char, b: char)
    ensures
        dec_val(seq![a, b]) == digit_val(a) * 10 + digit_val(b),
{
    assert(seq![a, b].drop_last() =~= seq![a]);
    lemma_dec_val_one(a);
    assert(seq![a, b].last() == b);
}

proof fn lemma_dec_val_three(a: char, b: char, c: char)
    ensures
        dec_val(seq![a, b, c]) == (digit_val(a) * 10 + digit_val(b)) * 10 + digit_val(c),
{
    assert(seq![a, b, c].drop_last() =~= seq![a, b]);
    lemma_dec_val_two(a, b);
    assert(seq![a, b, c].last() == c);
}

/// Canonical decimal text parses back to the value it was rendered from.
pub proof fn lemma_dec_str_uint(n: int)
    requires
        0 <= n < 256,
    ensures
        all_digits(dec_str(n)),
        1 <= dec_str(n).len() <= 3,
        dec_str(n) == digit_body(dec_str(n)),
        forall|i: int| 0 <= i < dec_str(n).len() ==> #[trigger] dec_str(n)[i] != '.',
        is_uint_str(dec_str(n), 255),
        uint_val(dec_str(n)) == n,
{
    let s = dec_str(n);
    if n < 10 {
        lemma_digit_char_val(n);
        lemma_dec_val_one(digit_char(n));
        assert(dec_val(s) == n);
    } else if n < 100 {
        lemma_digit_char_val(n / 10);
        lemma_digit_char_val(n % 10);
        lemma_dec_val_two(digit_char(n / 10), digit_char(n % 10));
        assert(dec_val(s) == (n / 10) * 10 + n % 10);
    } else {
        lemma_digit_char_val(n / 100);
        lemma_digit_char_val((n / 10) % 10);
        lemma_digit_char_val(n % 10);
        lemma_dec_val_three(digit_char(n / 100), digit_char((n / 10) % 10), digit_char(n % 10));
        assert(dec_val(s) == ((n / 100) * 10 + (n / 10) % 10) * 10 + n % 10);
    }
    assert(s[0] != '+') by {
        lemma_digit_char_val(if n < 10 {
            n
        } else if n < 100 {
            n / 10
        } else {
            n / 100
        });
    }
}

/// The dotted-quad rendering splits back into its four fields.
pub proof fn lemma_split_dotted(a: int, b: int, c: int, d: int)
    requires
        0 <= a < 256,
        0 <= b < 256,
        0 <= c < 256,
        0 <= d < 256,
    ensures
        split_dots(dotted(a, b, c, d)) == seq![dec_str(a), dec_str(b), dec_str(c), dec_str(d)],
{
    lemma_dec_str_uint(a);
    lemma_dec_str_uint(b);
    lemma_dec_str_uint(c);
    lemma_dec_str_uint(d);
    let rest_c = dec_str(c) + seq!['.'] + dec_str(d);
    let rest_b = dec_str(b) + seq!['.'] + rest_c;
    lemma_split_dots_dotless(dec_str(d));
    lemma_split_dots_append(dec_str(c), dec_str(d));
    lemma_split_dots_append(dec_str(b), rest_c);
    lemma_split_dots_append(dec_str(a), rest_b);
    assert(dotted(a, b, c, d) =~= dec_str(a) + seq!['.'] + rest_b);
    assert(split_dots(dotted(a, b, c, d)) =~~= seq![
        dec_str(a),
        dec_str(b),
        dec_str(c),
        dec_str(d),
    ]);
}

} // verus!
