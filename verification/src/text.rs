//! Text building blocks shared by the packagers: decimal rendering of
//! integers, character sequences, and splitting command output into lines.
use vstd::prelude::*;

use crate::xbps::{lemma_join_prepend, spec_join};

verus! {

/// Appends one character to a string.
///
/// Trusted: the body calls `String::push`, which std documents as appending
/// the given `char` to the end of the string; the contract says exactly that.
#[verifier::external_body]
pub(crate) fn push_char(s: &mut String, c: char)
    ensures
        final(s)@ == old(s)@.push(c),
{
    s.push(c);
}

/// The character that writes the decimal digit `d` (`0 <= d < 10`).
pub open spec fn digit_char(d: int) -> char {
    (d + 48) as char
}

/// The decimal rendering of a natural number, as `Display` writes it:
/// no sign, no leading zeros, "0" for zero.
pub open spec fn spec_decimal(n: nat) -> Seq<char>
    decreases n,
{
    if n < 10 {
        seq![digit_char(n as int)]
    } else {
        spec_decimal(n / 10).push(digit_char((n % 10) as int))
    }
}

/// The decimal rendering of an integer: a `-` in front of negative values.
pub open spec fn spec_signed_decimal(i: int) -> Seq<char> {
    if i < 0 {
        seq!['-'] + spec_decimal((-i) as nat)
    } else {
        spec_decimal(i as nat)
    }
}

/// Whether `c` is one of the ten ASCII digits.
pub open spec fn is_digit(c: char) -> bool {
    '0' <= c && c <= '9'
}

/// The number that a string of decimal digits denotes.
pub open spec fn decimal_value(s: Seq<char>) -> nat
    decreases s.len(),
{
    if s.len() == 0 {
        0
    } else {
        decimal_value(s.drop_last()) * 10 + ((s.last() as int - 48) as nat)
    }
}

/// Reading back the decimal rendering of `n` gives `n`: the rendering is made
/// of digits only, has no leading zero (unless it is "0"), and denotes `n`.
pub proof fn lemma_decimal_round_trip(n: nat)
    ensures
        spec_decimal(n).len() > 0,
        forall|k: int| 0 <= k < spec_decimal(n).len() ==> is_digit(#[trigger] spec_decimal(n)[k]),
        n > 0 ==> spec_decimal(n)[0] != '0',
        decimal_value(spec_decimal(n)) == n,
    decreases n,
{
    if n < 10 {
        assert(seq![digit_char(n as int)].drop_last() =~= Seq::<char>::empty());
        assert(spec_decimal(n).last() as int == n + 48);
        assert(decimal_value(spec_decimal(n)) == decimal_value(spec_decimal(n).drop_last()) * 10 + ((spec_decimal(n).last() as int - 48) as nat));
        assert(decimal_value(Seq::<char>::empty()) == 0);
    } else {
        lemma_decimal_round_trip(n / 10);
        let s = spec_decimal(n);
        assert(s.drop_last() =~= spec_decimal(n / 10));
        assert(s.last() as int == (n % 10) + 48);
        assert(n == (n / 10) * 10 + n % 10) by (nonlinear_arith);
        assert(decimal_value(s) == decimal_value(s.drop_last()) * 10 + ((s.last() as int - 48) as nat));
        assert(decimal_value(s) == (n / 10) * 10 + n % 10);
    }
}

/// Appends the decimal rendering of `n` to `out`.
pub(crate) fn write_decimal(n: u64, out: &mut String)
    ensures
        final(out)@ == old(out)@ + spec_decimal(n as nat),
    decreases n,
{
    if n >= 10 {
        write_decimal(n / 10, out);
    }
    let d: u8 = (n % 10) as u8;
    let c: char = (d + 48) as char;
    push_char(out, c);
    proof {
        if n < 10 {
            assert(old(out)@ + spec_decimal(n as nat) =~= old(out)@.push(c));
        }
    }
}

/// Renders an unsigned integer in decimal, as `u64`'s `Display` does.
pub fn u64_to_decimal(n: u64) -> (s: String)
    ensures
        s@ == spec_decimal(n as nat),
{
    let mut s = String::new();
    write_decimal(n, &mut s);
    proof {
        assert(Seq::<char>::empty() + spec_decimal(n as nat) =~= spec_decimal(n as nat));
    }
    s
}

/// Renders a signed integer in decimal, as `i64`'s `Display` does.
pub fn i64_to_decimal(i: i64) -> (s: String)
    ensures
        s@ == spec_signed_decimal(i as int),
{
    let mut s = String::new();
    if i < 0 {
        push_char(&mut s, '-');
        let magnitude: u64 = if i == i64::MIN {
            9223372036854775808u64
        } else {
            (-i) as u64
        };
        write_decimal(magnitude, &mut s);
    } else {
        write_decimal(i as u64, &mut s);
        proof {
            assert(Seq::<char>::empty() + spec_decimal(i as nat) =~= spec_decimal(i as nat));
        }
    }
    s
}

/// The characters of a string slice, in order.
pub fn chars_of(s: &str) -> (v: Vec<char>)
    ensures
        v@ == s@,
{
    let mut v: Vec<char> = Vec::new();
    for c in it: s.chars()
        invariant
            v@ == it.seq().take(it.index() as int),
    {
        v.push(c);
    }
    v
}

/// A string holding `cs[from..to]`.
pub fn string_from_chars(cs: &Vec<char>, from: usize, to: usize) -> (s: String)
    requires
        from <= to <= cs.len(),
    ensures
        s@ == cs@.subrange(from as int, to as int),
{
    let mut s = String::new();
    let mut i = from;
    while i < to
        invariant
            from <= i <= to <= cs.len(),
            s@ == cs@.subrange(from as int, i as int),
        decreases to - i,
    {
        push_char(&mut s, cs[i]);
        assert(cs@.subrange(from as int, i + 1) =~= cs@.subrange(from as int, i as int).push(cs@[i as int]));
        i += 1;
    }
    s
}

/// The index of the first `'\n'` in `s` at or after `i`, or `s.len()` when
/// there is none.
pub open spec fn newline_from(s: Seq<char>, i: int) -> int
    decreases s.len() - i,
{
    if i >= s.len() {
        s.len() as int
    } else if s[i] == '\n' {
        i
    } else {
        newline_from(s, i + 1)
    }
}

/// `line` without one trailing carriage return.
pub open spec fn strip_cr(line: Seq<char>) -> Seq<char> {
    if line.len() > 0 && line.last() == '\r' {
        line.drop_last()
    } else {
        line
    }
}

/// What `str::lines` yields: the pieces between `'\n'` characters, each
/// without the `'\r'` of a `"\r\n"` ending; a final line ending is optional,
/// so text that ends with `'\n'` yields no empty last line.
pub open spec fn spec_lines(s: Seq<char>) -> Seq<Seq<char>>
    decreases s.len(),
{
    if s.len() == 0 {
        Seq::empty()
    } else {
        let n = newline_from(s, 0);
        proof {
            lemma_newline_from_bounds(s, 0);
        }
        if n >= s.len() {
            seq![s]
        } else {
            seq![strip_cr(s.subrange(0, n))] + spec_lines(s.subrange(n + 1, s.len() as int))
        }
    }
}

pub proof fn lemma_newline_from_bounds(s: Seq<char>, i: int)
    requires
        0 <= i,
    ensures
        i <= newline_from(s, i) || (i > s.len() && newline_from(s, i) == s.len()),
        newline_from(s, i) <= s.len(),
        newline_from(s, i) < s.len() ==> s[newline_from(s, i)] == '\n',
        forall|k: int| i <= k < newline_from(s, i) ==> s[k] != '\n',
    decreases s.len() - i,
{
    if i < s.len() && s[i] != '\n' {
        lemma_newline_from_bounds(s, i + 1);
    }
}

proof fn lemma_newline_from_is(s: Seq<char>, i: int, k: int)
    requires
        0 <= i <= k <= s.len(),
        forall|j: int| i <= j < k ==> s[j] != '\n',
        k == s.len() || s[k] == '\n',
    ensures
        newline_from(s, i) == k,
    decreases k - i,
{
    if i < k {
        lemma_newline_from_is(s, i + 1, k);
    }
}

/// Splits text into lines exactly as `str::lines` does.
pub fn text_lines(text: &str) -> (out: Vec<String>)
    ensures
        out.deep_view() == spec_lines(text@),
{
    let cs = chars_of(text);
    let ghost s = text@;
    let len = cs.len();
    let mut out: Vec<String> = Vec::new();
    let mut start: usize = 0;
    let mut i: usize = 0;
    proof {
        assert(s.subrange(0, len as int) =~= s);
        assert(out.deep_view() + spec_lines(s) =~= spec_lines(s));
    }
    while i < len
        invariant
            len == cs.len(),
            cs@ == s,
            start <= i <= len,
            spec_lines(s) == out.deep_view() + spec_lines(s.subrange(start as int, len as int)),
            forall|k: int| start <= k < i ==> cs@[k] != '\n',
        decreases len - i,
    {
        if cs[i] == '\n' {
            let ghost t = s.subrange(start as int, len as int);
            proof {
                lemma_newline_from_is(t, 0, i - start);
                assert(t.subrange(i - start + 1, t.len() as int) =~= s.subrange(i + 1, len as int));
            }
            let end: usize = if i > start && cs[i - 1] == '\r' { i - 1 } else { i };
            let line = string_from_chars(&cs, start, end);
            proof {
                let piece = t.subrange(0, i - start);
                assert(piece =~= s.subrange(start as int, i as int));
                if i > start && cs@[i - 1] == '\r' {
                    assert(strip_cr(piece) =~= line@);
                } else {
                    assert(strip_cr(piece) =~= line@);
                }
            }
            let ghost before = out.deep_view();
            out.push(line);
            proof {
                assert(out.deep_view() =~= before.push(line@));
                assert(spec_lines(s) =~= out.deep_view() + spec_lines(s.subrange(i + 1, len as int)));
            }
            start = i + 1;
        }
        i += 1;
    }
    if start < len {
        let ghost t = s.subrange(start as int, len as int);
        proof {
            lemma_newline_from_is(t, 0, t.len() as int);
        }
        let line = string_from_chars(&cs, start, len);
        let ghost before = out.deep_view();
        out.push(line);
        proof {
            assert(line@ =~= t);
            assert(out.deep_view() =~= before.push(line@));
            assert(spec_lines(s) =~= out.deep_view());
        }
    } else {
        proof {
            assert(s.subrange(start as int, len as int) =~= Seq::<char>::empty());
            assert(spec_lines(s) =~= out.deep_view());
        }
    }
    out
}

/// Text that is not empty has at least one line.
proof fn lemma_lines_nonempty(s: Seq<char>)
    requires
        s.len() > 0,
    ensures
        spec_lines(s).len() > 0,
{
    lemma_newline_from_bounds(s, 0);
}

/// Splitting into lines loses nothing but the line endings: no line holds a
/// `'\n'`, and in text without carriage returns, the lines joined with
/// `'\n'` (plus a final `'\n'` when the text ends with one) give the text
/// back.
pub proof fn lemma_lines_rebuild(s: Seq<char>)
    ensures
        forall|i: int, k: int|
            0 <= i < spec_lines(s).len() && 0 <= k < spec_lines(s)[i].len() ==> #[trigger] spec_lines(
                s,
            )[i][k] != '\n',
        (forall|k: int| 0 <= k < s.len() ==> s[k] != '\r') ==> spec_join(spec_lines(s), "\n"@) + (
        if s.len() > 0 && s.last() == '\n' {
            "\n"@
        } else {
            Seq::<char>::empty()
        }) == s,
    decreases s.len(),
{
    reveal_strlit("\n");
    if s.len() > 0 {
        let n = newline_from(s, 0);
        lemma_newline_from_bounds(s, 0);
        let lines = spec_lines(s);
        if n >= s.len() {
            assert(lines =~= seq![s]);
        } else {
            let head = s.subrange(0, n);
            let rest = s.subrange(n + 1, s.len() as int);
            lemma_lines_rebuild(rest);
            let tail = spec_lines(rest);
            assert(lines =~= seq![strip_cr(head)] + tail);
            assert forall|i: int, k: int|
                0 <= i < lines.len() && 0 <= k < lines[i].len() implies #[trigger] lines[i][k]
                != '\n' by {
                if i == 0 {
                    assert(lines[0][k] == head[k]);
                } else {
                    assert(lines[i] == tail[i - 1]);
                }
            }
            if forall|k: int| 0 <= k < s.len() ==> s[k] != '\r' {
                if n > 0 {
                    assert(head.last() == s[n - 1]);
                }
                assert(strip_cr(head) == head);
                assert forall|k: int| 0 <= k < rest.len() implies rest[k] != '\r' by {
                    assert(rest[k] == s[n + 1 + k]);
                }
                if rest.len() == 0 {
                    assert(tail =~= Seq::<Seq<char>>::empty());
                    assert(lines =~= seq![head]);
                    assert(spec_join(lines, "\n"@) == head);
                    assert(head + "\n"@ =~= s);
                } else {
                    lemma_lines_nonempty(rest);
                    lemma_join_prepend(head, tail, "\n"@);
                    assert(rest.last() == s.last());
                    assert(head + "\n"@ + rest =~= s);
                }
            }
        }
    }
}

/// A signed rendering reads back as the same number: a `-` and the digits
/// of the magnitude for a negative number, just the digits otherwise.
pub proof fn lemma_signed_decimal_reads_back(i: int)
    ensures
        i < 0 ==> spec_signed_decimal(i)[0] == '-' && decimal_value(spec_signed_decimal(i).drop_first())
            == -i,
        i >= 0 ==> decimal_value(spec_signed_decimal(i)) == i,
        forall|k: int|
            (if i < 0 { 1int } else { 0int }) <= k < spec_signed_decimal(i).len() ==> is_digit(
                #[trigger] spec_signed_decimal(i)[k],
            ),
{
    if i < 0 {
        lemma_decimal_round_trip((-i) as nat);
        assert(spec_signed_decimal(i).drop_first() =~= spec_decimal((-i) as nat));
        assert forall|k: int| 1 <= k < spec_signed_decimal(i).len() implies is_digit(
            #[trigger] spec_signed_decimal(i)[k],
        ) by {
            assert(spec_signed_decimal(i)[k] == spec_decimal((-i) as nat)[k - 1]);
        }
    } else {
        lemma_decimal_round_trip(i as nat);
    }
}

} // verus!
