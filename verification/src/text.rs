//! Text helpers: decimal rendering of integers and string equality.

use vstd::prelude::*;
use vstd::string::*;

verus! {

/// The ASCII digit for `d` (meaningful for `0 <= d < 10`).
pub open spec fn digit_char(d: int) -> char {
    (d + 48) as char
}

/// Decimal digits of a natural number, most significant first, without leading zeros.
pub open spec fn decimal_nat(n: nat) -> Seq<char>
    decreases n,
{
    if n < 10 {
        seq![digit_char(n as int)]
    } else {
        decimal_nat(n / 10).push(digit_char((n % 10) as int))
    }
}

/// Decimal rendering of an integer, with a leading `-` for negatives.
pub open spec fn decimal_int(n: int) -> Seq<char> {
    if n < 0 {
        seq!['-'] + decimal_nat((-n) as nat)
    } else {
        decimal_nat(n as nat)
    }
}

fn digit_str(d: u64) -> (s: &'static str)
    requires
        d < 10,
    ensures
        s@ == seq![digit_char(d as int)],
{
    proof {
        reveal_strlit("0");
        reveal_strlit("1");
        reveal_strlit("2");
        reveal_strlit("3");
        reveal_strlit("4");
        reveal_strlit("5");
        reveal_strlit("6");
        reveal_strlit("7");
        reveal_strlit("8");
        reveal_strlit("9");
    }
    if d == 0 {
        "0"
    } else if d == 1 {
        "1"
    } else if d == 2 {
        "2"
    } else if d == 3 {
        "3"
    } else if d == 4 {
        "4"
    } else if d == 5 {
        "5"
    } else if d == 6 {
        "6"
    } else if d == 7 {
        "7"
    } else if d == 8 {
        "8"
    } else {
        "9"
    }
}

/// Appends the decimal rendering of `n` to `s`.
pub fn append_decimal_u64(s: &mut String, n: u64)
    ensures
        final(s)@ == old(s)@ + decimal_nat(n as nat),
    decreases n,
{
    if n >= 10 {
        append_decimal_u64(s, n / 10);
    }
    s.append(digit_str(n % 10));
    proof {
        if n >= 10 {
            assert(old(s)@ + decimal_nat(n as nat) =~= old(s)@ + decimal_nat((n / 10) as nat) + seq![
                digit_char((n % 10) as int),
            ]);
        } else {
            assert(old(s)@ + decimal_nat(n as nat) =~= old(s)@ + seq![digit_char((n % 10) as int)]);
        }
    }
}

/// Appends the decimal rendering of `n` to `s`.
pub fn append_decimal_i64(s: &mut String, n: i64)
    ensures
        final(s)@ == old(s)@ + decimal_int(n as int),
{
    if n < 0 {
        s.append("-");
        let wide: i128 = n as i128;
        let magnitude: u64 = (-wide) as u64;
        append_decimal_u64(s, magnitude);
        proof {
            reveal_strlit("-");
            assert(old(s)@ + decimal_int(n as int) =~= old(s)@ + seq!['-'] + decimal_nat(
                magnitude as nat,
            ));
        }
    } else {
        append_decimal_u64(s, n as u64);
    }
}

/// `prefix` followed by the decimal rendering of `n`.
pub fn with_decimal_suffix(prefix: &str, n: i64) -> (r: String)
    ensures
        r@ == prefix@ + decimal_int(n as int),
{
    let mut s = String::from_str(prefix);
    append_decimal_i64(&mut s, n);
    s
}

/// `prefix` followed by `tail`.
pub fn concat_str(prefix: &str, tail: &str) -> (r: String)
    ensures
        r@ == prefix@ + tail@,
{
    let s = String::from_str(prefix);
    s.concat(tail)
}

/// Owned copy of a string slice.
pub fn owned(s: &str) -> (r: String)
    ensures
        r@ == s@,
{
    String::from_str(s)
}

/// The pieces of `s` between occurrences of `sep`, as `str::split` gives
/// them (empty pieces included; an empty `s` gives one empty piece).
pub open spec fn split_on(s: Seq<char>, sep: char) -> Seq<Seq<char>>
    decreases s.len(),
{
    if s.len() == 0 {
        seq![Seq::<char>::empty()]
    } else {
        let prev = split_on(s.drop_last(), sep);
        if s.last() == sep {
            prev.push(Seq::<char>::empty())
        } else {
            prev.update(prev.len() - 1, prev.last().push(s.last()))
        }
    }
}

pub proof fn lemma_split_on_len(s: Seq<char>, sep: char)
    ensures
        split_on(s, sep).len() >= 1,
    decreases s.len(),
{
    if s.len() > 0 {
        lemma_split_on_len(s.drop_last(), sep);
    }
}

/// The pieces of `s` between commas.
pub fn split_on_comma(s: &str) -> (r: Vec<String>)
    ensures
        r.deep_view() == split_on(s@, ','),
{
    let n = s.unicode_len();
    let mut pieces: Vec<String> = Vec::new();
    let mut start: usize = 0;
    let mut i: usize = 0;
    proof {
        assert(s@.take(0) =~= Seq::<char>::empty());
        assert(s@.subrange(0, 0) =~= Seq::<char>::empty());
        assert(pieces.deep_view() =~= Seq::<Seq<char>>::empty());
        assert(pieces.deep_view().push(s@.subrange(0, 0)) =~= split_on(s@.take(0), ','));
    }
    while i < n
        invariant
            n == s@.len(),
            start <= i <= n,
            pieces.deep_view().push(s@.subrange(start as int, i as int)) == split_on(
                s@.take(i as int),
                ',',
            ),
        decreases n - i,
    {
        let c = s.get_char(i);
        let ghost prev_pieces = pieces.deep_view();
        proof {
            assert(s@.take(i as int + 1).drop_last() =~= s@.take(i as int));
            assert(s@.take(i as int + 1).last() == c);
            lemma_split_on_len(s@.take(i as int), ',');
        }
        if c == ',' {
            let piece = String::from_str(s.substring_char(start, i));
            pieces.push(piece);
            proof {
                assert(pieces.deep_view() =~= prev_pieces.push(s@.subrange(start as int, i as int)));
                assert(s@.subrange(i as int + 1, i as int + 1) =~= Seq::<char>::empty());
            }
            start = i + 1;
        } else {
            proof {
                assert(s@.subrange(start as int, i as int + 1) =~= s@.subrange(start as int, i as int).push(c));
                assert(prev_pieces.push(s@.subrange(start as int, i as int + 1)) =~= prev_pieces.push(
                    s@.subrange(start as int, i as int),
                ).update(prev_pieces.len() as int, s@.subrange(start as int, i as int).push(c)));
            }
        }
        i = i + 1;
    }
    let last = String::from_str(s.substring_char(start, n));
    let ghost prev_pieces = pieces.deep_view();
    pieces.push(last);
    proof {
        assert(pieces.deep_view() =~= prev_pieces.push(s@.subrange(start as int, n as int)));
        assert(s@.take(n as int) =~= s@);
    }
    pieces
}

/// A copy of an optional string, equal to it.
pub fn clone_opt_string(o: &Option<String>) -> (r: Option<String>)
    ensures
        r == *o,
{
    match o {
        Some(s) => Some(s.clone()),
        None => None,
    }
}

/// A copy of a string vector, equal to it.
pub fn clone_string_vec(v: &Vec<String>) -> (r: Vec<String>)
    ensures
        r@ == v@,
{
    let mut out: Vec<String> = Vec::new();
    let mut i: usize = 0;
    while i < v.len()
        invariant
            i <= v.len(),
            out@ == v@.take(i as int),
        decreases v.len() - i,
    {
        out.push(v[i].clone());
        proof {
            assert(v@.take(i as int + 1) =~= v@.take(i as int).push(v@[i as int]));
        }
        i = i + 1;
    }
    proof {
        assert(v@.take(v.len() as int) =~= v@);
    }
    out
}

} // verus!
