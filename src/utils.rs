//! Totals and readable figures for the summary of a run.
use vstd::prelude::*;

use crate::download::Output;
use crate::text::chars_of;

verus! {

/// Why the sizes of a run cannot be added up.
#[derive(Clone, Copy, Debug, PartialEq, Eq, Structural)]
pub enum ParseError {
    /// A size is not a decimal number of bytes that fits in 64 bits.
    InvalidSize,
    /// The sizes add up to more than 64 bits hold.
    TotalOverflow,
}

/// An ASCII decimal digit.
pub open spec fn is_digit(c: char) -> bool {
    48 <= (c as u32) && (c as u32) <= 57
}

/// The value of a sequence of decimal digits, most significant first.
pub open spec fn digits_value(s: Seq<char>) -> int
    decreases s.len(),
{
    if s.len() == 0 {
        0
    } else {
        digits_value(s.drop_last()) * 10 + ((s.last() as u32) - 48)
    }
}

/// The digits of a size: what follows an optional leading `+`.
pub open spec fn size_digits(s: Seq<char>) -> Seq<char> {
    if s.len() > 0 && s[0] == '+' {
        s.drop_first()
    } else {
        s
    }
}

/// The number of bytes a size field gives: an optional `+`, then one or more decimal
/// digits whose value fits in 64 bits.
pub open spec fn size_value(s: Seq<char>) -> Option<int> {
    let d = size_digits(s);
    if d.len() > 0 && (forall|i: int| 0 <= i < d.len() ==> is_digit(#[trigger] d[i]))
        && digits_value(d) <= u64::MAX {
        Some(digits_value(d))
    } else {
        None
    }
}

/// The sum of the sizes, added in order; the first problem met is the result.
pub open spec fn total_bytes(sizes: Seq<Seq<char>>) -> Result<int, ParseError>
    decreases sizes.len(),
{
    if sizes.len() == 0 {
        Ok(0)
    } else {
        match total_bytes(sizes.drop_last()) {
            Err(e) => Err(e),
            Ok(t) => match size_value(sizes.last()) {
                None => Err(ParseError::InvalidSize),
                Some(v) => if t + v > u64::MAX {
                    Err(ParseError::TotalOverflow)
                } else {
                    Ok(t + v)
                },
            },
        }
    }
}

/// The size fields of the records.
pub open spec fn sizes_of(outputs: Seq<Output>) -> Seq<Seq<char>> {
    outputs.map_values(|o: Output| o.bytes@)
}

proof fn lemma_digits_value_grows(s: Seq<char>, j: int)
    requires
        0 <= j <= s.len(),
        forall|i: int| 0 <= i < s.len() ==> is_digit(#[trigger] s[i]),
    ensures
        digits_value(s.take(j)) <= digits_value(s),
    decreases s.len(),
{
    if j < s.len() {
        let p = s.drop_last();
        assert forall|i: int| 0 <= i < p.len() implies is_digit(#[trigger] p[i]) by {
            assert(p[i] == s[i]);
        }
        lemma_digits_value_grows(p, j);
        assert(p.take(j) =~= s.take(j));
        lemma_digits_value_nonneg(p);
    } else {
        assert(s.take(j) =~= s);
    }
}

proof fn lemma_digits_value_nonneg(s: Seq<char>)
    requires
        forall|i: int| 0 <= i < s.len() ==> is_digit(#[trigger] s[i]),
    ensures
        digits_value(s) >= 0,
    decreases s.len(),
{
    if s.len() > 0 {
        let p = s.drop_last();
        assert forall|i: int| 0 <= i < p.len() implies is_digit(#[trigger] p[i]) by {
            assert(p[i] == s[i]);
        }
        lemma_digits_value_nonneg(p);
        assert(is_digit(s[s.len() - 1]));
    }
}

/// The number of bytes a size field gives, or `None` where `size_value` has none.
pub fn parse_size(s: &str) -> (r: Option<u64>)
    ensures
        match r {
            Some(v) => size_value(s@) == Some(v as int),
            None => size_value(s@) is None,
        },
{
    let cs = chars_of(s);
    let n = cs.len();
    let start: usize = if n > 0 && cs[0] == '+' {
        1
    } else {
        0
    };
    let ghost d = size_digits(s@);
    assert(d =~= s@.subrange(start as int, n as int));
    if start == n {
        return None;
    }
    let mut v: u64 = 0;
    let mut j: usize = start;
    while j < n
        invariant
            cs@ == s@,
            n == cs.len(),
            start <= j <= n,
            d == s@.subrange(start as int, n as int),
            d == size_digits(s@),
            forall|i: int| 0 <= i < j - start ==> is_digit(#[trigger] d[i]),
            v as int == digits_value(d.take(j - start)),
        decreases n - j,
    {
        let c = cs[j];
        let code: u32 = c as u32;
        if code < 48 || code > 57 {
            assert(d[j - start] == cs@[j as int]);
            assert(!is_digit(d[j - start]));
            assert(!(forall|i: int| 0 <= i < d.len() ==> is_digit(#[trigger] d[i])));
            return None;
        }
        assert(d.take(j - start + 1).drop_last() =~= d.take(j - start));
        let next = match v.checked_mul(10) {
            Some(t) => t.checked_add((code - 48) as u64),
            None => None,
        };
        match next {
            Some(t) => {
                v = t;
            },
            None => {
                proof {
                    if forall|i: int| 0 <= i < d.len() ==> is_digit(#[trigger] d[i]) {
                        lemma_digits_value_grows(d, j - start + 1);
                        lemma_digits_value_nonneg(d.take(j - start));
                    }
                }
                return None;
            },
        }
        j = j + 1;
    }
    assert(d.take(j - start) =~= d);
    Some(v)
}

/// The total size in bytes of the records, or the first problem met adding them up.
pub fn total_download_bytes(outputs: &[Output]) -> (r: Result<u64, ParseError>)
    ensures
        match r {
            Ok(v) => total_bytes(sizes_of(outputs@)) == Ok::<int, ParseError>(v as int),
            Err(e) => total_bytes(sizes_of(outputs@)) == Err::<int, ParseError>(e),
        },
{
    let ghost all = sizes_of(outputs@);
    let mut total: u64 = 0;
    let mut i: usize = 0;
    assert(all.take(0) =~= Seq::<Seq<char>>::empty());
    while i < outputs.len()
        invariant
            all == sizes_of(outputs@),
            i <= outputs.len(),
            total_bytes(all.take(i as int)) == Ok::<int, ParseError>(total as int),
        decreases outputs.len() - i,
    {
        assert(all.take(i + 1).drop_last() =~= all.take(i as int));
        assert(all.take(i + 1).last() == outputs@[i as int].bytes@);
        match parse_size(outputs[i].bytes.as_str()) {
            None => {
                proof { lemma_error_stays(all, i as int + 1, ParseError::InvalidSize) }
                return Err(ParseError::InvalidSize);
            },
            Some(v) => match total.checked_add(v) {
                None => {
                    proof { lemma_error_stays(all, i as int + 1, ParseError::TotalOverflow) }
                    return Err(ParseError::TotalOverflow);
                },
                Some(t) => {
                    total = t;
                },
            },
        }
        i = i + 1;
    }
    assert(all.take(i as int) =~= all);
    Ok(total)
}

/// The decimal digit characters, by value.
pub open spec fn digit_char(d: int) -> char {
    seq!['0', '1', '2', '3', '4', '5', '6', '7', '8', '9'][d]
}

/// `n` in decimal, without leading zeros.
pub open spec fn decimal(n: nat) -> Seq<char>
    decreases n,
{
    if n < 10 {
        seq![digit_char(n as int)]
    } else {
        decimal(n / 10).push(digit_char((n % 10) as int))
    }
}

/// A duration given in microseconds, in the largest of microseconds, milliseconds
/// and seconds whose count is at least one thousand, rounded down.
pub open spec fn duration_text(micros: nat) -> Seq<char> {
    if micros < 1000 {
        decimal(micros) + "\u{3bc}s"@
    } else if micros / 1000 < 1000 {
        decimal(micros / 1000) + "ms"@
    } else {
        decimal(micros / 1_000_000) + "s"@
    }
}

fn digit_text(d: u128) -> (r: &'static str)
    requires
        d < 10,
    ensures
        r@ == seq![digit_char(d as int)],
{
    proof {
        reveal_strlit("0");
        reveal_strlit("1");
        reveal_strlit("2");
        reveal_strlit("3");
        reveal_strlit("4");
        reveal_strlit("5");
        reveal_strlit("6");
        reveal_strlit("7");
        reveal_strlit("8");
        reveal_strlit("9");
    }
    let r = if d == 0 {
        "0"
    } else if d == 1 {
        "1"
    } else if d == 2 {
        "2"
    } else if d == 3 {
        "3"
    } else if d == 4 {
        "4"
    } else if d == 5 {
        "5"
    } else if d == 6 {
        "6"
    } else if d == 7 {
        "7"
    } else if d == 8 {
        "8"
    } else {
        "9"
    };
    assert(r@ =~= seq![digit_char(d as int)]);
    r
}

fn append_decimal(acc: &mut String, n: u128)
    ensures
        final(acc)@ == old(acc)@ + decimal(n as nat),
    decreases n,
{
    if n >= 10 {
        append_decimal(acc, n / 10);
    }
    acc.append(digit_text(n % 10));
    assert(acc@ =~= old(acc)@ + decimal(n as nat));
}

/// A duration given in whole microseconds (what `Duration::as_micros` gives), as
/// `duration_text` writes it.
pub fn human_duration(micros: u128) -> (r: String)
    ensures
        r@ == duration_text(micros as nat),
{
    let mut r = String::new();
    if micros < 1000 {
        append_decimal(&mut r, micros);
        r.append("\u{3bc}s");
    } else if micros / 1000 < 1000 {
        append_decimal(&mut r, micros / 1000);
        r.append("ms");
    } else {
        append_decimal(&mut r, micros / 1_000_000);
        r.append("s");
    }
    r
}

proof fn lemma_error_stays(all: Seq<Seq<char>>, k: int, e: ParseError)
    requires
        0 <= k <= all.len(),
        total_bytes(all.take(k)) == Err::<int, ParseError>(e),
    ensures
        total_bytes(all) == Err::<int, ParseError>(e),
    decreases all.len() - k,
{
    if k < all.len() {
        assert(all.take(k + 1).drop_last() =~= all.take(k));
        lemma_error_stays(all, k + 1, e);
    } else {
        assert(all.take(k) =~= all);
    }
}

} // verus!
