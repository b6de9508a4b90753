use vstd::prelude::*;

verus! {

/// Failure of `parse`: the line held no base-10 integer that fits the
/// guess type. No partial result is returned.
#[derive(Clone, Copy, Debug, PartialEq, Eq, Structural)]
pub struct ParseError;

/// The characters that trimming strips from either end of a line: those
/// with the Unicode white-space property, line terminators included.
pub open spec fn is_space_char(c: char) -> bool {
    let v = c as int;
    ||| (0x09 <= v && v <= 0x0D)
    ||| v == 0x20
    ||| v == 0x85
    ||| v == 0xA0
    ||| v == 0x1680
    ||| (0x2000 <= v && v <= 0x200A)
    ||| v == 0x2028
    ||| v == 0x2029
    ||| v == 0x202F
    ||| v == 0x205F
    ||| v == 0x3000
}

/// A base-10 digit.
pub open spec fn is_digit_char(c: char) -> bool {
    48 <= c as int && c as int <= 57
}

/// The numeric value of a digit character.
pub open spec fn digit_value(c: char) -> int {
    c as int - 48
}

/// `s` with its leading whitespace removed.
pub open spec fn trim_leading(s: Seq<char>) -> Seq<char>
    decreases s.len(),
{
    if s.len() > 0 && is_space_char(s[0]) {
        trim_leading(s.drop_first())
    } else {
        s
    }
}

/// `s` with its trailing whitespace removed.
pub open spec fn trim_trailing(s: Seq<char>) -> Seq<char>
    decreases s.len(),
{
    if s.len() > 0 && is_space_char(s.last()) {
        trim_trailing(s.drop_last())
    } else {
        s
    }
}

/// `s` with whitespace removed from both ends.
pub open spec fn trim_spec(s: Seq<char>) -> Seq<char> {
    trim_trailing(trim_leading(s))
}

/// Every character of `s` is a base-10 digit.
pub open spec fn all_digits(s: Seq<char>) -> bool {
    forall|i: int| 0 <= i < s.len() ==> is_digit_char(#[trigger] s[i])
}

/// The number that the digit string `s` denotes, most significant first.
pub open spec fn digits_value(s: Seq<char>) -> int
    decreases s.len(),
{
    if s.len() == 0 {
        0
    } else {
        digits_value(s.drop_last()) * 10 + digit_value(s.last())
    }
}

/// Whether `parse` accepts `s`: once trimmed, a nonempty run of digits
/// whose value fits the guess type. A sign, any other non-digit, or
/// empty content is rejected.
pub open spec fn parse_ok(s: Seq<char>) -> bool {
    let t = trim_spec(s);
    t.len() > 0 && all_digits(t) && digits_value(t) <= u32::MAX
}

/// The guess that `s` denotes, meaningful when `parse_ok(s)` holds.
pub open spec fn parsed_guess(s: Seq<char>) -> int {
    digits_value(trim_spec(s))
}

proof fn lemma_trim_leading_subrange(s: Seq<char>, lo: int)
    requires
        0 <= lo <= s.len(),
        forall|i: int| 0 <= i < lo ==> is_space_char(#[trigger] s[i]),
        lo == s.len() || !is_space_char(s[lo]),
    ensures
        trim_leading(s) == s.subrange(lo, s.len() as int),
    decreases lo,
{
    if lo == 0 {
        assert(s.subrange(0, s.len() as int) =~= s);
    } else {
        let d = s.drop_first();
        assert(forall|i: int| 0 <= i < lo - 1 ==> is_space_char(#[trigger] d[i]));
        lemma_trim_leading_subrange(d, lo - 1);
        assert(d.subrange(lo - 1, d.len() as int) =~= s.subrange(lo, s.len() as int));
    }
}

proof fn lemma_trim_trailing_subrange(s: Seq<char>, hi: int)
    requires
        0 <= hi <= s.len(),
        forall|i: int| hi <= i < s.len() ==> is_space_char(#[trigger] s[i]),
        hi == 0 || !is_space_char(s[hi - 1]),
    ensures
        trim_trailing(s) == s.subrange(0, hi),
    decreases s.len() - hi,
{
    if hi == s.len() {
        assert(s.subrange(0, hi) =~= s);
    } else {
        let d = s.drop_last();
        assert(is_space_char(s.last()));
        assert(forall|i: int| hi <= i < d.len() ==> is_space_char(#[trigger] d[i]));
        lemma_trim_trailing_subrange(d, hi);
        assert(d.subrange(0, hi) =~= s.subrange(0, hi));
    }
}

/// Trimming a string whose ends were already located: the trimmed view is
/// exactly the subrange between the first and one past the last non-space
/// character.
proof fn lemma_trim_spec_subrange(s: Seq<char>, lo: int, hi: int)
    requires
        0 <= lo <= hi <= s.len(),
        forall|i: int| 0 <= i < lo ==> is_space_char(#[trigger] s[i]),
        forall|i: int| hi <= i < s.len() ==> is_space_char(#[trigger] s[i]),
        lo == s.len() || !is_space_char(s[lo]),
        hi == lo || !is_space_char(s[hi - 1]),
    ensures
        trim_spec(s) == s.subrange(lo, hi),
    decreases 0int,
{
    lemma_trim_leading_subrange(s, lo);
    let t1 = s.subrange(lo, s.len() as int);
    assert(forall|j: int| hi - lo <= j < t1.len() ==> is_space_char(#[trigger] t1[j]));
    lemma_trim_trailing_subrange(t1, hi - lo);
    assert(t1.subrange(0, hi - lo) =~= s.subrange(lo, hi));
}

proof fn lemma_digits_value_step(s: Seq<char>, k: int)
    requires
        0 <= k < s.len(),
    ensures
        digits_value(s.subrange(0, k + 1)) == digits_value(s.subrange(0, k)) * 10 + digit_value(
            s[k],
        ),
{
    let p = s.subrange(0, k + 1);
    assert(p.drop_last() =~= s.subrange(0, k));
    assert(p.last() == s[k]);
}

proof fn lemma_digits_value_nonneg(s: Seq<char>)
    requires
        all_digits(s),
    ensures
        digits_value(s) >= 0,
    decreases s.len(),
{
    if s.len() > 0 {
        let d = s.drop_last();
        assert(forall|i: int| 0 <= i < d.len() ==> is_digit_char(#[trigger] d[i]));
        lemma_digits_value_nonneg(d);
    }
}

/// Appending digits never shrinks the value: the whole string denotes at
/// least what any of its prefixes does.
proof fn lemma_digits_value_prefix_le(s: Seq<char>, k: int)
    requires
        0 <= k <= s.len(),
        all_digits(s),
    ensures
        digits_value(s.subrange(0, k)) <= digits_value(s),
    decreases s.len() - k,
{
    if k == s.len() {
        assert(s.subrange(0, k) =~= s);
    } else {
        let p = s.subrange(0, k);
        assert(forall|i: int| 0 <= i < p.len() ==> is_digit_char(#[trigger] p[i]));
        lemma_digits_value_nonneg(p);
        lemma_digits_value_step(s, k);
        lemma_digits_value_prefix_le(s, k + 1);
    }
}

/// Whether `c` is stripped by trimming.
fn is_space(c: char) -> (b: bool)
    ensures
        b == is_space_char(c),
{
    let v = c as u32;
    (0x09 <= v && v <= 0x0D) || v == 0x20 || v == 0x85 || v == 0xA0 || v == 0x1680 || (0x2000 <= v
        && v <= 0x200A) || v == 0x2028 || v == 0x2029 || v == 0x202F || v == 0x205F || v == 0x3000
}

/// Converts one line of raw text into a validated guess, or reports that
/// the line holds none. The line is trimmed of leading and trailing
/// whitespace first; what remains must be one or more base-10 digits
/// denoting a value that fits the guess type.
pub fn parse(raw: &str) -> (r: Result<u32, ParseError>)
    ensures
        r is Ok <==> parse_ok(raw@),
        r matches Ok(g) ==> g == parsed_guess(raw@),
{
    let n = raw.unicode_len();
    let mut lo: usize = 0;
    while lo < n && is_space(raw.get_char(lo))
        invariant
            0 <= lo <= n,
            n == raw@.len(),
            forall|i: int| 0 <= i < lo ==> is_space_char(#[trigger] raw@[i]),
        decreases n - lo,
    {
        lo = lo + 1;
    }
    if lo == n {
        proof {
            lemma_trim_spec_subrange(raw@, lo as int, lo as int);
            assert(raw@.subrange(lo as int, lo as int).len() == 0);
        }
        return Err(ParseError);
    }
    let mut hi: usize = n;
    while hi > lo && is_space(raw.get_char(hi - 1))
        invariant
            lo < hi <= n,
            n == raw@.len(),
            !is_space_char(raw@[lo as int]),
            forall|i: int| hi <= i < n ==> is_space_char(#[trigger] raw@[i]),
        decreases hi,
    {
        hi = hi - 1;
    }
    proof {
        lemma_trim_spec_subrange(raw@, lo as int, hi as int);
    }
    let ghost t = raw@.subrange(lo as int, hi as int);
    let mut acc: u64 = 0;
    let mut i: usize = lo;
    while i < hi
        invariant
            lo <= i <= hi <= n,
            n == raw@.len(),
            t == raw@.subrange(lo as int, hi as int),
            t == trim_spec(raw@),
            t.len() == hi - lo,
            acc == digits_value(t.subrange(0, i - lo)),
            acc <= u32::MAX,
            forall|j: int| 0 <= j < i - lo ==> is_digit_char(#[trigger] t[j]),
        decreases hi - i,
    {
        let c = raw.get_char(i);
        let cv = c as u32;
        proof {
            assert(t[i - lo] == raw@[i as int]);
        }
        if cv < 48 || cv > 57 {
            proof {
                assert(!is_digit_char(t[i - lo]));
                assert(!all_digits(t));
            }
            return Err(ParseError);
        }
        let d = (cv - 48) as u64;
        proof {
            lemma_digits_value_step(t, i - lo);
            lemma_digits_value_nonneg(t.subrange(0, i - lo));
        }
        acc = acc * 10 + d;
        if acc > u32::MAX as u64 {
            proof {
                if all_digits(t) {
                    lemma_digits_value_prefix_le(t, i + 1 - lo);
                }
            }
            return Err(ParseError);
        }
        i = i + 1;
    }
    proof {
        assert(t.subrange(0, (hi - lo) as int) =~= t);
        assert(all_digits(t));
        assert(t.len() > 0);
    }
    Ok(acc as u32)
}

} // verus!
