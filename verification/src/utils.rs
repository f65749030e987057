use vstd::pervasive::unreached;
use vstd::prelude::*;
use vstd::string::StrSliceExecFns;

verus! {

/// `c` is a decimal digit.
pub open spec fn is_digit(c: char) -> bool {
    48 <= c as u32 <= 57
}

/// Every character of `s` is a decimal digit.
pub open spec fn all_digits(s: Seq<char>) -> bool {
    forall|i: int| 0 <= i < s.len() ==> is_digit(s[i])
}

/// The number the digit string `s` denotes, read left to right.
pub open spec fn digits_value(s: Seq<char>) -> int
    decreases s.len(),
{
    if s.len() == 0 {
        0
    } else {
        10 * digits_value(s.drop_last()) + (s.last() as u32 - 48)
    }
}

/// The number of leading sign characters of `s`: one or none.
pub open spec fn spec_sign_len(s: Seq<char>) -> int {
    if s.len() > 0 && (s[0] == '-' || s[0] == '+') {
        1
    } else {
        0
    }
}

/// The signed 32-bit integer the string `s` denotes: an optional sign
/// followed by at least one digit, whose value fits in `i32`.
pub open spec fn spec_parsed_i32(s: Seq<char>) -> Option<int> {
    if s.len() == 0 {
        None
    } else {
        let sign: int = if s[0] == '-' {
            -1
        } else {
            1
        };
        let digits = s.subrange(spec_sign_len(s), s.len() as int);
        if digits.len() == 0 || !all_digits(digits) {
            None
        } else {
            let v = sign * digits_value(digits);
            if i32::MIN <= v <= i32::MAX {
                Some(v)
            } else {
                None
            }
        }
    }
}

/// A digit string denotes a nonnegative number.
proof fn lemma_digits_value_nonneg(s: Seq<char>)
    requires
        all_digits(s),
    ensures
        digits_value(s) >= 0,
    decreases s.len(),
{
    if s.len() > 0 {
        assert(all_digits(s.drop_last()));
        lemma_digits_value_nonneg(s.drop_last());
    }
}

/// Extending a digit string to the right never shrinks its value.
proof fn lemma_digits_value_prefix(s: Seq<char>, i: int)
    requires
        all_digits(s),
        0 <= i <= s.len(),
    ensures
        digits_value(s.subrange(0, i)) <= digits_value(s),
    decreases s.len() - i,
{
    if i == s.len() {
        assert(s.subrange(0, i) =~= s);
    } else {
        let t = s.subrange(0, i + 1);
        assert(all_digits(t));
        assert(t.drop_last() =~= s.subrange(0, i));
        lemma_digits_value_nonneg(s.subrange(0, i));
        lemma_digits_value_prefix(s, i + 1);
        assert(digits_value(s.subrange(0, i)) <= digits_value(t)) by {
            let v = digits_value(s.subrange(0, i));
            assert(digits_value(t) == 10 * v + (t.last() as u32 - 48));
        }
    }
}

/// Reads a signed decimal 32-bit integer: an optional `+` or `-` followed by
/// at least one digit; anything else, or a value outside `i32`, is refused.
pub fn parse_i32(s: &str) -> (r: Option<i32>)
    ensures
        match r {
            Some(v) => spec_parsed_i32(s@) == Some(v as int),
            None => spec_parsed_i32(s@) == None::<int>,
        },
{
    let len = s.unicode_len();
    if len == 0 {
        return None;
    }
    let c0 = s.get_char(0);
    let negative = c0 == '-';
    let mut i: usize = if c0 == '-' || c0 == '+' {
        1
    } else {
        0
    };
    let ghost start = i as int;
    if i == len {
        return None;
    }
    let ghost digits = s@.subrange(start, len as int);
    let mut acc: i64 = 0;
    while i < len
        invariant
            start <= i <= len,
            0 < len == s@.len(),
            start == spec_sign_len(s@),
            negative == (s@[0] == '-'),
            digits == s@.subrange(start, len as int),
            digits.len() > 0,
            forall|k: int| start <= k < i ==> is_digit(s@[k]),
            acc == digits_value(s@.subrange(start, i as int)),
            0 <= acc <= 0x8000_0000,
        decreases len - i,
    {
        let c = s.get_char(i);
        let d = c as u32;
        if d < 48 || d > 57 {
            proof {
                assert(digits[i - start] == s@[i as int]);
                assert(!all_digits(digits));
            }
            return None;
        }
        let ghost prev = s@.subrange(start, i as int);
        acc = acc * 10 + ((d - 48) as i64);
        i = i + 1;
        proof {
            let cur = s@.subrange(start, i as int);
            assert(cur.drop_last() =~= prev);
            assert(cur.last() == s@[i - 1]);
        }
        if acc > 0x8000_0000 {
            proof {
                if all_digits(digits) {
                    let cur = s@.subrange(start, i as int);
                    assert(cur =~= digits.subrange(0, i - start));
                    lemma_digits_value_prefix(digits, i - start);
                    assert(digits_value(cur) == acc);
                    assert(digits_value(digits.subrange(0, i - start)) <= digits_value(digits));
                    let dv = digits_value(digits);
                    assert(dv > 0x8000_0000);
                    if s@[0] == '-' {
                        assert(-1 * dv == -dv) by (nonlinear_arith);
                        assert(-1 * dv < i32::MIN);
                    } else {
                        assert(1 * dv == dv) by (nonlinear_arith);
                        assert(1 * dv > i32::MAX);
                    }
                }
                assert(spec_parsed_i32(s@) == None::<int>);
            }
            return None;
        }
    }
    proof {
        assert(s@.subrange(start, i as int) =~= digits);
        assert(all_digits(digits));
        assert(acc == digits_value(digits));
        assert(spec_sign_len(s@) == start);
        assert(s@.subrange(spec_sign_len(s@), s@.len() as int) == digits);
    }
    if negative {
        proof {
            assert(spec_parsed_i32(s@) == Some(-1 * digits_value(digits)));
            assert(-1 * digits_value(digits) == -(acc as int));
        }
        Some((-acc) as i32)
    } else {
        if acc > 0x7fff_ffff {
            proof {
                assert(spec_parsed_i32(s@) == None::<int>);
            }
            return None;
        }
        proof {
            assert(spec_parsed_i32(s@) == Some(acc as int));
        }
        Some(acc as i32)
    }
}

/// The screen extent the renderer draws into.
pub struct Config {
    pub screen_width: i32,
    pub screen_height: i32,
}

impl Config {
    /// A configuration with the given screen extent.
    pub fn new(width: i32, height: i32) -> (c: Config)
        ensures
            c.screen_width == width,
            c.screen_height == height,
    {
        Config { screen_width: width, screen_height: height }
    }

    /// Reads the screen extent from the first two arguments after the
    /// program name, each a decimal 32-bit integer.
    pub fn from_args(a: Vec<String>) -> (c: Config)
        requires
            a@.len() >= 3,
            spec_parsed_i32(a@[1]@) is Some,
            spec_parsed_i32(a@[2]@) is Some,
        ensures
            Some(c.screen_width as int) == spec_parsed_i32(a@[1]@),
            Some(c.screen_height as int) == spec_parsed_i32(a@[2]@),
    {
        let w = match parse_i32(a[1].as_str()) {
            Some(v) => v,
            None => unreached(),
        };
        let h = match parse_i32(a[2].as_str()) {
            Some(v) => v,
            None => unreached(),
        };
        Config { screen_width: w, screen_height: h }
    }
}

} // verus!
