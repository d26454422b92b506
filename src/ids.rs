use vstd::prelude::*;

verus! {

pub open spec fn is_digit(c: char) -> bool {
    '0' <= c && c <= '9'
}

pub open spec fn digit_value(c: char) -> int {
    c as int - '0' as int
}

/// Whether the text is a non-empty run of decimal digits.
pub open spec fn is_decimal(s: Seq<char>) -> bool {
    s.len() > 0 && forall|i: int| 0 <= i < s.len() ==> is_digit(#[trigger] s[i])
}

/// The number that a run of decimal digits spells.
pub open spec fn decimal_value(s: Seq<char>) -> int
    decreases s.len(),
{
    if s.len() == 0 {
        0
    } else {
        decimal_value(s.drop_last()) * 10 + digit_value(s.last())
    }
}

/// The id that the text spells, when it is a decimal number that fits in 64 bits.
pub open spec fn parsed_id(s: Seq<char>) -> Option<u64> {
    if is_decimal(s) && decimal_value(s) <= u64::MAX {
        Some(decimal_value(s) as u64)
    } else {
        None
    }
}

proof fn lemma_decimal_value_nonneg(s: Seq<char>)
    requires
        forall|i: int| 0 <= i < s.len() ==> is_digit(#[trigger] s[i]),
    ensures
        decimal_value(s) >= 0,
    decreases s.len(),
{
    if s.len() > 0 {
        lemma_decimal_value_nonneg(s.drop_last());
    }
}

/// Reads a platform id (a role or an emoji id) from its decimal text.
pub fn parse_id(s: &String) -> (r: Option<u64>)
    ensures
        r == parsed_id(s@),
{
    let n = s.as_str().unicode_len();
    if n == 0 {
        return None;
    }
    let mut value: u64 = 0;
    let mut fits = true;
    let mut i: usize = 0;
    while i < n
        invariant
            n == s@.len(),
            i <= n,
            forall|j: int| 0 <= j < i ==> is_digit(#[trigger] s@[j]),
            fits ==> value == decimal_value(s@.subrange(0, i as int)),
            !fits ==> decimal_value(s@.subrange(0, i as int)) > u64::MAX,
        decreases n - i,
    {
        let c = s.as_str().get_char(i);
        if c < '0' || c > '9' {
            assert(!is_decimal(s@));
            return None;
        }
        let d = (c as u32 - '0' as u32) as u64;
        let ghost prefix = s@.subrange(0, i as int);
        let ghost next = s@.subrange(0, i as int + 1);
        assert(next.drop_last() == prefix);
        assert(next.last() == c);
        proof {
            lemma_decimal_value_nonneg(prefix);
        }
        if fits {
            match value.checked_mul(10) {
                Some(m) => match m.checked_add(d) {
                    Some(v) => {
                        value = v;
                    },
                    None => {
                        fits = false;
                    },
                },
                None => {
                    fits = false;
                },
            }
        }
        i = i + 1;
    }
    assert(s@.subrange(0, n as int) == s@);
    if fits {
        Some(value)
    } else {
        None
    }
}

} // verus!
