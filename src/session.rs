use vstd::prelude::*;

verus! {

/// The caller's identity, recovered from the session cookie.
#[derive(Clone, Copy, Debug, PartialEq, Eq, Structural)]
pub struct AuthorizedDiscord {
    pub id: u64,
}

pub open spec fn is_digit(c: char) -> bool {
    '0' <= c <= '9'
}

/// Value of a run of decimal digits.
pub open spec fn digits_value(s: Seq<char>) -> nat
    decreases s.len(),
{
    if s.len() == 0 {
        0
    } else {
        digits_value(s.drop_last()) * 10 + (s.last() as nat - '0' as nat) as nat
    }
}

/// The digits of an unsigned decimal: the text after an optional `+`.
pub open spec fn unsigned_digits(s: Seq<char>) -> Seq<char> {
    if s.len() > 0 && s[0] == '+' {
        s.drop_first()
    } else {
        s
    }
}

/// The text read as an unsigned decimal that fits in 64 bits: an optional
/// `+` and one or more digits.
pub open spec fn decimal_u64(s: Seq<char>) -> Option<u64> {
    let d = unsigned_digits(s);
    if d.len() > 0 && (forall|i: int| 0 <= i < d.len() ==> is_digit(#[trigger] d[i])) && digits_value(d)
        <= u64::MAX {
        Some(digits_value(d) as u64)
    } else {
        None
    }
}

proof fn lemma_digits_value_grows(s: Seq<char>, k: int)
    requires
        0 <= k <= s.len(),
        forall|i: int| 0 <= i < s.len() ==> is_digit(#[trigger] s[i]),
    ensures
        digits_value(s.subrange(0, k)) <= digits_value(s),
    decreases s.len() - k,
{
    if k < s.len() {
        let t = s.subrange(0, k + 1);
        assert(t.drop_last() =~= s.subrange(0, k));
        lemma_digits_value_grows(s, k + 1);
    } else {
        assert(s.subrange(0, k) =~= s);
    }
}

/// Reads a user id: an optional `+` and one or more decimal digits whose
/// value fits in 64 bits.
pub fn parse_user_id(text: &str) -> (r: Option<u64>)
    ensures
        r == decimal_u64(text@),
{
    let len = text.unicode_len();
    let mut start: usize = 0;
    if len > 0 && text.get_char(0) == '+' {
        start = 1;
    }
    let ghost d = unsigned_digits(text@);
    assert(d =~= text@.subrange(start as int, len as int));
    if start == len {
        return None;
    }
    let mut value: u64 = 0;
    let mut i: usize = start;
    while i < len
        invariant
            len == text@.len(),
            d == text@.subrange(start as int, len as int),
            d == unsigned_digits(text@),
            start < len,
            start <= i <= len,
            forall|k: int| 0 <= k < i - start ==> is_digit(#[trigger] d[k]),
            value as nat == digits_value(d.subrange(0, i - start)),
        decreases len - i,
    {
        let c = text.get_char(i);
        assert(c == d[i - start]);
        if !('0' <= c && c <= '9') {
            assert(!is_digit(d[i - start]));
            return None;
        }
        let digit = (c as u32 - '0' as u32) as u64;
        assert(d.subrange(0, i + 1 - start).drop_last() =~= d.subrange(0, i - start));
        match value.checked_mul(10) {
            None => {
                proof {
                    lemma_too_large(d, i - start);
                }
                return None;
            },
            Some(tens) => match tens.checked_add(digit) {
                None => {
                    proof {
                        lemma_too_large(d, i - start);
                    }
                    return None;
                },
                Some(next) => {
                    value = next;
                },
            },
        }
        i += 1;
    }
    assert(d.subrange(0, len - start) =~= d);
    Some(value)
}

proof fn lemma_too_large(d: Seq<char>, k: int)
    requires
        0 <= k < d.len(),
        is_digit(d[k]),
        digits_value(d.subrange(0, k + 1)) > u64::MAX,
    ensures
        forall|s: Seq<char>| unsigned_digits(s) == d ==> #[trigger] decimal_u64(s) is None,
{
    if forall|i: int| 0 <= i < d.len() ==> is_digit(#[trigger] d[i]) {
        lemma_digits_value_grows(d, k + 1);
    }
}

/// What the session guard makes of a request: the identity, if any, and
/// whether the cookie has to be cleared from the response.
#[derive(Clone, Copy, Debug, PartialEq, Eq, Structural)]
pub struct SessionOutcome {
    pub identity: Option<AuthorizedDiscord>,
    pub clear_cookie: bool,
}

/// Reads the session cookie. No cookie is an anonymous caller; a cookie that
/// is not a user id is also anonymous, and is cleared.
pub fn session_from_cookie(cookie: Option<&str>) -> (r: SessionOutcome)
    ensures
        match cookie {
            None => r == SessionOutcome { identity: None, clear_cookie: false },
            Some(value) => match decimal_u64(value@) {
                Some(id) => r == SessionOutcome { identity: Some(AuthorizedDiscord { id }), clear_cookie: false },
                None => r == SessionOutcome { identity: None, clear_cookie: true },
            },
        },
{
    match cookie {
        None => SessionOutcome { identity: None, clear_cookie: false },
        Some(value) => match parse_user_id(value) {
            Some(id) => SessionOutcome { identity: Some(AuthorizedDiscord { id }), clear_cookie: false },
            None => SessionOutcome { identity: None, clear_cookie: true },
        },
    }
}

} // verus!
