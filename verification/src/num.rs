//! Decimal numeric tokens of the wire format.
//!
//! Every numeric payload field travels as decimal ASCII: an optional minus
//! sign, one or more digits, and an optional fractional part introduced by a
//! dot.  `Num` holds one such token.  Keeping the token text itself (rather
//! than a machine float) makes the codec exact: a token decodes to the very
//! bytes that were encoded, and non-finite values ("NaN", "inf") can never
//! enter, because their spellings do not match the grammar.

use vstd::prelude::*;

verus! {

/// Byte value of the ASCII minus sign.
pub const MINUS: u8 = 45;

/// Byte value of the ASCII decimal point.
pub const DOT: u8 = 46;

pub open spec fn is_digit_byte(b: u8) -> bool {
    48 <= b && b <= 57
}

/// Numeric value of one digit byte; meaningful only on digit bytes.
pub open spec fn digit_val(b: u8) -> nat {
    if is_digit_byte(b) {
        (b - 48) as nat
    } else {
        0
    }
}

pub open spec fn all_digit_bytes(s: Seq<u8>) -> bool {
    forall|i: int| 0 <= i < s.len() ==> is_digit_byte(#[trigger] s[i])
}

/// An unsigned integer token: one or more digits.
pub open spec fn is_uint_text(s: Seq<u8>) -> bool {
    s.len() > 0 && all_digit_bytes(s)
}

/// Value of a digit string, most significant digit first.
pub open spec fn uint_val(s: Seq<u8>) -> nat
    decreases s.len(),
{
    if s.len() == 0 {
        0
    } else {
        uint_val(s.drop_last()) * 10 + digit_val(s.last())
    }
}

/// Canonical decimal spelling of `n`, without leading zeros (except "0").
pub open spec fn uint_text(n: nat) -> Seq<u8>
    decreases n,
{
    if n < 10 {
        seq![(48 + n) as u8]
    } else {
        uint_text(n / 10).push((48 + n % 10) as u8)
    }
}

/// Index of the first dot in `s`, or `s.len()` if there is none.
pub open spec fn first_dot(s: Seq<u8>) -> int
    decreases s.len(),
{
    if s.len() == 0 {
        0
    } else if s[0] == DOT {
        0
    } else {
        1 + first_dot(s.skip(1))
    }
}

/// An unsigned numeric token: digits, optionally followed by a dot and more
/// digits.  A token with a dot must have at least one digit on each side,
/// and the digits after the first dot admit no second one.
pub open spec fn is_num_body(s: Seq<u8>) -> bool {
    let d = first_dot(s);
    if d == s.len() {
        is_uint_text(s)
    } else {
        0 < d && d + 1 < s.len() && is_uint_text(s.take(d)) && is_uint_text(s.skip(d + 1))
    }
}

/// A signed numeric token: an optional minus sign before a numeric body.
pub open spec fn is_num_text(s: Seq<u8>) -> bool {
    if s.len() == 0 {
        false
    } else if s[0] == MINUS {
        is_num_body(s.skip(1))
    } else {
        is_num_body(s)
    }
}

pub proof fn lemma_first_dot(s: Seq<u8>)
    ensures
        0 <= first_dot(s) <= s.len(),
        first_dot(s) < s.len() ==> s[first_dot(s)] == DOT,
        forall|i: int| 0 <= i < first_dot(s) ==> s[i] != DOT,
    decreases s.len(),
{
    if s.len() == 0 {
    } else if s[0] == DOT {
    } else {
        lemma_first_dot(s.skip(1));
        let d = first_dot(s);
        assert forall|i: int| 0 <= i < d implies s[i] != DOT by {
            if i > 0 {
                assert(s.skip(1)[i - 1] == s[i]);
            }
        }
        if d < s.len() {
            assert(s.skip(1)[d - 1] == s[d]);
        }
    }
}

pub proof fn lemma_uint_text_wf(n: nat)
    ensures
        is_uint_text(uint_text(n)),
    decreases n,
{
    if n < 10 {
    } else {
        lemma_uint_text_wf(n / 10);
        let t = uint_text(n / 10);
        let b = (48 + n % 10) as u8;
        assert forall|i: int| 0 <= i < t.push(b).len() implies is_digit_byte(#[trigger] t.push(b)[i]) by {
            if i < t.len() {
                assert(t.push(b)[i] == t[i]);
            }
        }
    }
}

pub proof fn lemma_uint_text_val(n: nat)
    ensures
        uint_val(uint_text(n)) == n,
    decreases n,
{
    if n < 10 {
        let t = uint_text(n);
        assert(t.drop_last() =~= Seq::<u8>::empty());
        assert(t.last() == (48 + n) as u8);
        assert(is_digit_byte((48 + n) as u8));
        assert(digit_val((48 + n) as u8) == n);
        assert(uint_val(Seq::<u8>::empty()) == 0);
        assert(uint_val(t) == uint_val(t.drop_last()) * 10 + digit_val(t.last()));
    } else {
        lemma_uint_text_val(n / 10);
        let t = uint_text(n / 10);
        let b = (48 + n % 10) as u8;
        assert(t.push(b).drop_last() =~= t);
        assert(t.push(b).last() == b);
        assert(is_digit_byte(b));
        assert(digit_val(b) == n % 10);
        assert(uint_val(t.push(b)) == uint_val(t) * 10 + digit_val(b));
    }
}

/// The value of a prefix never exceeds the value of the whole digit string.
pub proof fn lemma_uint_val_take_le(s: Seq<u8>, i: int)
    requires
        0 <= i <= s.len(),
    ensures
        uint_val(s.take(i)) <= uint_val(s),
    decreases s.len() - i,
{
    if i == s.len() {
        assert(s.take(i) =~= s);
    } else {
        assert(s.take(i + 1).drop_last() =~= s.take(i));
        assert(s.take(i + 1).last() == s[i]);
        lemma_uint_val_take_le(s, i + 1);
    }
}

fn check_all_digits(s: &Vec<u8>, from: usize, to: usize) -> (r: bool)
    requires
        from <= to <= s@.len(),
    ensures
        r == (forall|i: int| from <= i < to ==> is_digit_byte(#[trigger] s@[i])),
{
    let mut i: usize = from;
    while i < to
        invariant
            from <= i <= to <= s@.len(),
            forall|k: int| from <= k < i ==> is_digit_byte(#[trigger] s@[k]),
        decreases to - i,
    {
        let b = s[i];
        if b < 48 || b > 57 {
            assert(!is_digit_byte(s@[i as int]));
            return false;
        }
        i += 1;
    }
    true
}

/// Decides membership in the numeric-token grammar.
pub fn check_num_text(s: &Vec<u8>) -> (r: bool)
    ensures
        r == is_num_text(s@),
{
    let n = s.len();
    if n == 0 {
        return false;
    }
    let start: usize = if s[0] == MINUS {
        1
    } else {
        0
    };
    let ghost body = s@.skip(start as int);
    proof {
        if start == 0 {
            assert(body =~= s@);
        }
    }
    // Find the first dot at or after `start`.
    let mut d: usize = start;
    while d < n && s[d] != DOT
        invariant
            start <= d <= n,
            n == s@.len(),
            forall|k: int| start <= k < d ==> s@[k] != DOT,
        decreases n - d,
    {
        d += 1;
    }
    proof {
        lemma_first_dot(body);
        assert forall|j: int| 0 <= j < body.len() implies #[trigger] body[j] == s@[j + start] by {}
        // The scan found the first dot of the body.
        if first_dot(body) < d - start {
            assert(s@[first_dot(body) + start] == DOT);
            assert(false);
        }
        if first_dot(body) > d - start {
            assert(d < n);
            assert(body[d - start] == DOT);
            assert(false);
        }
        assert(first_dot(body) == d - start);
    }
    if d == n {
        // No fractional part: the body must be all digits and nonempty.
        let r = start < n && check_all_digits(s, start, n);
        proof {
            assert forall|j: int| 0 <= j < body.len() implies #[trigger] body[j] == s@[j + start] by {}
            if r {
                assert(is_uint_text(body));
            } else if start < n {
                let bad = choose|i: int| start <= i < n && !is_digit_byte(#[trigger] s@[i]);
                assert(body[bad - start] == s@[bad]);
                assert(!all_digit_bytes(body));
            }
        }
        r
    } else {
        // Digits before the dot, digits after it, both nonempty.
        let r = start < d && d + 1 < n && check_all_digits(s, start, d) && check_all_digits(
            s,
            d + 1,
            n,
        );
        proof {
            let bd = (d - start) as int;
            assert forall|j: int| 0 <= j < body.len() implies #[trigger] body[j] == s@[j + start] by {}
            assert(body.take(bd) =~= s@.subrange(start as int, d as int));
            assert(body.skip(bd + 1) =~= s@.subrange(d as int + 1, n as int));
            assert forall|j: int| 0 <= j < bd implies #[trigger] body.take(bd)[j] == s@[j + start] by {}
            assert forall|j: int| 0 <= j < n - d - 1 implies #[trigger] body.skip(bd + 1)[j] == s@[j + d + 1] by {}
            if r {
                assert(is_uint_text(body.take(bd)));
                assert(is_uint_text(body.skip(bd + 1)));
            } else {
                if start < d && d + 1 < n {
                    if !(forall|i: int| start <= i < d ==> is_digit_byte(#[trigger] s@[i])) {
                        let bad = choose|i: int| start <= i < d && !is_digit_byte(#[trigger] s@[i]);
                        assert(body.take(bd)[bad - start] == s@[bad]);
                        assert(!all_digit_bytes(body.take(bd)));
                    } else {
                        let bad = choose|i: int|
                            d + 1 <= i < n && !is_digit_byte(#[trigger] s@[i]);
                        assert(body.skip(bd + 1)[bad - d - 1] == s@[bad]);
                        assert(!all_digit_bytes(body.skip(bd + 1)));
                    }
                }
            }
        }
        r
    }
}

/// One numeric token of the wire format, held as its ASCII text.
pub struct Num {
    text: Vec<u8>,
}

impl View for Num {
    type V = Seq<u8>;

    closed spec fn view(&self) -> Seq<u8> {
        self.text@
    }
}

impl Num {
    pub open spec fn wf(&self) -> bool {
        is_num_text(self@)
    }

    /// Accepts exactly the tokens of the numeric grammar; anything else —
    /// empty input, stray signs, exponents, "NaN", "inf" — is turned away.
    pub fn from_text(text: Vec<u8>) -> (r: Option<Num>)
        ensures
            r matches Some(m) ==> m@ == text@ && m.wf(),
            r is None <==> !is_num_text(text@),
    {
        if check_num_text(&text) {
            Some(Num { text })
        } else {
            None
        }
    }

    pub fn as_text(&self) -> (r: &Vec<u8>)
        ensures
            r@ == self@,
    {
        &self.text
    }
}

impl Clone for Num {
    fn clone(&self) -> (r: Self)
        ensures
            r@ == self@,
    {
        let mut text: Vec<u8> = Vec::new();
        let mut i: usize = 0;
        while i < self.text.len()
            invariant
                i <= self.text@.len(),
                text@ == self.text@.take(i as int),
            decreases self.text@.len() - i,
        {
            text.push(self.text[i]);
            proof {
                assert(self.text@.take(i as int).push(self.text@[i as int]) =~= self.text@.take(
                    i as int + 1,
                ));
            }
            i += 1;
        }
        proof {
            assert(self.text@.take(self.text@.len() as int) =~= self.text@);
        }
        Num { text }
    }
}

/// Parses a digit string into a `usize`; rejects non-digits and overflow.
pub fn parse_usize(s: &Vec<u8>) -> (r: Option<usize>)
    ensures
        r matches Some(v) ==> is_uint_text(s@) && v as nat == uint_val(s@),
        r is None <==> !is_uint_text(s@) || uint_val(s@) > usize::MAX,
{
    let n = s.len();
    if n == 0 {
        return None;
    }
    let mut acc: usize = 0;
    let mut i: usize = 0;
    while i < n
        invariant
            0 <= i <= n,
            n == s@.len(),
            forall|k: int| 0 <= k < i ==> is_digit_byte(#[trigger] s@[k]),
            acc as nat == uint_val(s@.take(i as int)),
        decreases n - i,
    {
        let b = s[i];
        if b < 48 || b > 57 {
            assert(!is_digit_byte(s@[i as int]));
            return None;
        }
        let d = (b - 48) as usize;
        proof {
            assert(s@.take(i as int + 1).drop_last() =~= s@.take(i as int));
            assert(s@.take(i as int + 1).last() == s@[i as int]);
        }
        if acc > (usize::MAX - d) / 10 {
            proof {
                let m = (usize::MAX - d) as int;
                assert(m == 10 * (m / 10) + m % 10);
                assert(acc as int * 10 + d as int > usize::MAX as int);
                lemma_uint_val_take_le(s@, i as int + 1);
            }
            return None;
        }
        acc = acc * 10 + d;
        i += 1;
    }
    proof {
        assert(s@.take(n as int) =~= s@);
    }
    Some(acc)
}

/// Formats `n` as its canonical decimal spelling.
pub fn format_usize(n: usize) -> (r: Vec<u8>)
    ensures
        r@ == uint_text(n as nat),
    decreases n,
{
    if n < 10 {
        let mut v: Vec<u8> = Vec::new();
        v.push(48 + n as u8);
        proof {
            assert(v@ =~= uint_text(n as nat));
        }
        v
    } else {
        let mut v = format_usize(n / 10);
        v.push(48 + (n % 10) as u8);
        proof {
            assert(v@ =~= uint_text(n as nat));
        }
        v
    }
}

} // verus!
