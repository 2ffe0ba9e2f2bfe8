//! Payload framing: space-separated tokens closed by a newline.
//!
//! After its four-byte tag, every frame carries ` token` groups and a final
//! newline.  `split_payload` is the reference parser for that shape, and
//! `payload_of` the reference printer; the lemmas here show that printing a
//! token list and splitting it again returns the same list, which is what
//! the codec's round trip rests on.

use vstd::prelude::*;

verus! {

/// Byte value of the ASCII space.
pub const SP: u8 = 32;

/// Byte value of the ASCII line feed.
pub const NL: u8 = 10;

/// Bytes that close a token: the separator and the frame terminator.
pub open spec fn is_sep(b: u8) -> bool {
    b == SP || b == NL
}

/// A token: at least one byte, none of which separates.
pub open spec fn token_ok(t: Seq<u8>) -> bool {
    t.len() > 0 && forall|i: int| 0 <= i < t.len() ==> !is_sep(#[trigger] t[i])
}

/// Length of the longest separator-free prefix of `s`.
pub open spec fn token_len(s: Seq<u8>) -> int
    decreases s.len(),
{
    if s.len() == 0 {
        0
    } else if is_sep(s[0]) {
        0
    } else {
        1 + token_len(s.skip(1))
    }
}

pub proof fn lemma_token_len(s: Seq<u8>)
    ensures
        0 <= token_len(s) <= s.len(),
        token_len(s) < s.len() ==> is_sep(s[token_len(s)]),
        forall|i: int| 0 <= i < token_len(s) ==> !is_sep(#[trigger] s[i]),
    decreases s.len(),
{
    if s.len() == 0 {
    } else if is_sep(s[0]) {
    } else {
        lemma_token_len(s.skip(1));
        let l = token_len(s);
        assert forall|i: int| 0 <= i < l implies !is_sep(#[trigger] s[i]) by {
            if i > 0 {
                assert(s.skip(1)[i - 1] == s[i]);
            }
        }
        if l < s.len() {
            assert(s.skip(1)[l - 1] == s[l]);
        }
    }
}

/// Splits `s` into its tokens, if `s` has the payload shape; `None` on
/// anything else (no terminator, doubled separators, bytes past the
/// newline, an empty token).
pub open spec fn split_payload(s: Seq<u8>) -> Option<Seq<Seq<u8>>>
    decreases s.len(),
    via split_payload_dec
{
    if s.len() == 0 {
        None
    } else if s[0] == NL {
        if s.len() == 1 {
            Some(Seq::<Seq<u8>>::empty())
        } else {
            None
        }
    } else if s[0] != SP {
        None
    } else {
        let l = token_len(s.skip(1));
        if l == 0 {
            None
        } else {
            match split_payload(s.skip(1 + l)) {
                Some(ts) => Some(Seq::<Seq<u8>>::empty().push(s.subrange(1, 1 + l)) + ts),
                None => None,
            }
        }
    }
}

#[via_fn]
proof fn split_payload_dec(s: Seq<u8>) {
    if s.len() > 0 && s[0] != NL && s[0] == SP {
        lemma_token_len(s.skip(1));
    }
}

/// Prints a token list in payload shape: one ` token` group per token,
/// then the newline.
pub open spec fn payload_of(ts: Seq<Seq<u8>>) -> Seq<u8>
    decreases ts.len(),
{
    if ts.len() == 0 {
        seq![NL]
    } else {
        seq![SP] + ts[0] + payload_of(ts.skip(1))
    }
}

pub proof fn lemma_payload_of_starts_sep(ts: Seq<Seq<u8>>)
    ensures
        payload_of(ts).len() >= 1,
        is_sep(payload_of(ts)[0]),
{
    if ts.len() == 0 {
    } else {
        assert(payload_of(ts)[0] == SP);
    }
}

/// Splitting an printed payload returns exactly the tokens it was printed
/// from.
pub proof fn lemma_split_payload_of(ts: Seq<Seq<u8>>)
    requires
        forall|k: int| 0 <= k < ts.len() ==> token_ok(#[trigger] ts[k]),
    ensures
        split_payload(payload_of(ts)) == Some(ts),
    decreases ts.len(),
{
    if ts.len() == 0 {
        let s = payload_of(ts);
        assert(s =~= seq![NL]);
        assert(s[0] == NL && s.len() == 1);
        assert(split_payload(s) == Some(Seq::<Seq<u8>>::empty()));
        assert(ts =~= Seq::<Seq<u8>>::empty());
    } else {
        let t = ts[0];
        let rest = payload_of(ts.skip(1));
        let s = payload_of(ts);
        assert(s == seq![SP] + t + rest);
        lemma_payload_of_starts_sep(ts.skip(1));
        assert(token_ok(t));
        // The token scan stops exactly at the end of `t`.
        assert(s.skip(1) =~= t + rest);
        assert forall|i: int| 0 <= i < t.len() implies !is_sep(#[trigger] (t + rest)[i]) by {
            assert((t + rest)[i] == t[i]);
        }
        assert((t + rest)[t.len() as int] == rest[0]);
        lemma_token_len(t + rest);
        let l = token_len(t + rest);
        if l < t.len() {
            assert(!is_sep((t + rest)[l]));
            assert(false);
        }
        if l > t.len() {
            assert(!is_sep((t + rest)[t.len() as int]));
            assert(false);
        }
        assert(l == t.len());
        assert(s[0] == SP);
        assert(s.len() > 1);
        assert(s[0] != NL);
        assert(s.subrange(1, 1 + l) =~= t);
        assert(s.skip(1 + l) =~= rest);
        lemma_split_payload_of(ts.skip(1));
        assert(split_payload(rest) == Some(ts.skip(1)));
        assert(split_payload(s) == Some(Seq::<Seq<u8>>::empty().push(t) + ts.skip(1)));
        assert(Seq::<Seq<u8>>::empty().push(t) + ts.skip(1) =~= ts);
    }
}

/// Collects what `split_payload` yields past a prefix already split off.
pub open spec fn opt_append(pre: Seq<Seq<u8>>, r: Option<Seq<Seq<u8>>>) -> Option<Seq<Seq<u8>>> {
    match r {
        Some(ts) => Some(pre + ts),
        None => None,
    }
}

/// Splits the payload part of `frame` (everything from `from` on) into its
/// tokens.
pub fn tokenize(frame: &Vec<u8>, from: usize) -> (r: Option<Vec<Vec<u8>>>)
    requires
        from <= frame@.len(),
    ensures
        match r {
            Some(ts) => split_payload(frame@.skip(from as int)) == Some(ts.deep_view()),
            None => split_payload(frame@.skip(from as int)) is None,
        },
{
    let n = frame.len();
    let mut pos = from;
    let mut toks: Vec<Vec<u8>> = Vec::new();
    loop
        invariant
            from <= pos <= n,
            n == frame@.len(),
            split_payload(frame@.skip(from as int)) == opt_append(
                toks.deep_view(),
                split_payload(frame@.skip(pos as int)),
            ),
        decreases n - pos,
    {
        proof {
            assert(toks.deep_view() + Seq::<Seq<u8>>::empty() =~= toks.deep_view());
        }
        if pos >= n {
            return None;
        }
        let b = frame[pos];
        let ghost s = frame@.skip(pos as int);
        if b == NL {
            if pos + 1 == n {
                proof {
                    assert(s.len() == 1 && s[0] == NL);
                    assert(split_payload(s) == Some(Seq::<Seq<u8>>::empty()));
                }
                return Some(toks);
            } else {
                proof {
                    assert(s[0] == NL && s.len() != 1);
                }
                return None;
            }
        }
        if b != SP {
            proof {
                assert(s[0] == b);
            }
            return None;
        }
        // Scan the token that must follow the separator.
        let start = pos + 1;
        let mut end = start;
        while end < n && frame[end] != SP && frame[end] != NL
            invariant
                start <= end <= n,
                n == frame@.len(),
                forall|k: int| start <= k < end ==> !is_sep(#[trigger] frame@[k]),
            decreases n - end,
        {
            end += 1;
        }
        proof {
            let tail = frame@.skip(start as int);
            lemma_token_len(tail);
            assert forall|j: int| 0 <= j < tail.len() implies #[trigger] tail[j] == frame@[j
                + start] by {}
            if token_len(tail) < end - start {
                assert(is_sep(frame@[token_len(tail) + start]));
                assert(false);
            }
            if token_len(tail) > end - start {
                assert(end < n);
                assert(!is_sep(tail[end - start]));
                assert(is_sep(frame@[end as int]));
                assert(false);
            }
            assert(token_len(tail) == end - start);
            assert(s.skip(1) =~= tail);
        }
        if end == start {
            proof {
                assert(token_len(s.skip(1)) == 0);
                assert(s[0] == SP && s.len() > 0 && s[0] != NL);
            }
            return None;
        }
        // Copy the token out of the frame.
        let mut t: Vec<u8> = Vec::new();
        let mut k = start;
        while k < end
            invariant
                start <= k <= end <= n,
                n == frame@.len(),
                t@ == frame@.subrange(start as int, k as int),
            decreases n - k,
        {
            t.push(frame[k]);
            proof {
                assert(frame@.subrange(start as int, k as int).push(frame@[k as int])
                    =~= frame@.subrange(start as int, k as int + 1));
            }
            k += 1;
        }
        let ghost pre_dv = toks.deep_view();
        proof {
            let l = (end - start) as int;
            assert(s.subrange(1, 1 + l) =~= frame@.subrange(start as int, end as int));
            assert(t@ == s.subrange(1, 1 + l));
            assert(s.skip(1 + l) =~= frame@.skip(end as int));
            assert(split_payload(s) == opt_append(
                Seq::<Seq<u8>>::empty().push(t@),
                split_payload(frame@.skip(end as int)),
            ));
        }
        toks.push(t);
        proof {
            assert(t.deep_view() =~= t@);
            assert(toks.deep_view() =~= pre_dv.push(t@));
            // Re-associate the prefix for the loop invariant.
            match split_payload(frame@.skip(end as int)) {
                Some(ts) => {
                    assert(pre_dv + (Seq::<Seq<u8>>::empty().push(t@) + ts) =~= pre_dv.push(t@)
                        + ts);
                },
                None => {},
            }
        }
        pos = end;
    }
}

} // verus!
