//! Terms for lexical retrieval, string ordering and token estimates.

use crate::text::{ascii_lower_chars, chars_of, is_alnum, is_ascii_alnum, lower_seq, string_of, strings_view};
use vstd::prelude::*;

verus! {

broadcast use vstd::string::group_string_axioms;

// ---------------------------------------------------------------------------
// Tokenizing
// ---------------------------------------------------------------------------

/// The pieces of `s` between characters that are not ASCII letters or
/// digits, empty pieces included (`str::split` on such characters).
pub open spec fn pieces(s: Seq<char>) -> Seq<Seq<char>>
    decreases s.len(),
{
    if s.len() == 0 {
        seq![Seq::empty()]
    } else if !is_alnum(s.last()) {
        pieces(s.drop_last()).push(Seq::empty())
    } else {
        let p = pieces(s.drop_last());
        p.update(p.len() - 1, p.last().push(s.last()))
    }
}

/// A piece long enough to be a term. Pieces hold ASCII characters only, so
/// their length in characters is their length in bytes.
pub open spec fn is_term(p: Seq<char>) -> bool {
    p.len() > 1
}

/// The lowercase terms of a text: its pieces of two or more characters, in
/// order, duplicates kept.
pub open spec fn tokens(s: Seq<char>) -> Seq<Seq<char>> {
    pieces(s).filter(|p: Seq<char>| is_term(p)).map_values(|p: Seq<char>| lower_seq(p))
}

proof fn lemma_pieces_nonempty(s: Seq<char>)
    ensures
        pieces(s).len() >= 1,
    decreases s.len(),
{
    if s.len() > 0 {
        lemma_pieces_nonempty(s.drop_last());
    }
}

proof fn lemma_map_push(s: Seq<Seq<char>>, e: Seq<char>)
    ensures
        s.push(e).map_values(|p: Seq<char>| lower_seq(p)) == s.map_values(|p: Seq<char>| lower_seq(p)).push(
            lower_seq(e),
        ),
{
    assert(s.push(e).map_values(|p: Seq<char>| lower_seq(p)) =~= s.map_values(
        |p: Seq<char>| lower_seq(p),
    ).push(lower_seq(e)));
}

/// The terms of a text: split on every character that is not an ASCII
/// letter or digit, keep pieces longer than one byte, lowercase them.
pub fn tokenize(input: &str) -> (r: Vec<String>)
    ensures
        strings_view(r@) == tokens(input@),
{
    let s = chars_of(input);
    let mut out: Vec<String> = Vec::new();
    let mut cur: Vec<char> = Vec::new();
    let mut i: usize = 0;
    while i < s.len()
        invariant
            i <= s@.len(),
            s@ == input@,
            pieces(s@.take(i as int)).len() >= 1,
            cur@ == pieces(s@.take(i as int)).last(),
            strings_view(out@) == pieces(s@.take(i as int)).drop_last().filter(
                |p: Seq<char>| is_term(p),
            ).map_values(|p: Seq<char>| lower_seq(p)),
        decreases s@.len() - i,
    {
        let c = s[i];
        let ghost prev = s@.take(i as int);
        let ghost pp = pieces(prev);
        assert(s@.take(i + 1).drop_last() == prev);
        assert(s@.take(i + 1).last() == c);
        if is_ascii_alnum(c) {
            cur.push(c);
            proof {
                let np = pieces(s@.take(i + 1));
                assert(np == pp.update(pp.len() - 1, pp.last().push(c)));
                assert(np.drop_last() =~= pp.drop_last());
            }
        } else {
            let ghost before = out@;
            proof {
                let np = pieces(s@.take(i + 1));
                assert(np == pp.push(Seq::empty()));
                assert(np.drop_last() == pp);
                assert(pp == pp.drop_last().push(pp.last()));
                pp.drop_last().lemma_filter_push(pp.last(), |p: Seq<char>| is_term(p));
                lemma_map_push(pp.drop_last().filter(|p: Seq<char>| is_term(p)), pp.last());
            }
            if cur.len() > 1 {
                let lowered = ascii_lower_chars(cur.as_slice());
                let term = string_of(lowered.as_slice());
                out.push(term);
                assert(strings_view(out@) == strings_view(before).push(term@));
            } else {
                assert(strings_view(out@) == strings_view(before));
            }
            cur = Vec::new();
        }
        i += 1;
    }
    let ghost pp = pieces(s@);
    assert(s@.take(s@.len() as int) == s@);
    proof {
        assert(pp == pp.drop_last().push(pp.last()));
        pp.drop_last().lemma_filter_push(pp.last(), |p: Seq<char>| is_term(p));
        lemma_map_push(pp.drop_last().filter(|p: Seq<char>| is_term(p)), pp.last());
    }
    let ghost before = out@;
    if cur.len() > 1 {
        let lowered = ascii_lower_chars(cur.as_slice());
        let term = string_of(lowered.as_slice());
        out.push(term);
        assert(strings_view(out@) == strings_view(before).push(term@));
    }
    out
}

// ---------------------------------------------------------------------------
// String order
// ---------------------------------------------------------------------------

/// Lexicographic order of character sequences, by code point; for valid
/// UTF-8 it agrees with the byte order that `str`'s `Ord` uses.
pub open spec fn lex_lt(a: Seq<char>, b: Seq<char>) -> bool
    decreases a.len(),
{
    if a.len() == 0 {
        b.len() > 0
    } else if b.len() == 0 {
        false
    } else if a[0] != b[0] {
        (a[0] as u32) < (b[0] as u32)
    } else {
        lex_lt(a.drop_first(), b.drop_first())
    }
}

proof fn lemma_char_code_injective(x: char, y: char)
    ensures
        x != y ==> (x as u32) != (y as u32),
{
    vstd::utf8::char_u32_cast(x, x as u32);
    vstd::utf8::char_u32_cast(y, y as u32);
}

/// The string order is a strict total order.
pub proof fn lemma_lex_lt_order(a: Seq<char>, b: Seq<char>, c: Seq<char>)
    ensures
        !lex_lt(a, a),
        a != b ==> lex_lt(a, b) || lex_lt(b, a),
        lex_lt(a, b) ==> !lex_lt(b, a),
        lex_lt(a, b) && lex_lt(b, c) ==> lex_lt(a, c),
    decreases a.len(),
{
    if a.len() > 0 && b.len() > 0 && c.len() > 0 {
        lemma_char_code_injective(a[0], b[0]);
        lemma_char_code_injective(b[0], c[0]);
        lemma_char_code_injective(a[0], c[0]);
        lemma_lex_lt_order(a.drop_first(), b.drop_first(), c.drop_first());
        if a != b && a[0] == b[0] {
            assert(a.drop_first() != b.drop_first()) by {
                if a.drop_first() == b.drop_first() {
                    assert(a =~= seq![a[0]] + a.drop_first());
                    assert(b =~= seq![b[0]] + b.drop_first());
                }
            }
        }
    } else if a.len() > 0 && b.len() > 0 {
        lemma_char_code_injective(a[0], b[0]);
        lemma_lex_lt_order(a.drop_first(), b.drop_first(), b.drop_first());
        if a != b && a[0] == b[0] {
            assert(a.drop_first() != b.drop_first()) by {
                if a.drop_first() == b.drop_first() {
                    assert(a =~= seq![a[0]] + a.drop_first());
                    assert(b =~= seq![b[0]] + b.drop_first());
                }
            }
        }
    } else if a.len() > 0 {
        lemma_lex_lt_order(a.drop_first(), a.drop_first(), a.drop_first());
    } else if b.len() == 0 {
        assert(a =~= b);
    }
}

/// Whether `a` sorts strictly before `b`.
pub fn str_lt(a: &str, b: &str) -> (r: bool)
    ensures
        r == lex_lt(a@, b@),
{
    let va = chars_of(a);
    let vb = chars_of(b);
    let mut i: usize = 0;
    assert(va@.skip(0) == va@ && vb@.skip(0) == vb@);
    while i < va.len() && i < vb.len()
        invariant
            va@ == a@,
            vb@ == b@,
            i <= va@.len(),
            i <= vb@.len(),
            va@.take(i as int) == vb@.take(i as int),
            lex_lt(va@, vb@) == lex_lt(va@.skip(i as int), vb@.skip(i as int)),
        decreases va@.len() - i,
    {
        if va[i] != vb[i] {
            proof {
                assert(va@.skip(i as int)[0] == va@[i as int]);
                assert(vb@.skip(i as int)[0] == vb@[i as int]);
                assert(va@.skip(i as int).len() > 0 && vb@.skip(i as int).len() > 0);
                assert(lex_lt(va@.skip(i as int), vb@.skip(i as int)) == ((va@[i as int] as u32) < (vb@[i as int] as u32)));
            }
            let x = va[i] as u32;
            let y = vb[i] as u32;
            assert(x == va@[i as int] as u32);
            return x < y;
        }
        proof {
            assert(va@.skip(i as int).drop_first() == va@.skip(i + 1));
            assert(vb@.skip(i as int).drop_first() == vb@.skip(i + 1));
            assert(va@.take(i + 1) == va@.take(i as int).push(va@[i as int]));
            assert(vb@.take(i + 1) == vb@.take(i as int).push(vb@[i as int]));
        }
        i += 1;
    }
    proof {
        assert(va@.skip(i as int).len() == va@.len() - i);
        assert(vb@.skip(i as int).len() == vb@.len() - i);
    }
    i < vb.len()
}

// ---------------------------------------------------------------------------
// Token estimates
// ---------------------------------------------------------------------------

/// A rough token count for text of `bytes` UTF-8 bytes: a quarter of the
/// bytes, and at least one.
pub open spec fn token_estimate(bytes: nat) -> nat {
    if bytes / 4 < 1 {
        1
    } else {
        bytes / 4
    }
}

/// Estimated tokens of a text: its UTF-8 length divided by four, at least one.
pub fn estimate_tokens(text: &str) -> (r: usize)
    ensures
        r == token_estimate(text.len() as nat),
{
    let n = text.len() / 4;
    if n < 1 {
        1
    } else {
        n
    }
}

} // verus!
