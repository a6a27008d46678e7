//! Verified text utilities: lexicographic ordering on character sequences,
//! substring replacement, and decimal formatting.

use vstd::prelude::*;

verus! {

/// Strict lexicographic order on character sequences, by Unicode scalar value.
pub open spec fn seq_char_lt(a: Seq<char>, b: Seq<char>) -> bool
    decreases a.len(),
{
    if b.len() == 0 {
        false
    } else if a.len() == 0 {
        true
    } else if a[0] == b[0] {
        seq_char_lt(a.drop_first(), b.drop_first())
    } else {
        (a[0] as int) < (b[0] as int)
    }
}

/// Non-strict lexicographic order on character sequences.
pub open spec fn seq_char_leq(a: Seq<char>, b: Seq<char>) -> bool {
    seq_char_lt(a, b) || a == b
}

/// The strict order is irreflexive.
pub proof fn lemma_seq_char_lt_irreflexive(a: Seq<char>)
    ensures
        !seq_char_lt(a, a),
    decreases a.len(),
{
    if a.len() > 0 {
        lemma_seq_char_lt_irreflexive(a.drop_first());
    }
}

/// Exactly one of `a < b`, `a == b`, `b < a` holds.
pub proof fn lemma_seq_char_lt_connected(a: Seq<char>, b: Seq<char>)
    ensures
        seq_char_lt(a, b) || seq_char_lt(b, a) || a == b,
    decreases a.len(),
{
    if a.len() == 0 {
        if b.len() == 0 {
            assert(a =~= b);
        }
    } else if b.len() == 0 {
    } else if a[0] == b[0] {
        lemma_seq_char_lt_connected(a.drop_first(), b.drop_first());
        if a.drop_first() == b.drop_first() {
            assert(a.drop_first().len() == b.drop_first().len());
            assert(a.len() == b.len());
            assert forall|i: int| 0 <= i < a.len() implies a[i] == b[i] by {
                if i > 0 {
                    assert(a[i] == a.drop_first()[i - 1]);
                    assert(b[i] == b.drop_first()[i - 1]);
                }
            }
            assert(a =~= b);
        }
    }
}

/// The strict order is asymmetric.
pub proof fn lemma_seq_char_lt_asymmetric(a: Seq<char>, b: Seq<char>)
    requires
        seq_char_lt(a, b),
    ensures
        !seq_char_lt(b, a),
    decreases a.len(),
{
    if a.len() > 0 && b.len() > 0 && a[0] == b[0] {
        lemma_seq_char_lt_asymmetric(a.drop_first(), b.drop_first());
    }
}

/// The strict order is transitive.
pub proof fn lemma_seq_char_lt_transitive(a: Seq<char>, b: Seq<char>, c: Seq<char>)
    requires
        seq_char_lt(a, b),
        seq_char_lt(b, c),
    ensures
        seq_char_lt(a, c),
    decreases a.len(),
{
    if c.len() > 0 && b.len() > 0 && a.len() > 0 {
        if a[0] == b[0] && b[0] == c[0] {
            lemma_seq_char_lt_transitive(a.drop_first(), b.drop_first(), c.drop_first());
        }
    }
}

/// Replace every occurrence of `pat` in `s` with `rep`, scanning left to
/// right without revisiting replaced text.
pub open spec fn spec_replace(s: Seq<char>, pat: Seq<char>, rep: Seq<char>) -> Seq<char>
    decreases s.len(),
{
    if s.len() == 0 {
        s
    } else if 1 <= pat.len() <= s.len() && s.subrange(0, pat.len() as int) == pat {
        rep + spec_replace(s.skip(pat.len() as int), pat, rep)
    } else {
        seq![s[0]] + spec_replace(s.drop_first(), pat, rep)
    }
}

/// The decimal digit character for a value below ten.
pub open spec fn spec_digit(d: nat) -> char {
    if d == 0 {
        '0'
    } else if d == 1 {
        '1'
    } else if d == 2 {
        '2'
    } else if d == 3 {
        '3'
    } else if d == 4 {
        '4'
    } else if d == 5 {
        '5'
    } else if d == 6 {
        '6'
    } else if d == 7 {
        '7'
    } else if d == 8 {
        '8'
    } else {
        '9'
    }
}

/// The decimal representation of `n`, without leading zeros.
pub open spec fn spec_decimal(n: nat) -> Seq<char>
    decreases n,
{
    if n < 10 {
        seq![spec_digit(n)]
    } else {
        spec_decimal(n / 10) + seq![spec_digit(n % 10)]
    }
}

/// Whether `pat` occurs in `s` starting at position `i`.
fn matches_at(s: &str, i: usize, pat: &str) -> (r: bool)
    requires
        i + pat@.len() <= s@.len(),
    ensures
        r <==> s@.subrange(i as int, i + pat@.len()) == pat@,
{
    let plen = pat.unicode_len();
    let slen = s.unicode_len();
    let mut k: usize = 0;
    while k < plen
        invariant
            plen == pat@.len(),
            slen == s@.len(),
            i + plen <= s@.len(),
            k <= plen,
            forall|j: int| 0 <= j < k ==> s@[i + j] == pat@[j],
        decreases plen - k,
    {
        if s.get_char(i + k) != pat.get_char(k) {
            proof {
                assert(s@.subrange(i as int, i + pat@.len())[k as int] != pat@[k as int]);
            }
            return false;
        }
        k = k + 1;
    }
    proof {
        assert(s@.subrange(i as int, i + pat@.len()) =~= pat@);
    }
    true
}

/// Replace every occurrence of `pat` in `s` with `rep`.
pub fn replace_all(s: &str, pat: &str, rep: &str) -> (r: String)
    requires
        pat@.len() >= 1,
    ensures
        r@ == spec_replace(s@, pat@, rep@),
{
    let slen = s.unicode_len();
    let plen = pat.unicode_len();
    let mut out = String::new();
    let mut i: usize = 0;
    proof {
        assert(s@.skip(0) =~= s@);
    }
    while i < slen
        invariant
            slen == s@.len(),
            plen == pat@.len(),
            plen >= 1,
            i <= slen,
            spec_replace(s@, pat@, rep@) == out@ + spec_replace(s@.skip(i as int), pat@, rep@),
        decreases slen - i,
    {
        let ghost suf = s@.skip(i as int);
        proof {
            assert(suf.len() == slen - i);
        }
        if plen <= slen - i && matches_at(s, i, pat) {
            out.append(rep);
            proof {
                assert(suf.subrange(0, plen as int) =~= s@.subrange(i as int, i + plen));
                assert(suf.skip(plen as int) =~= s@.skip(i + plen));
                assert(spec_replace(suf, pat@, rep@) == rep@ + spec_replace(
                    s@.skip(i + plen),
                    pat@,
                    rep@,
                ));
            }
            i = i + plen;
        } else {
            let piece = s.substring_char(i, i + 1);
            out.append(piece);
            proof {
                assert(suf[0] == s@[i as int]);
                assert(piece@ =~= seq![suf[0]]);
                if plen <= slen - i {
                    assert(suf.subrange(0, plen as int) =~= s@.subrange(i as int, i + plen));
                    assert(suf.subrange(0, plen as int) != pat@);
                }
                assert(suf.drop_first() =~= s@.skip(i + 1));
                assert(spec_replace(suf, pat@, rep@) == seq![suf[0]] + spec_replace(
                    s@.skip(i + 1),
                    pat@,
                    rep@,
                ));
            }
            i = i + 1;
        }
    }
    proof {
        assert(s@.skip(slen as int) =~= Seq::<char>::empty());
        assert(out@ + spec_replace(s@.skip(slen as int), pat@, rep@) =~= out@);
    }
    out
}

/// The one-character string for a decimal digit.
fn digit_str(d: usize) -> (r: &'static str)
    requires
        d < 10,
    ensures
        r@ == seq![spec_digit(d as nat)],
{
    proof {
        reveal_strlit("0");
        reveal_strlit("1");
        reveal_strlit("2");
        reveal_strlit("3");
        reveal_strlit("4");
        reveal_strlit("5");
        reveal_strlit("6");
        reveal_strlit("7");
        reveal_strlit("8");
        reveal_strlit("9");
    }
    let r: &'static str = if d == 0 {
        "0"
    } else if d == 1 {
        "1"
    } else if d == 2 {
        "2"
    } else if d == 3 {
        "3"
    } else if d == 4 {
        "4"
    } else if d == 5 {
        "5"
    } else if d == 6 {
        "6"
    } else if d == 7 {
        "7"
    } else if d == 8 {
        "8"
    } else {
        "9"
    };
    proof {
        assert(r@ =~= seq![spec_digit(d as nat)]);
    }
    r
}

/// Format `n` in decimal.
pub fn format_decimal(n: usize) -> (r: String)
    ensures
        r@ == spec_decimal(n as nat),
    decreases n,
{
    if n < 10 {
        let mut out = String::new();
        out.append(digit_str(n));
        proof {
            assert(out@ =~= spec_decimal(n as nat));
        }
        out
    } else {
        let mut out = format_decimal(n / 10);
        out.append(digit_str(n % 10));
        out
    }
}

/// Whether the characters of `a` and `b` agree; used to compare `&str`
/// values without trusting anything beyond character access.
pub fn str_eq(a: &str, b: &str) -> (r: bool)
    ensures
        r <==> a@ == b@,
{
    let alen = a.unicode_len();
    let blen = b.unicode_len();
    if alen != blen {
        proof {
            assert(a@ != b@);
        }
        return false;
    }
    let mut i: usize = 0;
    while i < alen
        invariant
            alen == a@.len(),
            alen == b@.len(),
            i <= alen,
            forall|k: int| 0 <= k < i ==> a@[k] == b@[k],
        decreases alen - i,
    {
        if a.get_char(i) != b.get_char(i) {
            proof {
                assert(a@[i as int] != b@[i as int]);
            }
            return false;
        }
        i = i + 1;
    }
    proof {
        assert(a@ =~= b@);
    }
    true
}

/// Whether `a` comes strictly before `b` in lexicographic order.
pub fn str_lt(a: &str, b: &str) -> (r: bool)
    ensures
        r == seq_char_lt(a@, b@),
{
    let alen = a.unicode_len();
    let blen = b.unicode_len();
    let mut i: usize = 0;
    proof {
        assert(a@.skip(0) =~= a@);
        assert(b@.skip(0) =~= b@);
    }
    loop
        invariant
            alen == a@.len(),
            blen == b@.len(),
            i <= alen,
            i <= blen,
            forall|k: int| 0 <= k < i ==> a@[k] == b@[k],
            seq_char_lt(a@, b@) == seq_char_lt(a@.skip(i as int), b@.skip(i as int)),
        decreases alen - i,
    {
        if i >= blen {
            proof {
                assert(!seq_char_lt(a@.skip(i as int), b@.skip(i as int)));
            }
            return false;
        }
        if i >= alen {
            proof {
                assert(b@.skip(i as int).len() > 0);
            }
            return true;
        }
        let ca = a.get_char(i);
        let cb = b.get_char(i);
        if ca != cb {
            proof {
                assert(a@.skip(i as int)[0] == a@[i as int]);
                assert(b@.skip(i as int)[0] == b@[i as int]);
                assert(a@.skip(i as int).len() > 0 && b@.skip(i as int).len() > 0);
            }
            return (ca as u32) < (cb as u32);
        }
        proof {
            assert(a@.skip(i as int)[0] == a@[i as int]);
            assert(b@.skip(i as int)[0] == b@[i as int]);
            assert(a@.skip(i as int).drop_first() =~= a@.skip(i + 1));
            assert(b@.skip(i as int).drop_first() =~= b@.skip(i + 1));
        }
        i = i + 1;
    }
}

} // verus!
