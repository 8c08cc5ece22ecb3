//! Parameter interpolation: replacing `${name}` placeholders in mock
//! templates with the values bound to the names.

use vstd::prelude::*;

use crate::text::{chars_of, string_of};

verus! {

/// The pattern occurs in `s` at position `i`.
pub open spec fn match_at(s: Seq<char>, pat: Seq<char>, i: int) -> bool {
    &&& 0 <= i
    &&& i + pat.len() <= s.len()
    &&& s.subrange(i, i + pat.len()) == pat
}

/// The pattern occurs somewhere in `s`.
pub open spec fn occurs(s: Seq<char>, pat: Seq<char>) -> bool {
    exists|i: int| match_at(s, pat, i)
}

/// The two characters every placeholder starts with.
pub open spec fn token() -> Seq<char> {
    seq!['$', '{']
}

/// The template holds a `${` token somewhere.
pub open spec fn has_token(s: Seq<char>) -> bool {
    exists|i: int| match_at(s, token(), i)
}

/// The placeholder text standing for a parameter name.
pub open spec fn placeholder(k: Seq<char>) -> Seq<char> {
    seq!['$', '{'] + k + seq!['}']
}

/// Every occurrence of the pattern replaced by `to`, scanning left to right
/// without overlap; an empty pattern replaces nothing.
pub open spec fn replace_all(s: Seq<char>, pat: Seq<char>, to: Seq<char>) -> Seq<char>
    decreases s.len(),
{
    if pat.len() == 0 || s.len() < pat.len() {
        s
    } else if match_at(s, pat, 0) {
        to + replace_all(s.subrange(pat.len() as int, s.len() as int), pat, to)
    } else {
        seq![s[0]] + replace_all(s.subrange(1, s.len() as int), pat, to)
    }
}

/// The template after substituting each binding in order: for each pair
/// `(k, v)`, every occurrence of `${k}` becomes `v`.
pub open spec fn subst_spec(s: Seq<char>, bs: Seq<(String, String)>) -> Seq<char>
    decreases bs.len(),
{
    if bs.len() == 0 {
        s
    } else {
        subst_spec(replace_all(s, placeholder(bs[0].0@), bs[0].1@), bs.drop_first())
    }
}

/// A non-matching head passes through unchanged.
proof fn lemma_replace_step_nomatch(s: Seq<char>, pat: Seq<char>, to: Seq<char>)
    requires
        pat.len() > 0,
        s.len() > 0,
        !match_at(s, pat, 0),
    ensures
        replace_all(s, pat, to) == seq![s[0]] + replace_all(s.subrange(1, s.len() as int), pat, to),
{
    if s.len() < pat.len() {
        assert(s.subrange(1, s.len() as int).len() < pat.len());
        assert(seq![s[0]] + s.subrange(1, s.len() as int) =~= s);
    }
}

/// A pattern that opens with the token cannot occur in a token-free template.
proof fn lemma_replace_no_token(s: Seq<char>, k: Seq<char>, v: Seq<char>)
    requires
        !has_token(s),
    ensures
        replace_all(s, placeholder(k), v) == s,
    decreases s.len(),
{
    let pat = placeholder(k);
    if s.len() >= pat.len() {
        assert(!match_at(s, pat, 0)) by {
            if match_at(s, pat, 0) {
                assert(s.subrange(0, pat.len() as int) == pat);
                assert(s.subrange(0, pat.len() as int)[0] == s[0]);
                assert(s.subrange(0, pat.len() as int)[1] == s[1]);
                assert(pat[0] == '$' && pat[1] == '{');
                assert(s.subrange(0, 2) =~= token());
                assert(match_at(s, token(), 0));
            }
        }
        let tail = s.subrange(1, s.len() as int);
        assert(!has_token(tail)) by {
            if has_token(tail) {
                let i = choose|i: int| match_at(tail, token(), i);
                assert(s.subrange(i + 1, i + 3) =~= tail.subrange(i, i + 2));
                assert(match_at(s, token(), i + 1));
            }
        }
        lemma_replace_no_token(tail, k, v);
        assert(replace_all(s, pat, v) =~= s) by {
            lemma_replace_step_nomatch(s, pat, v);
        }
    }
}

/// A pattern that occurs nowhere replaces nothing.
proof fn lemma_replace_absent(s: Seq<char>, pat: Seq<char>, to: Seq<char>)
    requires
        pat.len() > 0,
        !occurs(s, pat),
    ensures
        replace_all(s, pat, to) == s,
    decreases s.len(),
{
    if s.len() >= pat.len() {
        assert(!match_at(s, pat, 0));
        let tail = s.subrange(1, s.len() as int);
        assert(!occurs(tail, pat)) by {
            if occurs(tail, pat) {
                let i = choose|i: int| match_at(tail, pat, i);
                assert(s.subrange(i + 1, i + 1 + pat.len()) =~= tail.subrange(
                    i,
                    i + pat.len(),
                ));
                assert(match_at(s, pat, i + 1));
            }
        }
        lemma_replace_absent(tail, pat, to);
        assert(replace_all(s, pat, to) =~= s) by {
            lemma_replace_step_nomatch(s, pat, to);
        }
    }
}

/// Unbound placeholders stay literal: a template in which no bound name's
/// placeholder occurs comes back unchanged, whatever values are bound.
pub proof fn lemma_subst_absent(s: Seq<char>, bs: Seq<(String, String)>)
    requires
        forall|j: int| 0 <= j < bs.len() ==> !occurs(s, placeholder((#[trigger] bs[j]).0@)),
    ensures
        subst_spec(s, bs) == s,
    decreases bs.len(),
{
    if bs.len() > 0 {
        lemma_replace_absent(s, placeholder(bs[0].0@), bs[0].1@);
        assert(forall|j: int|
            0 <= j < bs.drop_first().len() ==> (#[trigger] bs.drop_first()[j]) == bs[j + 1]);
        lemma_subst_absent(s, bs.drop_first());
    }
}

/// Substitution safety: a template without a `${` token comes back unchanged,
/// whatever the bindings are.
pub proof fn lemma_subst_no_token(s: Seq<char>, bs: Seq<(String, String)>)
    requires
        !has_token(s),
    ensures
        subst_spec(s, bs) == s,
    decreases bs.len(),
{
    if bs.len() > 0 {
        lemma_replace_no_token(s, bs[0].0@, bs[0].1@);
        lemma_subst_no_token(s, bs.drop_first());
    }
}

/// Whether the pattern occurs at position `i`.
fn matches_at(s: &Vec<char>, pat: &Vec<char>, i: usize) -> (r: bool)
    requires
        i <= s@.len(),
    ensures
        r == match_at(s@, pat@, i as int),
{
    if pat.len() > s.len() - i {
        return false;
    }
    let n = pat.len();
    let mut j: usize = 0;
    while j < n
        invariant
            j <= n,
            n == pat@.len(),
            i + n <= s@.len(),
            i + n <= usize::MAX,
            forall|q: int| 0 <= q < j ==> s@[i + q] == pat@[q],
        decreases n - j,
    {
        if s[i + j] != pat[j] {
            proof {
                assert(!match_at(s@, pat@, i as int)) by {
                    if match_at(s@, pat@, i as int) {
                        assert(s@.subrange(i as int, i + pat@.len())[j as int] == pat@[j as int]);
                    }
                }
            }
            return false;
        }
        j = j + 1;
    }
    proof {
        assert(s@.subrange(i as int, i + pat@.len()) =~= pat@);
    }
    true
}

/// Every occurrence of the pattern replaced by `to`.
fn replace_chars(s: &Vec<char>, pat: &Vec<char>, to: &Vec<char>) -> (r: Vec<char>)
    requires
        pat@.len() > 0,
    ensures
        r@ == replace_all(s@, pat@, to@),
{
    let mut out: Vec<char> = Vec::new();
    let mut i: usize = 0;
    proof {
        assert(s@.subrange(0, s@.len() as int) =~= s@);
        assert(Seq::<char>::empty() + replace_all(s@, pat@, to@) =~= replace_all(s@, pat@, to@));
    }
    while i < s.len()
        invariant
            i <= s@.len(),
            pat@.len() > 0,
            replace_all(s@, pat@, to@) == out@ + replace_all(
                s@.subrange(i as int, s@.len() as int),
                pat@,
                to@,
            ),
        decreases s@.len() - i,
    {
        let ghost rem = s@.subrange(i as int, s@.len() as int);
        if matches_at(s, pat, i) {
            let ghost out0 = out@;
            let mut j: usize = 0;
            while j < to.len()
                invariant
                    j <= to@.len(),
                    out@ == out0 + to@.subrange(0, j as int),
                decreases to@.len() - j,
            {
                out.push(to[j]);
                j = j + 1;
                proof {
                    assert(out@ =~= out0 + to@.subrange(0, j as int));
                }
            }
            proof {
                assert(to@.subrange(0, to@.len() as int) =~= to@);
                assert(match_at(rem, pat@, 0)) by {
                    assert(rem.subrange(0, pat@.len() as int) =~= s@.subrange(
                        i as int,
                        i + pat@.len(),
                    ));
                }
                assert(rem.subrange(pat@.len() as int, rem.len() as int) =~= s@.subrange(
                    i + pat@.len(),
                    s@.len() as int,
                ));
                assert(out0 + (to@ + replace_all(
                    s@.subrange(i + pat@.len(), s@.len() as int),
                    pat@,
                    to@,
                )) =~= (out0 + to@) + replace_all(
                    s@.subrange(i + pat@.len(), s@.len() as int),
                    pat@,
                    to@,
                ));
            }
            i = i + pat.len();
        } else {
            out.push(s[i]);
            proof {
                assert(!match_at(rem, pat@, 0)) by {
                    if match_at(rem, pat@, 0) {
                        assert(s@.subrange(i as int, i + pat@.len()) =~= rem.subrange(
                            0,
                            pat@.len() as int,
                        ));
                    }
                }
                lemma_replace_step_nomatch(rem, pat@, to@);
                assert(rem.subrange(1, rem.len() as int) =~= s@.subrange(
                    i + 1,
                    s@.len() as int,
                ));
                assert(rem[0] == s@[i as int]);
            }
            i = i + 1;
        }
    }
    proof {
        assert(s@.subrange(i as int, s@.len() as int) =~= Seq::<char>::empty());
        assert(out@ + Seq::<char>::empty() =~= out@);
    }
    out
}

/// The template with every `${name}` placeholder replaced by the value bound
/// to the name, one binding after another in their order.  A template
/// without a `${` token comes back unchanged.
pub fn subst(template: &str, bindings: &Vec<(String, String)>) -> (r: String)
    ensures
        r@ == subst_spec(template@, bindings@),
        !has_token(template@) ==> r@ == template@,
        (forall|j: int|
            0 <= j < bindings@.len() ==> !occurs(
                template@,
                placeholder((#[trigger] bindings@[j]).0@),
            )) ==> r@ == template@,
{
    let mut cur: Vec<char> = chars_of(template);
    let n = bindings.len();
    let mut b: usize = 0;
    proof {
        assert(bindings@.subrange(0, bindings@.len() as int) =~= bindings@);
    }
    while b < n
        invariant
            b <= n,
            n == bindings@.len(),
            subst_spec(template@, bindings@) == subst_spec(
                cur@,
                bindings@.subrange(b as int, bindings@.len() as int),
            ),
        decreases n - b,
    {
        let ghost pending = bindings@.subrange(b as int, bindings@.len() as int);
        let mut pat: Vec<char> = Vec::new();
        pat.push('$');
        pat.push('{');
        let key_chars = chars_of(bindings[b].0.as_str());
        let mut j: usize = 0;
        while j < key_chars.len()
            invariant
                j <= key_chars@.len(),
                key_chars@ == bindings@[b as int].0@,
                b < bindings@.len(),
                pat@ == seq!['$', '{'] + key_chars@.subrange(0, j as int),
            decreases key_chars@.len() - j,
        {
            pat.push(key_chars[j]);
            j = j + 1;
            proof {
                assert(pat@ =~= seq!['$', '{'] + key_chars@.subrange(0, j as int));
            }
        }
        pat.push('}');
        proof {
            assert(key_chars@.subrange(0, key_chars@.len() as int) =~= key_chars@);
            assert(pat@ =~= placeholder(bindings@[b as int].0@));
        }
        let to = chars_of(bindings[b].1.as_str());
        cur = replace_chars(&cur, &pat, &to);
        b = b + 1;
        proof {
            assert(pending[0] == bindings@[b - 1]);
            assert(pending.drop_first() =~= bindings@.subrange(b as int, bindings@.len() as int));
        }
    }
    proof {
        assert(bindings@.subrange(b as int, bindings@.len() as int) =~= Seq::<(
            String,
            String,
        )>::empty());
        if !has_token(template@) {
            lemma_subst_no_token(template@, bindings@);
        }
        if forall|j: int|
            0 <= j < bindings@.len() ==> !occurs(
                template@,
                placeholder((#[trigger] bindings@[j]).0@),
            ) {
            lemma_subst_absent(template@, bindings@);
        }
    }
    string_of(&cur)
}

} // verus!
