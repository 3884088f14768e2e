//! Character-level string operations used to build, clean and split paths.

use vstd::prelude::*;

verus! {

/// Characters of `s` split at every occurrence of `sep`, as `str::split`
/// with a `char` pattern yields them: empty pieces are kept, and an empty
/// string gives one empty piece.
pub open spec fn split_spec(s: Seq<char>, sep: char) -> Seq<Seq<char>>
    decreases s.len(),
{
    if s.len() == 0 {
        seq![Seq::<char>::empty()]
    } else {
        let prev = split_spec(s.drop_last(), sep);
        if s.last() == sep {
            prev.push(Seq::<char>::empty())
        } else {
            prev.update(prev.len() - 1, prev.last().push(s.last()))
        }
    }
}

/// `s` with every non-overlapping occurrence of `pat`, taken from the left,
/// replaced by `to`, as `str::replace` does for a non-empty pattern.
pub open spec fn replace_spec(s: Seq<char>, pat: Seq<char>, to: Seq<char>) -> Seq<char>
    decreases s.len(),
{
    if pat.len() == 0 || s.len() < pat.len() {
        s
    } else if s.take(pat.len() as int) == pat {
        to + replace_spec(s.skip(pat.len() as int), pat, to)
    } else {
        seq![s[0]] + replace_spec(s.skip(1), pat, to)
    }
}

/// Every piece of a split is present: the split has at least one piece.
pub proof fn lemma_split_nonempty(s: Seq<char>, sep: char)
    ensures
        split_spec(s, sep).len() >= 1,
    decreases s.len(),
{
    if s.len() > 0 {
        lemma_split_nonempty(s.drop_last(), sep);
    }
}

/// Appends one character to a string (`String::push`).
#[verifier::external_body]
pub(crate) fn push_char(s: &mut String, c: char)
    ensures
        final(s)@ == old(s)@.push(c),
{
    s.push(c)
}

/// The characters of `s`, one per element.
pub fn chars_of(s: &str) -> (v: Vec<char>)
    ensures
        v@ == s@,
{
    let n = s.unicode_len();
    let mut v: Vec<char> = Vec::new();
    let mut i: usize = 0;
    while i < n
        invariant
            n == s@.len(),
            i <= n,
            v@ == s@.take(i as int),
        decreases n - i,
    {
        v.push(s.get_char(i));
        i = i + 1;
        assert(v@ == s@.take(i as int));
    }
    assert(s@.take(n as int) == s@);
    v
}

/// The string made of the characters of `cs`.
pub fn string_of(cs: &Vec<char>) -> (r: String)
    ensures
        r@ == cs@,
{
    let mut r = String::new();
    let mut i: usize = 0;
    while i < cs.len()
        invariant
            i <= cs@.len(),
            r@ == cs@.take(i as int),
        decreases cs.len() - i,
    {
        push_char(&mut r, cs[i]);
        i = i + 1;
        assert(r@ == cs@.take(i as int));
    }
    assert(cs@.take(cs@.len() as int) == cs@);
    r
}

/// Whether two strings hold the same characters.
pub fn str_eq(a: &str, b: &str) -> (r: bool)
    ensures
        r == (a@ == b@),
{
    let x = chars_of(a);
    let y = chars_of(b);
    if x.len() != y.len() {
        return false;
    }
    let mut i: usize = 0;
    while i < x.len()
        invariant
            x@ == a@,
            y@ == b@,
            x@.len() == y@.len(),
            i <= x@.len(),
            forall|j: int| 0 <= j < i ==> x@[j] == y@[j],
        decreases x.len() - i,
    {
        if x[i] != y[i] {
            return false;
        }
        i = i + 1;
    }
    assert(x@ =~= y@);
    true
}

/// The pieces of `s` between occurrences of `sep` (`str::split` with a
/// `char` pattern), empty pieces included.
pub fn split_char(s: &str, sep: char) -> (pieces: Vec<String>)
    ensures
        pieces@.len() == split_spec(s@, sep).len(),
        forall|i: int| 0 <= i < pieces@.len() ==> #[trigger] pieces@[i]@ == split_spec(s@, sep)[i],
{
    let cs = chars_of(s);
    let mut done: Vec<String> = Vec::new();
    let mut current: Vec<char> = Vec::new();
    let mut i: usize = 0;
    while i < cs.len()
        invariant
            cs@ == s@,
            i <= cs@.len(),
            done@.len() + 1 == split_spec(cs@.take(i as int), sep).len(),
            forall|k: int| 0 <= k < done@.len() ==> #[trigger] done@[k]@ == split_spec(cs@.take(i as int), sep)[k],
            current@ == split_spec(cs@.take(i as int), sep).last(),
        decreases cs.len() - i,
    {
        let c = cs[i];
        proof {
            assert(cs@.take(i + 1).drop_last() == cs@.take(i as int));
            assert(cs@.take(i + 1).last() == c);
            lemma_split_nonempty(cs@.take(i as int), sep);
        }
        if c == sep {
            let piece = string_of(&current);
            done.push(piece);
            current = Vec::new();
        } else {
            current.push(c);
        }
        i = i + 1;
    }
    let last = string_of(&current);
    done.push(last);
    assert(cs@.take(cs@.len() as int) == cs@);
    done
}

/// `s` with every non-overlapping occurrence of the non-empty `pat` replaced
/// by `to`, scanning from the left (`str::replace`).
pub fn replace_all(s: &str, pat: &str, to: &str) -> (r: String)
    requires
        pat@.len() > 0,
    ensures
        r@ == replace_spec(s@, pat@, to@),
{
    let cs = chars_of(s);
    let ps = chars_of(pat);
    let ts = chars_of(to);
    let mut out: Vec<char> = Vec::new();
    let mut i: usize = 0;
    assert(cs@.skip(0) == cs@);
    assert(out@ + cs@ == cs@) by {
        assert(out@ + cs@ =~= cs@);
    }
    assert(out@ + replace_spec(cs@, ps@, ts@) =~= replace_spec(cs@, ps@, ts@));
    while i < cs.len()
        invariant
            cs@ == s@,
            ps@ == pat@,
            ts@ == to@,
            ps@.len() > 0,
            i <= cs@.len(),
            out@ + replace_spec(cs@.skip(i as int), ps@, ts@) == replace_spec(cs@, ps@, ts@),
        decreases cs.len() - i,
    {
        let rest = cs.len() - i;
        let mut matches = rest >= ps.len();
        if matches {
            let mut k: usize = 0;
            while k < ps.len()
                invariant
                    cs@ == s@,
                    ps@ == pat@,
                    i + ps.len() <= cs.len(),
                    k <= ps@.len(),
                    matches == (forall|j: int| 0 <= j < k ==> cs@[i + j] == ps@[j]),
                decreases ps.len() - k,
            {
                if cs[i + k] != ps[k] {
                    matches = false;
                }
                k = k + 1;
            }
            proof {
                let t = cs@.skip(i as int).take(ps@.len() as int);
                if matches {
                    assert(t =~= ps@);
                } else {
                    assert(t != ps@) by {
                        let j = choose|j: int| 0 <= j < ps@.len() && cs@[i + j] != ps@[j];
                        assert(t[j] == cs@[i + j]);
                    }
                }
            }
        }
        let ghost old_out = out@;
        if matches {
            let mut k: usize = 0;
            while k < ts.len()
                invariant
                    ts@ == to@,
                    k <= ts@.len(),
                    out@ == old_out + ts@.take(k as int),
                decreases ts.len() - k,
            {
                out.push(ts[k]);
                k = k + 1;
                assert(out@ == old_out + ts@.take(k as int));
            }
            proof {
                assert(ts@.take(ts@.len() as int) == ts@);
                assert(cs@.skip(i as int).skip(ps@.len() as int) == cs@.skip(i + ps@.len()));
                assert(old_out + replace_spec(cs@.skip(i as int), ps@, ts@) == old_out + (ts@
                    + replace_spec(cs@.skip(i + ps@.len()), ps@, ts@)));
                assert((old_out + ts@) + replace_spec(cs@.skip(i + ps@.len()), ps@, ts@) == old_out
                    + (ts@ + replace_spec(cs@.skip(i + ps@.len()), ps@, ts@)));
            }
            i = i + ps.len();
        } else {
            out.push(cs[i]);
            proof {
                assert(cs@.skip(i as int).skip(1) == cs@.skip(i + 1));
                assert(cs@.skip(i as int)[0] == cs@[i as int]);
                let sp = seq![cs@[i as int]];
                assert(old_out + replace_spec(cs@.skip(i as int), ps@, ts@) == old_out + (sp
                    + replace_spec(cs@.skip(i + 1), ps@, ts@)));
                assert((old_out + sp) + replace_spec(cs@.skip(i + 1), ps@, ts@) == old_out + (sp
                    + replace_spec(cs@.skip(i + 1), ps@, ts@)));
            }
            i = i + 1;
        }
    }
    proof {
        assert(cs@.skip(cs@.len() as int) =~= Seq::<char>::empty());
        assert(out@ + Seq::<char>::empty() == out@);
    }
    string_of(&out)
}

} // verus!
