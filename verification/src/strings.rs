use vstd::prelude::*;

verus! {

/// `pat` occurs in `s` starting at position `i`.
pub open spec fn occurs_at(s: Seq<char>, i: int, pat: Seq<char>) -> bool {
    &&& 0 <= i
    &&& i + pat.len() <= s.len()
    &&& s.subrange(i, i + pat.len()) == pat
}

/// The text `s` with every occurrence of `pat` replaced by `rep`, occurrences
/// being taken from left to right without overlap. An empty `pat` occurs
/// before every character and at the end, as with `str::replace`.
pub open spec fn replace_all(s: Seq<char>, pat: Seq<char>, rep: Seq<char>) -> Seq<char>
    decreases s.len(),
{
    if pat.len() == 0 {
        if s.len() == 0 {
            rep
        } else {
            rep + seq![s[0]] + replace_all(s.drop_first(), pat, rep)
        }
    } else if s.len() == 0 {
        Seq::empty()
    } else if occurs_at(s, 0, pat) {
        rep + replace_all(s.skip(pat.len() as int), pat, rep)
    } else {
        seq![s[0]] + replace_all(s.drop_first(), pat, rep)
    }
}

/// The characters of `s`, in order.
pub fn chars_of(s: &str) -> (v: Vec<char>)
    ensures
        v@ == s@,
{
    let mut v: Vec<char> = Vec::new();
    for c in it: s.chars()
        invariant
            v@ == it.seq().take(it.index() as int),
            it.seq() == s@,
    {
        v.push(c);
    }
    v
}

/// Appends one character to `s` with `String::push`. Claimed: the text
/// afterwards is the text before followed by `c`.
#[verifier::external_body]
pub(crate) fn push_char(s: &mut String, c: char)
    ensures
        final(s)@ == old(s)@.push(c),
{
    s.push(c);
}

/// `pat` occurs in `s` at position `i`, checked character by character.
fn occurs_at_exec(s: &Vec<char>, i: usize, pat: &Vec<char>) -> (r: bool)
    requires
        i <= s@.len(),
    ensures
        r == occurs_at(s@, i as int, pat@),
{
    let n = s.len();
    let m = pat.len();
    if m > n - i {
        return false;
    }
    let mut k: usize = 0;
    while k < m
        invariant
            n == s@.len(),
            m == pat@.len(),
            i + m <= n,
            k <= m,
            forall|j: int| 0 <= j < k ==> s@[i + j] == pat@[j],
        decreases m - k,
    {
        if s[i + k] != pat[k] {
            assert(s@.subrange(i as int, i + m)[k as int] != pat@[k as int]);
            return false;
        }
        k += 1;
    }
    assert(s@.subrange(i as int, i + m) =~= pat@);
    true
}

/// One step of `replace_all` taken at position `i` of `s`.
proof fn lemma_replace_step(s: Seq<char>, i: int, pat: Seq<char>, rep: Seq<char>)
    requires
        0 <= i < s.len(),
    ensures
        pat.len() == 0 ==> replace_all(s.skip(i), pat, rep) == rep + seq![s[i]] + replace_all(
            s.skip(i + 1),
            pat,
            rep,
        ),
        pat.len() > 0 && occurs_at(s, i, pat) ==> replace_all(s.skip(i), pat, rep) == rep
            + replace_all(s.skip(i + pat.len()), pat, rep),
        pat.len() > 0 && !occurs_at(s, i, pat) ==> replace_all(s.skip(i), pat, rep) == seq![
            s[i],
        ] + replace_all(s.skip(i + 1), pat, rep),
{
    let t = s.skip(i);
    assert(t.drop_first() =~= s.skip(i + 1));
    if pat.len() > 0 && i + pat.len() <= s.len() {
        assert(t.subrange(0, pat.len() as int) =~= s.subrange(i, i + pat.len()));
        assert(t.skip(pat.len() as int) =~= s.skip(i + pat.len()));
    }
}

/// Replaces every occurrence of `search` in `string` by `replace`, scanning
/// from left to right; the text of `str::replace` on the same arguments.
pub fn str_replace(string: &str, search: &str, replace: &str) -> (result: String)
    ensures
        result@ == replace_all(string@, search@, replace@),
{
    let s = chars_of(string);
    let p = chars_of(search);
    let n = s.len();
    let m = p.len();
    let mut out = String::new();
    let mut i: usize = 0;
    assert(s@.skip(0) =~= s@);
    while i < n
        invariant
            n == s@.len(),
            m == p@.len(),
            s@ == string@,
            p@ == search@,
            i <= n,
            out@ + replace_all(s@.skip(i as int), p@, replace@) == replace_all(
                s@,
                p@,
                replace@,
            ),
        decreases n - i,
    {
        proof {
            lemma_replace_step(s@, i as int, p@, replace@);
        }
        let ghost before = out@;
        if m == 0 {
            out.append(replace);
            push_char(&mut out, s[i]);
            assert(before + (replace@ + seq![s@[i as int]] + replace_all(s@.skip(i + 1), p@, replace@))
                =~= out@ + replace_all(s@.skip(i + 1), p@, replace@));
            i += 1;
        } else if occurs_at_exec(&s, i, &p) {
            out.append(replace);
            assert(before + (replace@ + replace_all(s@.skip(i + m), p@, replace@))
                =~= out@ + replace_all(s@.skip(i + m), p@, replace@));
            i += m;
        } else {
            push_char(&mut out, s[i]);
            assert(before + (seq![s@[i as int]] + replace_all(s@.skip(i + 1), p@, replace@))
                =~= out@ + replace_all(s@.skip(i + 1), p@, replace@));
            i += 1;
        }
    }
    assert(s@.skip(n as int) =~= Seq::<char>::empty());
    if m == 0 {
        out.append(replace);
    } else {
        assert(out@ + Seq::<char>::empty() =~= out@);
    }
    out
}

/// Replacing a text by itself changes nothing: for every `s` and every
/// `pat`, empty or not, `s` with each occurrence of `pat` replaced by `pat`
/// is `s` again.
pub proof fn law_replace_with_itself(s: Seq<char>, pat: Seq<char>)
    ensures
        replace_all(s, pat, pat) == s,
    decreases s.len(),
{
    if s.len() == 0 {
    } else if pat.len() == 0 {
        law_replace_with_itself(s.drop_first(), pat);
        assert(pat + seq![s[0]] + s.drop_first() =~= s);
    } else if occurs_at(s, 0, pat) {
        law_replace_with_itself(s.skip(pat.len() as int), pat);
        assert(pat + s.skip(pat.len() as int) =~= s);
    } else {
        law_replace_with_itself(s.drop_first(), pat);
        assert(seq![s[0]] + s.drop_first() =~= s);
    }
}

/// A non-empty pattern that does not occur in `s` leaves `s` unchanged,
/// whatever it would be replaced by.
pub proof fn law_replace_absent(s: Seq<char>, pat: Seq<char>, rep: Seq<char>)
    requires
        pat.len() > 0,
        forall|i: int| !occurs_at(s, i, pat),
    ensures
        replace_all(s, pat, rep) == s,
    decreases s.len(),
{
    if s.len() > 0 {
        let t = s.drop_first();
        assert forall|i: int| !occurs_at(t, i, pat) by {
            if occurs_at(t, i, pat) {
                assert(s.subrange(i + 1, i + 1 + pat.len()) =~= t.subrange(i, i + pat.len()));
                assert(occurs_at(s, i + 1, pat));
            }
        }
        assert(!occurs_at(s, 0, pat));
        law_replace_absent(t, pat, rep);
        assert(seq![s[0]] + t =~= s);
    }
}

/// Every occurrence is found, however long the pattern: when a non-empty
/// `pat` starts the text, that occurrence becomes `rep` and the scan goes
/// on right after it.
pub proof fn law_leading_occurrence_replaced(s: Seq<char>, pat: Seq<char>, rep: Seq<char>)
    requires
        0 < pat.len() <= s.len(),
        s.subrange(0, pat.len() as int) == pat,
    ensures
        replace_all(s, pat, rep) == rep + replace_all(s.skip(pat.len() as int), pat, rep),
{
}

/// Replacing a non-empty text inside itself gives exactly the replacement.
pub proof fn law_replace_whole_text(pat: Seq<char>, rep: Seq<char>)
    requires
        pat.len() > 0,
    ensures
        replace_all(pat, pat, rep) == rep,
{
    assert(pat.subrange(0, pat.len() as int) =~= pat);
    law_leading_occurrence_replaced(pat, pat, rep);
    assert(pat.skip(pat.len() as int) =~= Seq::<char>::empty());
    assert(replace_all(pat.skip(pat.len() as int), pat, rep) == Seq::<char>::empty());
    assert(rep + Seq::<char>::empty() =~= rep);
}

/// A text that does not start with the pattern keeps its first character
/// in front of the rest of the replacement.
pub proof fn law_unmatched_character_kept(s: Seq<char>, pat: Seq<char>, rep: Seq<char>)
    requires
        pat.len() > 0,
        s.len() > 0,
        !(pat.len() <= s.len() && s.subrange(0, pat.len() as int) == pat),
    ensures
        replace_all(s, pat, rep) == seq![s[0]] + replace_all(s.drop_first(), pat, rep),
{
}

} // verus!
