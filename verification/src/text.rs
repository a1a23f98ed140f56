//! Character-level string helpers shared by the rest of the library.

use vstd::prelude::*;

verus! {

/// `s` with every non-overlapping occurrence of the non-empty pattern `pat`,
/// scanned from the left, replaced by `rep`.
pub open spec fn replaced(s: Seq<char>, pat: Seq<char>, rep: Seq<char>) -> Seq<char>
    recommends
        pat.len() > 0,
    decreases s.len(),
{
    if s.len() == 0 || pat.len() == 0 {
        s
    } else if pat.len() <= s.len() && s.subrange(0, pat.len() as int) == pat {
        rep + replaced(s.skip(pat.len() as int), pat, rep)
    } else {
        seq![s[0]] + replaced(s.skip(1), pat, rep)
    }
}

/// Whether `pat` occurs in `s` at position `i`.
pub open spec fn occurs_at(s: Seq<char>, pat: Seq<char>, i: int) -> bool {
    0 <= i && i + pat.len() <= s.len() && s.subrange(i, i + pat.len()) == pat
}

/// Replacing a pattern that does not occur leaves the text as it is.
pub proof fn law_replace_absent_pattern(s: Seq<char>, pat: Seq<char>, rep: Seq<char>)
    requires
        pat.len() > 0,
        forall|i: int| !occurs_at(s, pat, i),
    ensures
        replaced(s, pat, rep) == s,
    decreases s.len(),
{
    if s.len() > 0 {
        assert(!occurs_at(s, pat, 0));
        let t = s.skip(1);
        assert forall|i: int| !occurs_at(t, pat, i) by {
            if occurs_at(t, pat, i) {
                assert(s.subrange(i + 1, i + 1 + pat.len()) =~= t.subrange(i, i + pat.len()));
                assert(occurs_at(s, pat, i + 1));
            }
        }
        law_replace_absent_pattern(t, pat, rep);
        assert(seq![s[0]] + t =~= s);
    }
}

/// Replacing one character by another rewrites each occurrence in place:
/// the text keeps its length and only that character changes.
pub proof fn law_replace_char(s: Seq<char>, c: char, d: char)
    ensures
        replaced(s, seq![c], seq![d]) == s.map_values(|x: char| if x == c { d } else { x }),
    decreases s.len(),
{
    if s.len() > 0 {
        let t = s.skip(1);
        law_replace_char(t, c, d);
        if s[0] == c {
            assert(s.subrange(0, 1) =~= seq![c]);
        } else {
            assert(s.subrange(0, 1)[0] != seq![c][0]);
        }
        assert(replaced(s, seq![c], seq![d]) =~= s.map_values(|x: char| if x == c { d } else { x }));
    } else {
        assert(replaced(s, seq![c], seq![d]) =~= s.map_values(|x: char| if x == c { d } else { x }));
    }
}

/// After replacing a character by a different one, it no longer occurs.
pub proof fn law_replaced_char_is_gone(s: Seq<char>, c: char, d: char)
    requires
        c != d,
    ensures
        !replaced(s, seq![c], seq![d]).contains(c),
{
    law_replace_char(s, c, d);
    let r = replaced(s, seq![c], seq![d]);
    if r.contains(c) {
        let i = choose|i: int| 0 <= i < r.len() && r[i] == c;
        assert(r[i] == (if s[i] == c { d } else { s[i] }));
    }
}

/// Whether `pat` starts with a character `b` that occurs nowhere else in it,
/// `rep` starts with `b` too, and no occurrence of `pat` can start inside
/// `rep`: wherever `rep` holds `b`, it differs from `pat` before it ends.
pub open spec fn replacement_is_inert(pat: Seq<char>, rep: Seq<char>, b: char) -> bool {
    &&& pat.len() > 0
    &&& pat[0] == b
    &&& forall|j: int| 1 <= j < pat.len() ==> pat[j] != b
    &&& rep.len() > 0
    &&& rep[0] == b
    &&& forall|i: int|
        0 <= i < rep.len() && rep[i] == b ==> exists|j: int|
            0 <= j < pat.len() && i + j < rep.len() && rep[i + j] != pat[j]
}

/// A prefix of a replaced text that holds no `b` comes unchanged from the
/// text.
proof fn prefix_before_replacement(t: Seq<char>, pat: Seq<char>, rep: Seq<char>, b: char, q: Seq<char>)
    requires
        replacement_is_inert(pat, rep, b),
        forall|j: int| 0 <= j < q.len() ==> q[j] != b,
        q.len() <= replaced(t, pat, rep).len(),
        replaced(t, pat, rep).subrange(0, q.len() as int) == q,
    ensures
        q.len() <= t.len(),
        t.subrange(0, q.len() as int) == q,
    decreases t.len(),
{
    if q.len() > 0 {
        let out = replaced(t, pat, rep);
        assert(out[0] == q[0]);
        if t.len() == 0 {
        } else if pat.len() <= t.len() && t.subrange(0, pat.len() as int) == pat {
            assert(out[0] == rep[0]);
        } else {
            let z = replaced(t.skip(1), pat, rep);
            assert(out == seq![t[0]] + z);
            let q1 = q.skip(1);
            assert(z.subrange(0, q1.len() as int) =~= out.subrange(1, q.len() as int));
            assert(out.subrange(1, q.len() as int) =~= q1);
            prefix_before_replacement(t.skip(1), pat, rep, b, q1);
            assert(t.subrange(0, q.len() as int) =~= seq![t[0]] + t.skip(1).subrange(0, q1.len() as int));
            assert(q =~= seq![q[0]] + q1);
        }
    } else {
        assert(t.subrange(0, 0) =~= q);
    }
}

/// Where the replacement is inert, the replaced text holds no occurrence of
/// the pattern.
pub proof fn law_replaced_has_no_pattern(s: Seq<char>, pat: Seq<char>, rep: Seq<char>, b: char)
    requires
        replacement_is_inert(pat, rep, b),
    ensures
        forall|i: int| !occurs_at(replaced(s, pat, rep), pat, i),
    decreases s.len(),
{
    let out = replaced(s, pat, rep);
    let p = pat.len() as int;
    if s.len() == 0 {
    } else if pat.len() <= s.len() && s.subrange(0, p) == pat {
        let t = s.skip(p);
        law_replaced_has_no_pattern(t, pat, rep, b);
        let z = replaced(t, pat, rep);
        assert(out == rep + z);
        assert forall|i: int| !occurs_at(out, pat, i) by {
            if occurs_at(out, pat, i) {
                if i >= rep.len() {
                    assert(z.subrange(i - rep.len(), i - rep.len() + p) =~= out.subrange(i, i + p));
                    assert(occurs_at(z, pat, i - rep.len()));
                } else {
                    assert(out.subrange(i, i + p)[0] == out[i]);
                    assert(rep[i] == b);
                    let j = choose|j: int| 0 <= j < pat.len() && i + j < rep.len() && rep[i + j] != pat[j];
                    assert(out.subrange(i, i + p)[j] == out[i + j]);
                }
            }
        }
    } else {
        let t = s.skip(1);
        law_replaced_has_no_pattern(t, pat, rep, b);
        let z = replaced(t, pat, rep);
        assert(out == seq![s[0]] + z);
        assert forall|i: int| !occurs_at(out, pat, i) by {
            if occurs_at(out, pat, i) {
                if i >= 1 {
                    assert(z.subrange(i - 1, i - 1 + p) =~= out.subrange(i, i + p));
                    assert(occurs_at(z, pat, i - 1));
                } else {
                    let q = pat.skip(1);
                    assert(out.subrange(0, p)[0] == s[0]);
                    assert(z.subrange(0, q.len() as int) =~= out.subrange(1, p));
                    assert(out.subrange(1, p) =~= q);
                    prefix_before_replacement(t, pat, rep, b, q);
                    assert(s.subrange(0, p) =~= seq![s[0]] + t.subrange(0, q.len() as int));
                    assert(pat =~= seq![pat[0]] + q);
                }
            }
        }
    }
}

/// Where the replacement is inert, replacing a second time changes nothing.
pub proof fn law_replace_idempotent(s: Seq<char>, pat: Seq<char>, rep: Seq<char>, b: char)
    requires
        replacement_is_inert(pat, rep, b),
    ensures
        replaced(replaced(s, pat, rep), pat, rep) == replaced(s, pat, rep),
{
    law_replaced_has_no_pattern(s, pat, rep, b);
    law_replace_absent_pattern(replaced(s, pat, rep), pat, rep);
}

/// The characters of `s`, in order.
pub fn chars_of(s: &str) -> (res: Vec<char>)
    ensures
        res@ == s@,
{
    let n = s.unicode_len();
    let mut res: Vec<char> = Vec::new();
    let mut i: usize = 0;
    while i < n
        invariant
            n == s@.len(),
            i <= n,
            res@ == s@.subrange(0, i as int),
        decreases n - i,
    {
        let c = s.get_char(i);
        res.push(c);
        i = i + 1;
        assert(res@ =~= s@.subrange(0, i as int));
    }
    assert(res@ =~= s@);
    res
}

/// Appends one character to a string.
#[verifier::external_body]
fn string_push(s: &mut String, c: char)
    ensures
        final(s)@ == old(s)@.push(c),
{
    s.push(c);
}

/// The string made of the characters `chars`, in order.
pub fn string_of(chars: &Vec<char>) -> (res: String)
    ensures
        res@ == chars@,
{
    let mut res = String::new();
    let mut i: usize = 0;
    while i < chars.len()
        invariant
            i <= chars.len(),
            res@ == chars@.subrange(0, i as int),
        decreases chars.len() - i,
    {
        string_push(&mut res, chars[i]);
        i = i + 1;
        assert(res@ =~= chars@.subrange(0, i as int));
    }
    assert(res@ =~= chars@);
    res
}

/// Whether two strings hold the same characters.
pub fn str_equal(a: &str, b: &str) -> (res: bool)
    ensures
        res == (a@ == b@),
{
    let x = chars_of(a);
    let y = chars_of(b);
    if x.len() != y.len() {
        return false;
    }
    let mut i: usize = 0;
    while i < x.len()
        invariant
            x.len() == y.len(),
            x@ == a@,
            y@ == b@,
            i <= x.len(),
            forall|j: int| 0 <= j < i ==> x@[j] == y@[j],
        decreases x.len() - i,
    {
        if x[i] != y[i] {
            return false;
        }
        i = i + 1;
    }
    assert(x@ =~= y@);
    true
}

/// Whether `pat` occurs in `s` starting at position `i`.
fn matches_at(s: &Vec<char>, pat: &Vec<char>, i: usize) -> (res: bool)
    requires
        i <= s.len(),
    ensures
        res == (pat.len() <= s.len() - i && s@.subrange(i as int, i + pat.len()) == pat@),
{
    if pat.len() > s.len() - i {
        return false;
    }
    let mut k: usize = 0;
    while k < pat.len()
        invariant
            i + pat.len() <= s.len(),
            k <= pat.len(),
            forall|j: int| 0 <= j < k ==> s@[i + j] == pat@[j],
        decreases pat.len() - k,
    {
        if s[i + k] != pat[k] {
            assert(s@.subrange(i as int, i + pat.len())[k as int] != pat@[k as int]);
            return false;
        }
        k = k + 1;
    }
    assert(s@.subrange(i as int, i + pat.len()) =~= pat@);
    true
}

/// Replaces every non-overlapping occurrence of `pat` in `s`, scanned from the
/// left, by `rep`.
pub(crate) fn replace_chars(s: &Vec<char>, pat: &Vec<char>, rep: &Vec<char>) -> (res: Vec<char>)
    requires
        pat.len() > 0,
    ensures
        res@ == replaced(s@, pat@, rep@),
{
    let mut out: Vec<char> = Vec::new();
    let mut i: usize = 0;
    assert(s@.skip(0) =~= s@);
    while i < s.len()
        invariant
            pat.len() > 0,
            i <= s.len(),
            out@ + replaced(s@.skip(i as int), pat@, rep@) == replaced(s@, pat@, rep@),
        decreases s.len() - i,
    {
        let ghost t = s@.skip(i as int);
        if matches_at(s, pat, i) {
            assert(t.subrange(0, pat.len() as int) =~= s@.subrange(i as int, i + pat.len()));
            assert(t.skip(pat.len() as int) =~= s@.skip(i + pat.len()));
            let ghost before = out@;
            let mut k: usize = 0;
            while k < rep.len()
                invariant
                    k <= rep.len(),
                    out@ == before + rep@.subrange(0, k as int),
                decreases rep.len() - k,
            {
                out.push(rep[k]);
                k = k + 1;
                assert(out@ =~= before + rep@.subrange(0, k as int));
            }
            assert(rep@.subrange(0, rep.len() as int) =~= rep@);
            assert(out@ + replaced(t.skip(pat.len() as int), pat@, rep@) =~= before + replaced(t, pat@, rep@));
            i = i + pat.len();
        } else {
            proof {
                if pat@.len() <= t.len() {
                    assert(t.subrange(0, pat@.len() as int) =~= s@.subrange(i as int, i + pat@.len()));
                }
            }
            assert(t.skip(1) =~= s@.skip(i + 1));
            let ghost before = out@;
            out.push(s[i]);
            assert(out@ + replaced(t.skip(1), pat@, rep@) =~= before + replaced(t, pat@, rep@));
            i = i + 1;
        }
    }
    assert(s@.skip(i as int) =~= Seq::<char>::empty());
    assert(out@ + Seq::<char>::empty() =~= out@);
    out
}

/// `s` with every occurrence of the non-empty pattern `pat` replaced by `rep`,
/// as `str::replace` computes it.
pub(crate) fn replace_str(s: &str, pat: &str, rep: &str) -> (res: String)
    requires
        pat@.len() > 0,
    ensures
        res@ == replaced(s@, pat@, rep@),
{
    let cs = chars_of(s);
    let ps = chars_of(pat);
    let rs = chars_of(rep);
    let out = replace_chars(&cs, &ps, &rs);
    string_of(&out)
}

} // verus!

verus! {

/// The text that `bytes` encode, by `String::from_utf8`. Claimed, from its
/// documentation: the bytes are accepted exactly when they are UTF-8, and
/// then the string holds the characters they encode.
#[verifier::external_body]
pub(crate) fn utf8_string(bytes: Vec<u8>) -> (res: Option<String>)
    ensures
        res is Some <==> vstd::utf8::valid_utf8(bytes@),
        res matches Some(s) ==> s@ == vstd::utf8::decode_utf8(bytes@),
{
    String::from_utf8(bytes).ok()
}

/// The UTF-8 encoding of a string.
pub(crate) fn utf8_bytes(s: &String) -> (res: Vec<u8>)
    ensures
        res@ == vstd::utf8::encode_utf8(s@),
{
    vstd::slice::slice_to_vec(s.as_str().as_bytes())
}

} // verus!

verus! {

/// Whether a character has the Unicode White_Space property (PropList.txt):
/// U+0009 to U+000D, U+0020, U+0085, U+00A0, U+1680, U+2000 to U+200A,
/// U+2028, U+2029, U+202F, U+205F and U+3000.
pub open spec fn white_space(c: char) -> bool {
    let u = c as u32;
    ||| 0x09 <= u <= 0x0d
    ||| u == 0x20
    ||| u == 0x85
    ||| u == 0xa0
    ||| u == 0x1680
    ||| 0x2000 <= u <= 0x200a
    ||| u == 0x2028
    ||| u == 0x2029
    ||| u == 0x202f
    ||| u == 0x205f
    ||| u == 0x3000
}

/// `char::is_whitespace`, which its documentation defines as the Unicode
/// White_Space property. Claimed: the answer is `white_space`, the list of
/// characters that have the property.
#[verifier::external_body]
fn is_white_space(c: char) -> (res: bool)
    ensures
        res == white_space(c),
{
    c.is_whitespace()
}

/// `s` without its leading white space.
pub open spec fn trim_start(s: Seq<char>) -> Seq<char>
    decreases s.len(),
{
    if s.len() > 0 && white_space(s[0]) {
        trim_start(s.skip(1))
    } else {
        s
    }
}

/// `s` without its trailing white space.
pub open spec fn trim_end(s: Seq<char>) -> Seq<char>
    decreases s.len(),
{
    if s.len() > 0 && white_space(s.last()) {
        trim_end(s.drop_last())
    } else {
        s
    }
}

/// `s` without leading and trailing white space, as `str::trim` leaves it.
pub open spec fn trimmed(s: Seq<char>) -> Seq<char> {
    trim_end(trim_start(s))
}

/// Text without white space at either end is left as it is by trimming.
pub proof fn law_trim_keeps_trimmed_text(s: Seq<char>)
    requires
        s.len() > 0 ==> !white_space(s[0]) && !white_space(s.last()),
    ensures
        trimmed(s) == s,
{
}

/// Trimming removes a trailing line feed, as at the end of a command's
/// output line.
pub proof fn law_trim_drops_line_end(s: Seq<char>)
    requires
        s.len() > 0 ==> !white_space(s[0]) && !white_space(s.last()),
    ensures
        trimmed(s.push('\n')) == s,
{
    let t = s.push('\n');
    assert(('\n' as u32) == 0x0a);
    assert(white_space('\n'));
    if s.len() > 0 {
        assert(t[0] == s[0]);
        assert(trim_start(t) == t);
        assert(t.last() == '\n');
        assert(t.drop_last() =~= s);
        assert(trim_end(s) == s);
        assert(trim_end(t) == trim_end(s));
    } else {
        assert(t[0] == '\n');
        assert(t.skip(1) =~= Seq::<char>::empty());
        assert(trim_start(t) == trim_start(t.skip(1)));
    }
}

/// `s` without leading and trailing white space, as `str::trim` computes it.
pub fn trim_chars(v: &Vec<char>) -> (res: Vec<char>)
    ensures
        res@ == trimmed(v@),
{
    let n = v.len();
    let mut i: usize = 0;
    assert(v@.skip(0) =~= v@);
    while i < n && is_white_space(v[i])
        invariant
            n == v.len(),
            i <= n,
            trim_start(v@) == trim_start(v@.skip(i as int)),
        decreases n - i,
    {
        assert(v@.skip(i as int).skip(1) =~= v@.skip(i + 1));
        i = i + 1;
    }
    proof {
        if i == n {
            assert(v@.skip(i as int) =~= Seq::<char>::empty());
        }
    }
    let mut j: usize = n;
    assert(v@.subrange(i as int, n as int) =~= v@.skip(i as int));
    while j > i && is_white_space(v[j - 1])
        invariant
            n == v.len(),
            i <= j <= n,
            trim_start(v@) == v@.skip(i as int),
            trim_end(v@.skip(i as int)) == trim_end(v@.subrange(i as int, j as int)),
        decreases j - i,
    {
        assert(v@.subrange(i as int, j as int).drop_last() =~= v@.subrange(i as int, j - 1));
        j = j - 1;
    }
    let mut res: Vec<char> = Vec::new();
    let mut k: usize = i;
    while k < j
        invariant
            n == v.len(),
            i <= k <= j <= n,
            res@ == v@.subrange(i as int, k as int),
        decreases j - k,
    {
        res.push(v[k]);
        k = k + 1;
        assert(res@ =~= v@.subrange(i as int, k as int));
    }
    res
}

/// `s` without leading and trailing white space, as `str::trim` computes it.
pub fn trim_str(s: &str) -> (res: String)
    ensures
        res@ == trimmed(s@),
{
    let v = chars_of(s);
    let t = trim_chars(&v);
    string_of(&t)
}

} // verus!
