//! Verified text utilities: path-segment and extension splitting, substring
//! replacement, whitespace splitting, and decimal formatting. Everything here
//! is pure; contracts are stated over `Seq<char>` views.
use vstd::prelude::*;

verus! {

/// The part of `s` after its last '/', or all of `s` when it has none.
pub open spec fn last_segment(s: Seq<char>) -> Seq<char>
    decreases s.len(),
{
    if s.len() == 0 {
        Seq::empty()
    } else if s.last() == '/' {
        Seq::empty()
    } else {
        last_segment(s.drop_last()).push(s.last())
    }
}

/// The part of `s` before its first '.', or all of `s` when it has none.
pub open spec fn before_first_dot(s: Seq<char>) -> Seq<char>
    decreases s.len(),
{
    if s.len() == 0 {
        Seq::empty()
    } else if s.first() == '.' {
        Seq::empty()
    } else {
        seq![s.first()] + before_first_dot(s.drop_first())
    }
}

/// No character of a last segment is a slash.
pub proof fn lemma_last_segment_no_slash(s: Seq<char>)
    ensures
        forall|j: int| 0 <= j < last_segment(s).len() ==> last_segment(s)[j] != '/',
    decreases s.len(),
{
    if s.len() == 0 || s.last() == '/' {
    } else {
        lemma_last_segment_no_slash(s.drop_last());
        let r0 = last_segment(s.drop_last());
        assert forall|j: int| 0 <= j < last_segment(s).len() implies last_segment(s)[j] != '/' by {
            if j < r0.len() {
                assert(last_segment(s)[j] == r0[j]);
            } else {
                assert(last_segment(s)[j] == s.last());
            }
        }
    }
}

/// A segment prefix keeps every property of its characters; in particular,
/// `before_first_dot` of a slash-free sequence is slash-free.
pub proof fn lemma_before_first_dot_is_prefix(s: Seq<char>)
    ensures
        before_first_dot(s).len() <= s.len(),
        before_first_dot(s) == s.subrange(0, before_first_dot(s).len() as int),
    decreases s.len(),
{
    if s.len() == 0 || s.first() == '.' {
        assert(before_first_dot(s) =~= s.subrange(0, 0));
    } else {
        lemma_before_first_dot_is_prefix(s.drop_first());
        let r = before_first_dot(s.drop_first());
        assert(s.drop_first().subrange(0, r.len() as int) =~= s.subrange(1, r.len() as int + 1));
        assert(seq![s.first()] + r =~= s.subrange(0, r.len() as int + 1));
    }
}

/// No character of `before_first_dot(s)` is a dot.
pub proof fn lemma_before_first_dot_no_dot(s: Seq<char>)
    ensures
        forall|j: int| 0 <= j < before_first_dot(s).len() ==> before_first_dot(s)[j] != '.',
    decreases s.len(),
{
    if s.len() == 0 || s.first() == '.' {
    } else {
        lemma_before_first_dot_no_dot(s.drop_first());
        let r0 = before_first_dot(s.drop_first());
        assert forall|j: int|
            0 <= j < before_first_dot(s).len() implies before_first_dot(s)[j] != '.' by {
            if j == 0 {
                assert(before_first_dot(s)[0] == s.first());
            } else {
                assert(before_first_dot(s)[j] == r0[j - 1]);
            }
        }
    }
}

/// Appending anything that starts with a '.' after a dot-free prefix leaves
/// exactly that prefix before the first dot.
pub proof fn lemma_before_first_dot_stops(t: Seq<char>, rest: Seq<char>)
    requires
        forall|j: int| 0 <= j < t.len() ==> t[j] != '.',
        rest.len() > 0,
        rest.first() == '.',
    ensures
        before_first_dot(t + rest) == t,
    decreases t.len(),
{
    if t.len() == 0 {
        assert(t + rest =~= rest);
        assert(before_first_dot(rest) =~= t);
    } else {
        assert((t + rest).first() == t.first());
        assert((t + rest).drop_first() =~= t.drop_first() + rest);
        lemma_before_first_dot_stops(t.drop_first(), rest);
        assert(seq![t.first()] + t.drop_first() =~= t);
    }
}

/// Appending a slash-free name after a '/' makes the name the last segment.
pub proof fn lemma_last_segment_after_slash(s: Seq<char>, t: Seq<char>)
    requires
        forall|j: int| 0 <= j < t.len() ==> t[j] != '/',
    ensures
        last_segment(s + seq!['/'] + t) == t,
    decreases t.len(),
{
    let whole = s + seq!['/'] + t;
    if t.len() == 0 {
        assert(whole.last() == '/');
        assert(last_segment(whole) =~= t);
    } else {
        lemma_last_segment_after_slash(s, t.drop_last());
        assert(whole.last() == t.last());
        assert(whole.drop_last() =~= s + seq!['/'] + t.drop_last());
        assert(last_segment(whole) =~= t);
    }
}

proof fn lemma_last_segment_from(s: Seq<char>, i: int)
    requires
        0 <= i <= s.len(),
        forall|j: int| i <= j < s.len() ==> s[j] != '/',
        i == 0 || s[i - 1] == '/',
    ensures
        last_segment(s) == s.subrange(i, s.len() as int),
    decreases s.len(),
{
    if i == s.len() {
        if s.len() == 0 {
            assert(last_segment(s) =~= s.subrange(i, s.len() as int));
        } else {
            assert(s.last() == '/');
            assert(last_segment(s) =~= s.subrange(i, s.len() as int));
        }
    } else {
        assert(s.last() != '/');
        lemma_last_segment_from(s.drop_last(), i);
        assert(s.drop_last().subrange(i, s.len() - 1) =~= s.subrange(i, s.len() - 1));
        assert(last_segment(s) =~= s.subrange(i, s.len() as int));
    }
}

proof fn lemma_before_first_dot_from(s: Seq<char>, i: int)
    requires
        0 <= i <= s.len(),
        forall|j: int| 0 <= j < i ==> s[j] != '.',
        i == s.len() || s[i] == '.',
    ensures
        before_first_dot(s) == s.subrange(0, i),
    decreases s.len(),
{
    if s.len() == 0 {
        assert(before_first_dot(s) =~= s.subrange(0, i));
    } else if s.first() == '.' {
        assert(i == 0);
        assert(before_first_dot(s) =~= s.subrange(0, 0));
    } else {
        assert(i >= 1);
        lemma_before_first_dot_from(s.drop_first(), i - 1);
        assert(s.drop_first().subrange(0, i - 1) =~= s.subrange(1, i));
        assert(seq![s.first()] + s.subrange(1, i) =~= s.subrange(0, i));
    }
}

/// Returns the part of `s` after its last '/', or all of `s` when it has none.
pub fn last_segment_of(s: &str) -> (r: &str)
    ensures
        r@ == last_segment(s@),
{
    let n = s.unicode_len();
    let mut i = n;
    while i > 0 && s.get_char(i - 1) != '/'
        invariant
            i <= n,
            n == s@.len(),
            forall|j: int| i <= j < n ==> s@[j] != '/',
        decreases i,
    {
        i = i - 1;
    }
    proof {
        lemma_last_segment_from(s@, i as int);
    }
    s.substring_char(i, n)
}

/// Returns the part of `s` before its first '.', or all of `s` when it has none.
pub fn before_first_dot_of(s: &str) -> (r: &str)
    ensures
        r@ == before_first_dot(s@),
{
    let n = s.unicode_len();
    let mut i: usize = 0;
    while i < n && s.get_char(i) != '.'
        invariant
            i <= n,
            n == s@.len(),
            forall|j: int| 0 <= j < i ==> s@[j] != '.',
        decreases n - i,
    {
        i = i + 1;
    }
    proof {
        lemma_before_first_dot_from(s@, i as int);
    }
    s.substring_char(0, i)
}

/// Character-for-character string equality.
pub fn str_eq(a: &str, b: &str) -> (r: bool)
    ensures
        r == (a@ == b@),
{
    let na = a.unicode_len();
    let nb = b.unicode_len();
    if na != nb {
        return false;
    }
    let mut i: usize = 0;
    while i < na
        invariant
            i <= na,
            na == a@.len(),
            na == b@.len(),
            forall|j: int| 0 <= j < i ==> a@[j] == b@[j],
        decreases na - i,
    {
        if a.get_char(i) != b.get_char(i) {
            return false;
        }
        i = i + 1;
    }
    proof {
        assert(a@ =~= b@);
    }
    true
}

/// True iff `s` ends with `suffix`.
pub fn has_suffix(s: &str, suffix: &str) -> (r: bool)
    ensures
        r == (s@.len() >= suffix@.len() && s@.subrange(
            s@.len() - suffix@.len(),
            s@.len() as int,
        ) == suffix@),
{
    let n = s.unicode_len();
    let m = suffix.unicode_len();
    if n < m {
        return false;
    }
    str_eq(s.substring_char(n - m, n), suffix)
}

/// `s` with every non-overlapping occurrence of `pat` replaced by `rep`,
/// scanning left to right; `s` unchanged when `pat` is empty.
pub open spec fn replace_all(s: Seq<char>, pat: Seq<char>, rep: Seq<char>) -> Seq<char>
    decreases s.len(),
{
    if pat.len() == 0 || s.len() < pat.len() {
        s
    } else if s.subrange(0, pat.len() as int) == pat {
        rep + replace_all(s.skip(pat.len() as int), pat, rep)
    } else {
        seq![s[0]] + replace_all(s.skip(1), pat, rep)
    }
}

proof fn lemma_replace_all_step_char(t: Seq<char>, pat: Seq<char>, rep: Seq<char>)
    requires
        t.len() > 0,
        pat.len() > 0,
        t.len() < pat.len() || t.subrange(0, pat.len() as int) != pat,
    ensures
        replace_all(t, pat, rep) == seq![t[0]] + replace_all(t.skip(1), pat, rep),
{
    if t.len() < pat.len() {
        assert(t.skip(1).len() < pat.len());
        assert(seq![t[0]] + t.skip(1) =~= t);
    }
}

/// Replaces every occurrence of `pat` in `s` by `rep`.
pub fn replace_all_str(s: &str, pat: &str, rep: &str) -> (r: String)
    ensures
        r@ == replace_all(s@, pat@, rep@),
{
    let n = s.unicode_len();
    let m = pat.unicode_len();
    if m == 0 {
        return String::from_str(s);
    }
    let mut out = String::new();
    proof {
        assert(s@.skip(0) =~= s@);
        assert(Seq::<char>::empty() + replace_all(s@, pat@, rep@) =~= replace_all(s@, pat@, rep@));
    }
    let mut i: usize = 0;
    while i < n
        invariant
            i <= n,
            n == s@.len(),
            m == pat@.len(),
            m > 0,
            out@ + replace_all(s@.skip(i as int), pat@, rep@) == replace_all(s@, pat@, rep@),
        decreases n - i,
    {
        let ghost rest = s@.skip(i as int);
        if n - i >= m && str_eq(s.substring_char(i, i + m), pat) {
            proof {
                assert(rest.subrange(0, m as int) =~= s@.subrange(i as int, i + m));
                assert(rest.skip(m as int) =~= s@.skip(i + m));
            }
            out.append(rep);
            i = i + m;
        } else {
            proof {
                if n - i >= m {
                    assert(s@.subrange(i as int, i + m) =~= rest.subrange(0, m as int));
                }
                lemma_replace_all_step_char(rest, pat@, rep@);
                assert(rest.skip(1) =~= s@.skip(i + 1));
                assert(seq![rest[0]] =~= s@.subrange(i as int, i + 1));
            }
            out.append(s.substring_char(i, i + 1));
            i = i + 1;
        }
    }
    proof {
        assert(s@.skip(n as int) =~= Seq::<char>::empty());
        assert(out@ + Seq::<char>::empty() =~= out@);
    }
    out
}

/// The whitespace characters on which argument templates are split.
pub open spec fn is_space(c: char) -> bool {
    c == ' ' || c == '\t' || c == '\n' || c == '\r'
}

/// A pending token: the empty sequence contributes nothing.
pub open spec fn flush_token(cur: Seq<char>) -> Seq<Seq<char>> {
    if cur.len() == 0 {
        Seq::empty()
    } else {
        seq![cur]
    }
}

/// The tokens of `s` (maximal runs without whitespace), with `cur` the token
/// read so far.
pub open spec fn split_spaces_from(s: Seq<char>, cur: Seq<char>) -> Seq<Seq<char>>
    decreases s.len(),
{
    if s.len() == 0 {
        flush_token(cur)
    } else if is_space(s.first()) {
        flush_token(cur) + split_spaces_from(s.drop_first(), Seq::empty())
    } else {
        split_spaces_from(s.drop_first(), cur.push(s.first()))
    }
}

/// The whitespace-separated tokens of `s`.
pub open spec fn split_spaces(s: Seq<char>) -> Seq<Seq<char>> {
    split_spaces_from(s, Seq::empty())
}

fn is_space_char(c: char) -> (r: bool)
    ensures
        r == is_space(c),
{
    c == ' ' || c == '\t' || c == '\n' || c == '\r'
}

/// Splits `s` at whitespace into its non-empty tokens.
pub fn split_spaces_str(s: &str) -> (r: Vec<String>)
    ensures
        r.deep_view() == split_spaces(s@),
{
    let n = s.unicode_len();
    let mut out: Vec<String> = Vec::new();
    let mut cur = String::new();
    proof {
        assert(s@.skip(0) =~= s@);
        assert(out.deep_view() =~= Seq::<Seq<char>>::empty());
        assert(Seq::<Seq<char>>::empty() + split_spaces_from(s@, cur@) =~= split_spaces_from(
            s@,
            cur@,
        ));
    }
    let mut i: usize = 0;
    while i < n
        invariant
            i <= n,
            n == s@.len(),
            out.deep_view() + split_spaces_from(s@.skip(i as int), cur@) == split_spaces(s@),
        decreases n - i,
    {
        let ghost rest = s@.skip(i as int);
        let c = s.get_char(i);
        proof {
            assert(rest.first() == s@[i as int]);
            assert(rest.drop_first() =~= s@.skip(i + 1));
        }
        if is_space_char(c) {
            let ghost tail = split_spaces_from(s@.skip(i + 1), Seq::<char>::empty());
            if cur.unicode_len() > 0 {
                let ghost pre = out.deep_view();
                let ghost curv = cur@;
                out.push(cur);
                cur = String::new();
                proof {
                    assert(out.deep_view() =~= pre.push(curv));
                    assert(flush_token(curv) =~= seq![curv]);
                    assert(pre.push(curv) + tail =~= pre + (seq![curv] + tail));
                }
            } else {
                proof {
                    assert(cur@ =~= Seq::<char>::empty());
                    assert(flush_token(cur@) + tail =~= tail);
                }
            }
        } else {
            let ghost curv = cur@;
            cur.append(s.substring_char(i, i + 1));
            proof {
                assert(s@.subrange(i as int, i + 1) =~= seq![s@[i as int]]);
                assert(cur@ =~= curv.push(s@[i as int]));
            }
        }
        i = i + 1;
    }
    proof {
        assert(s@.skip(n as int) =~= Seq::<char>::empty());
    }
    if cur.unicode_len() > 0 {
        let ghost pre = out.deep_view();
        let ghost curv = cur@;
        out.push(cur);
        proof {
            assert(out.deep_view() =~= pre.push(curv));
            assert(pre.push(curv) =~= pre + flush_token(curv));
        }
    } else {
        proof {
            assert(cur@ =~= Seq::<char>::empty());
            assert(out.deep_view() + flush_token(cur@) =~= out.deep_view());
        }
    }
    out
}

/// The decimal digit character for `d` (`d < 10`).
pub open spec fn dec_digit(d: nat) -> char {
    if d == 0 {
        '0'
    } else if d == 1 {
        '1'
    } else if d == 2 {
        '2'
    } else if d == 3 {
        '3'
    } else if d == 4 {
        '4'
    } else if d == 5 {
        '5'
    } else if d == 6 {
        '6'
    } else if d == 7 {
        '7'
    } else if d == 8 {
        '8'
    } else {
        '9'
    }
}

/// The decimal digits of `n`, most significant first, with no leading zeros.
pub open spec fn dec_string(n: nat) -> Seq<char>
    decreases n,
{
    if n < 10 {
        seq![dec_digit(n)]
    } else {
        dec_string(n / 10).push(dec_digit(n % 10))
    }
}

fn digit_str(d: u16) -> (r: &'static str)
    requires
        d < 10,
    ensures
        r@ == seq![dec_digit(d as nat)],
{
    let r: &'static str = if d == 0 {
        "0"
    } else if d == 1 {
        "1"
    } else if d == 2 {
        "2"
    } else if d == 3 {
        "3"
    } else if d == 4 {
        "4"
    } else if d == 5 {
        "5"
    } else if d == 6 {
        "6"
    } else if d == 7 {
        "7"
    } else if d == 8 {
        "8"
    } else {
        "9"
    };
    proof {
        reveal_strlit("0");
        reveal_strlit("1");
        reveal_strlit("2");
        reveal_strlit("3");
        reveal_strlit("4");
        reveal_strlit("5");
        reveal_strlit("6");
        reveal_strlit("7");
        reveal_strlit("8");
        reveal_strlit("9");
        assert(r@ =~= seq![dec_digit(d as nat)]);
    }
    r
}

/// Formats `n` in decimal.
pub fn u16_to_dec(n: u16) -> (r: String)
    ensures
        r@ == dec_string(n as nat),
    decreases n,
{
    if n < 10 {
        String::from_str(digit_str(n))
    } else {
        let mut s = u16_to_dec(n / 10);
        s.append(digit_str(n % 10));
        proof {
            assert(dec_string((n / 10) as nat).push(dec_digit((n % 10) as nat)) =~= dec_string(
                (n / 10) as nat,
            ) + seq![dec_digit((n % 10) as nat)]);
        }
        s
    }
}

} // verus!
