//! Verified text transformations used by the renderer: slugs for file names,
//! decimal rendering of numbers, literal substring replacement, markdown
//! heading demotion, and whitespace trimming.

use vstd::prelude::*;

verus! {

/// Relies on `String::push`: appends one character at the end.
#[verifier::external_body]
fn push_char(s: &mut String, c: char)
    ensures
        final(s)@ == old(s)@.push(c),
{
    s.push(c)
}

/// The slug image of one character: ASCII letters are lowercased, ASCII
/// digits are kept, everything else becomes a dash.
pub open spec fn slug_char(c: char) -> char {
    if 'a' <= c && c <= 'z' {
        c
    } else if 'A' <= c && c <= 'Z' {
        ((c as u8) + 32) as char
    } else if '0' <= c && c <= '9' {
        c
    } else {
        '-'
    }
}

/// The slug of a title: every character taken to its slug image.
pub open spec fn tag_of(s: Seq<char>) -> Seq<char> {
    s.map_values(|c: char| slug_char(c))
}

fn slug_char_exec(c: char) -> (r: char)
    ensures
        r == slug_char(c),
{
    if 'a' <= c && c <= 'z' {
        c
    } else if 'A' <= c && c <= 'Z' {
        ((c as u8) + 32) as char
    } else if '0' <= c && c <= '9' {
        c
    } else {
        '-'
    }
}

/// Derive a filesystem-safe file name stem from a title.
pub fn to_tag(title: &str) -> (r: String)
    ensures
        r@ == tag_of(title@),
{
    let n: usize = title.unicode_len();
    let mut r: String = String::new();
    let mut i: usize = 0;
    while i < n
        invariant
            i <= n,
            n == title@.len(),
            r@ == tag_of(title@.take(i as int)),
        decreases n - i,
    {
        let c = title.get_char(i);
        push_char(&mut r, slug_char_exec(c));
        proof {
            assert(r@ =~= tag_of(title@.take(i + 1)));
        }
        i = i + 1;
    }
    proof {
        assert(title@.take(n as int) =~= title@);
    }
    r
}

/// The character for one decimal digit.
pub open spec fn digit_char(d: nat) -> char {
    if d == 0 {
        '0'
    } else if d == 1 {
        '1'
    } else if d == 2 {
        '2'
    } else if d == 3 {
        '3'
    } else if d == 4 {
        '4'
    } else if d == 5 {
        '5'
    } else if d == 6 {
        '6'
    } else if d == 7 {
        '7'
    } else if d == 8 {
        '8'
    } else {
        '9'
    }
}

/// The usual decimal rendering of a natural number, most significant digit
/// first, with no leading zeros (except for zero itself).
pub open spec fn dec_str(n: nat) -> Seq<char>
    decreases n,
{
    if n < 10 {
        seq![digit_char(n)]
    } else {
        dec_str(n / 10).push(digit_char(n % 10))
    }
}

fn digit_char_exec(d: usize) -> (r: char)
    requires
        d < 10,
    ensures
        r == digit_char(d as nat),
{
    if d == 0 {
        '0'
    } else if d == 1 {
        '1'
    } else if d == 2 {
        '2'
    } else if d == 3 {
        '3'
    } else if d == 4 {
        '4'
    } else if d == 5 {
        '5'
    } else if d == 6 {
        '6'
    } else if d == 7 {
        '7'
    } else if d == 8 {
        '8'
    } else {
        '9'
    }
}

/// Render a number in decimal.
pub fn usize_to_string(n: usize) -> (r: String)
    ensures
        r@ == dec_str(n as nat),
    decreases n,
{
    if n < 10 {
        let mut r: String = String::new();
        push_char(&mut r, digit_char_exec(n));
        proof {
            assert(r@ =~= dec_str(n as nat));
        }
        r
    } else {
        let mut r = usize_to_string(n / 10);
        push_char(&mut r, digit_char_exec(n % 10));
        r
    }
}

/// Replacement of every occurrence of `pat` by `sub`, scanning left to
/// right without overlap, exactly as `str::replace` does.
pub open spec fn replace_seq(s: Seq<char>, pat: Seq<char>, sub: Seq<char>) -> Seq<char>
    decreases s.len(),
{
    if pat.len() == 0 || s.len() < pat.len() {
        s
    } else if s.take(pat.len() as int) == pat {
        sub + replace_seq(s.skip(pat.len() as int), pat, sub)
    } else {
        seq![s[0]] + replace_seq(s.skip(1), pat, sub)
    }
}

/// Whether `pat` occurs in `s` starting at index `i`.
fn match_at(s: &str, n: usize, i: usize, pat: &str, m: usize) -> (b: bool)
    requires
        n == s@.len(),
        m == pat@.len(),
        i + m <= n,
    ensures
        b == (s@.subrange(i as int, i + m) == pat@),
{
    let mut j: usize = 0;
    while j < m
        invariant
            j <= m,
            n == s@.len(),
            m == pat@.len(),
            i + m <= n,
            forall|k: int| 0 <= k < j ==> s@[i + k] == pat@[k],
        decreases m - j,
    {
        if s.get_char(i + j) != pat.get_char(j) {
            proof {
                assert(s@.subrange(i as int, i + m)[j as int] != pat@[j as int]);
            }
            return false;
        }
        j = j + 1;
    }
    proof {
        assert(s@.subrange(i as int, i + m) =~= pat@);
    }
    true
}

/// Replace every occurrence of `pat` in `s` by `sub`.
pub fn replace_all(s: &str, pat: &str, sub: &str) -> (r: String)
    requires
        pat@.len() >= 1,
    ensures
        r@ == replace_seq(s@, pat@, sub@),
{
    let n: usize = s.unicode_len();
    let m: usize = pat.unicode_len();
    let mut r: String = String::new();
    let mut i: usize = 0;
    proof {
        assert(s@.skip(0) =~= s@);
        assert(r@ + replace_seq(s@, pat@, sub@) =~= replace_seq(s@, pat@, sub@));
    }
    while i < n
        invariant
            i <= n,
            n == s@.len(),
            m == pat@.len(),
            m >= 1,
            replace_seq(s@, pat@, sub@) == r@ + replace_seq(s@.skip(i as int), pat@, sub@),
        decreases n - i,
    {
        let ghost rest = s@.skip(i as int);
        let ghost r0 = r@;
        if m <= n - i && match_at(s, n, i, pat, m) {
            r.append(sub);
            proof {
                assert(rest.take(m as int) =~= s@.subrange(i as int, i + m));
                assert(rest.skip(m as int) =~= s@.skip(i + m));
                let x = replace_seq(s@.skip(i + m), pat@, sub@);
                assert(replace_seq(rest, pat@, sub@) == sub@ + x);
                assert(r0 + (sub@ + x) =~= (r0 + sub@) + x);
            }
            i = i + m;
        } else {
            let c = s.get_char(i);
            push_char(&mut r, c);
            proof {
                if m <= n - i {
                    assert(rest.take(m as int) =~= s@.subrange(i as int, i + m));
                } else {
                    assert(replace_seq(rest, pat@, sub@) == rest);
                    assert(replace_seq(rest.skip(1), pat@, sub@) == rest.skip(1));
                    assert(rest =~= seq![rest[0]] + rest.skip(1));
                }
                assert(rest.skip(1) =~= s@.skip(i + 1));
                assert(rest[0] == s@[i as int]);
                let x = replace_seq(s@.skip(i + 1), pat@, sub@);
                assert(replace_seq(rest, pat@, sub@) == seq![rest[0]] + x);
                assert(r0 + (seq![rest[0]] + x) =~= (r0 + seq![rest[0]]) + x);
                assert(r0 + seq![rest[0]] =~= r0.push(c));
            }
            i = i + 1;
        }
    }
    proof {
        assert(s@.skip(n as int) =~= Seq::<char>::empty());
        assert(r@ + replace_seq(s@.skip(n as int), pat@, sub@) =~= r@);
    }
    r
}

/// Demotion of top-level markdown headings by two levels, walking the text
/// with a flag that says whether the position starts a line: a `# ` marker
/// at a line start becomes `### `, every other character is kept.
pub open spec fn demote_from(s: Seq<char>, at_start: bool) -> Seq<char>
    decreases s.len(),
{
    if s.len() == 0 {
        Seq::empty()
    } else if at_start && s.len() >= 2 && s[0] == '#' && s[1] == ' ' {
        seq!['#', '#', '#', ' '] + demote_from(s.skip(2), false)
    } else {
        seq![s[0]] + demote_from(s.skip(1), s[0] == '\n')
    }
}

/// Every line of `s` that starts with `# ` rewritten to start with `### `.
pub open spec fn demote_seq(s: Seq<char>) -> Seq<char> {
    demote_from(s, true)
}

/// Demote every top-level markdown heading of `s` to a third-level heading.
pub fn demote_headings(s: &str) -> (r: String)
    ensures
        r@ == demote_seq(s@),
{
    let n: usize = s.unicode_len();
    let mut r: String = String::new();
    let mut i: usize = 0;
    let mut at_start: bool = true;
    proof {
        assert(s@.skip(0) =~= s@);
        assert(r@ + demote_from(s@, true) =~= demote_from(s@, true));
    }
    while i < n
        invariant
            i <= n,
            n == s@.len(),
            demote_seq(s@) == r@ + demote_from(s@.skip(i as int), at_start),
        decreases n - i,
    {
        let ghost rest = s@.skip(i as int);
        let ghost r0 = r@;
        if at_start && i + 1 < n && s.get_char(i) == '#' && s.get_char(i + 1) == ' ' {
            r.append("### ");
            proof {
                reveal_strlit("### ");
                assert(rest[0] == '#' && rest[1] == ' ');
                assert(rest.skip(2) =~= s@.skip(i + 2));
                let x = demote_from(s@.skip(i + 2), false);
                assert(demote_from(rest, true) == seq!['#', '#', '#', ' '] + x);
                assert("### "@ =~= seq!['#', '#', '#', ' ']);
                assert(r0 + (seq!['#', '#', '#', ' '] + x) =~= (r0 + "### "@) + x);
            }
            i = i + 2;
            at_start = false;
        } else {
            let c = s.get_char(i);
            push_char(&mut r, c);
            proof {
                assert(rest[0] == c);
                assert(rest.skip(1) =~= s@.skip(i + 1));
                let ns = (c == '\n');
                let x = demote_from(s@.skip(i + 1), ns);
                assert(demote_from(rest, at_start) == seq![rest[0]] + x);
                assert(r0 + (seq![rest[0]] + x) =~= r0.push(c) + x);
            }
            at_start = c == '\n';
            i = i + 1;
        }
    }
    proof {
        assert(s@.skip(n as int) =~= Seq::<char>::empty());
        assert(r@ + demote_from(s@.skip(n as int), at_start) =~= r@);
    }
    r
}

/// The whitespace characters that trimming removes.
pub open spec fn is_wspace(c: char) -> bool {
    c == ' ' || c == '\t' || c == '\n' || c == '\r'
}

/// `s` with its leading whitespace removed.
pub open spec fn trim_front(s: Seq<char>) -> Seq<char>
    decreases s.len(),
{
    if s.len() > 0 && is_wspace(s[0]) {
        trim_front(s.skip(1))
    } else {
        s
    }
}

/// `s` with its trailing whitespace removed.
pub open spec fn trim_back(s: Seq<char>) -> Seq<char>
    decreases s.len(),
{
    if s.len() > 0 && is_wspace(s[s.len() - 1]) {
        trim_back(s.take(s.len() - 1))
    } else {
        s
    }
}

/// `s` with leading and trailing whitespace removed.
pub open spec fn trim_seq(s: Seq<char>) -> Seq<char> {
    trim_back(trim_front(s))
}

fn is_wspace_exec(c: char) -> (b: bool)
    ensures
        b == is_wspace(c),
{
    c == ' ' || c == '\t' || c == '\n' || c == '\r'
}

/// Remove leading and trailing whitespace.
pub fn trim(s: &str) -> (r: String)
    ensures
        r@ == trim_seq(s@),
{
    let n: usize = s.unicode_len();
    let mut lo: usize = 0;
    proof {
        assert(s@.skip(0) =~= s@);
    }
    while lo < n && is_wspace_exec(s.get_char(lo))
        invariant
            lo <= n,
            n == s@.len(),
            trim_front(s@) == trim_front(s@.skip(lo as int)),
        decreases n - lo,
    {
        proof {
            assert(s@.skip(lo as int).skip(1) =~= s@.skip(lo + 1));
        }
        lo = lo + 1;
    }
    let ghost t = s@.skip(lo as int);
    proof {
        if lo == n {
            assert(t =~= Seq::<char>::empty());
        }
        assert(trim_front(s@) == t);
        assert(t.take(n - lo) =~= t);
    }
    let mut hi: usize = n;
    while hi > lo && is_wspace_exec(s.get_char(hi - 1))
        invariant
            lo <= hi <= n,
            n == s@.len(),
            t == s@.skip(lo as int),
            trim_back(t) == trim_back(t.take(hi - lo)),
        decreases hi,
    {
        proof {
            let u = t.take(hi - lo);
            assert(u[u.len() - 1] == s@[hi - 1]);
            assert(u.take(u.len() - 1) =~= t.take(hi - 1 - lo));
        }
        hi = hi - 1;
    }
    proof {
        if hi == lo {
            assert(t.take(0) =~= Seq::<char>::empty());
        } else {
            let u = t.take(hi - lo);
            assert(u[u.len() - 1] == s@[hi - 1]);
        }
        assert(trim_back(t.take(hi - lo)) == t.take(hi - lo));
    }
    let r = s.substring_char(lo, hi).to_owned();
    proof {
        assert(s@.subrange(lo as int, hi as int) =~= t.take(hi - lo));
    }
    r
}

} // verus!
