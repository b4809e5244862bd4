//! Line-oriented text handling for wordlists: splitting file contents on
//! newlines, trimming surrounding whitespace, and rendering attempt indices
//! as decimal text.

use vstd::prelude::*;

use crate::hex::hex_digit_char;

verus! {

/// The whitespace characters that trimming removes (the Unicode
/// `White_Space` set).
pub open spec fn is_space_char(c: char) -> bool {
    ||| c == ' '
    ||| c == '\t'
    ||| c == '\n'
    ||| c == '\r'
    ||| c == '\u{b}'
    ||| c == '\u{c}'
    ||| c == '\u{85}'
    ||| c == '\u{a0}'
    ||| c == '\u{1680}'
    ||| (0x2000 <= c as u32 && c as u32 <= 0x200a)
    ||| c == '\u{2028}'
    ||| c == '\u{2029}'
    ||| c == '\u{202f}'
    ||| c == '\u{205f}'
    ||| c == '\u{3000}'
}

fn is_space(c: char) -> (r: bool)
    ensures
        r == is_space_char(c),
{
    c == ' ' || c == '\t' || c == '\n' || c == '\r' || c == '\u{b}' || c == '\u{c}' || c
        == '\u{85}' || c == '\u{a0}' || c == '\u{1680}' || (0x2000 <= c as u32 && c as u32
        <= 0x200a) || c == '\u{2028}' || c == '\u{2029}' || c == '\u{202f}' || c == '\u{205f}' || c
        == '\u{3000}'
}

pub open spec fn trim_start_spec(s: Seq<char>) -> Seq<char>
    decreases s.len(),
{
    if s.len() > 0 && is_space_char(s[0]) {
        trim_start_spec(s.drop_first())
    } else {
        s
    }
}

pub open spec fn trim_end_spec(s: Seq<char>) -> Seq<char>
    decreases s.len(),
{
    if s.len() > 0 && is_space_char(s.last()) {
        trim_end_spec(s.drop_last())
    } else {
        s
    }
}

/// A line with its leading and trailing whitespace removed.
pub open spec fn trim_spec(s: Seq<char>) -> Seq<char> {
    trim_end_spec(trim_start_spec(s))
}

proof fn lemma_trim_start_skip(s: Seq<char>, k: int)
    requires
        0 <= k <= s.len(),
        forall|j: int| 0 <= j < k ==> is_space_char(#[trigger] s[j]),
    ensures
        trim_start_spec(s) == trim_start_spec(s.subrange(k, s.len() as int)),
    decreases k,
{
    if k > 0 {
        assert(is_space_char(s[0]));
        lemma_trim_start_skip(s.drop_first(), k - 1);
        assert(s.drop_first().subrange(k - 1, s.drop_first().len() as int) =~= s.subrange(
            k,
            s.len() as int,
        ));
    } else {
        assert(s.subrange(0, s.len() as int) =~= s);
    }
}

proof fn lemma_trim_end_skip(s: Seq<char>, k: int)
    requires
        0 <= k <= s.len(),
        forall|j: int| k <= j < s.len() ==> is_space_char(#[trigger] s[j]),
    ensures
        trim_end_spec(s) == trim_end_spec(s.subrange(0, k)),
    decreases s.len() - k,
{
    if k < s.len() {
        assert(is_space_char(s.last()));
        lemma_trim_end_skip(s.drop_last(), k);
        assert(s.drop_last().subrange(0, k) =~= s.subrange(0, k));
    } else {
        assert(s.subrange(0, s.len() as int) =~= s);
    }
}

/// Removes the surrounding whitespace of one line.
pub fn trim_str(s: &str) -> (r: String)
    ensures
        r@ == trim_spec(s@),
{
    let n = s.unicode_len();
    let mut a: usize = 0;
    while a < n && is_space(s.get_char(a))
        invariant
            n == s@.len(),
            a <= n,
            forall|j: int| 0 <= j < a ==> is_space_char(#[trigger] s@[j]),
        decreases n - a,
    {
        a = a + 1;
    }
    proof {
        lemma_trim_start_skip(s@, a as int);
    }
    if a == n {
        proof {
            assert(s@.subrange(a as int, n as int) =~= Seq::<char>::empty());
        }
        return String::new();
    }
    let mut b: usize = n;
    while b > a && is_space(s.get_char(b - 1))
        invariant
            n == s@.len(),
            a <= b <= n,
            forall|j: int| b <= j < n ==> is_space_char(#[trigger] s@[j]),
        decreases b,
    {
        b = b - 1;
    }
    proof {
        let t = s@.subrange(a as int, n as int);
        assert(forall|j: int| b - a <= j < t.len() ==> is_space_char(#[trigger] t[j]));
        lemma_trim_end_skip(t, b - a);
        assert(t.subrange(0, b - a) =~= s@.subrange(a as int, b as int));
        if b > a {
            let u = s@.subrange(a as int, b as int);
            assert(!is_space_char(u[0]));
            assert(!is_space_char(u.last()));
        } else {
            assert(s@.subrange(a as int, b as int) =~= Seq::<char>::empty());
        }
    }
    let r = s.substring_char(a, b);
    r.to_owned()
}

/// The segments of a text split on newline characters; always at least one
/// segment, and an empty final segment after a trailing newline.
pub open spec fn split_lines_spec(s: Seq<char>) -> Seq<Seq<char>>
    decreases s.len(),
{
    if s.len() == 0 {
        seq![Seq::<char>::empty()]
    } else if s[0] == '\n' {
        seq![Seq::<char>::empty()] + split_lines_spec(s.drop_first())
    } else {
        let rest = split_lines_spec(s.drop_first());
        seq![seq![s[0]] + rest[0]] + rest.drop_first()
    }
}

proof fn lemma_split_lines_nonempty(s: Seq<char>)
    ensures
        split_lines_spec(s).len() >= 1,
    decreases s.len(),
{
    if s.len() > 0 {
        lemma_split_lines_nonempty(s.drop_first());
    }
}

proof fn lemma_split_no_newline(s: Seq<char>)
    requires
        forall|j: int| 0 <= j < s.len() ==> s[j] != '\n',
    ensures
        split_lines_spec(s) == seq![s],
    decreases s.len(),
{
    if s.len() > 0 {
        lemma_split_no_newline(s.drop_first());
        assert(seq![s[0]] + s.drop_first() =~= s);
        assert(seq![seq![s[0]] + s.drop_first()] + seq![s.drop_first()].drop_first() =~= seq![s]);
    } else {
        assert(s =~= Seq::<char>::empty());
        assert(seq![Seq::<char>::empty()] =~= seq![s]);
    }
}

proof fn lemma_split_at_newline(p: Seq<char>, r: Seq<char>)
    requires
        forall|j: int| 0 <= j < p.len() ==> p[j] != '\n',
    ensures
        split_lines_spec(p + seq!['\n'] + r) == seq![p] + split_lines_spec(r),
    decreases p.len(),
{
    let s = p + seq!['\n'] + r;
    if p.len() == 0 {
        assert(s =~= seq!['\n'] + r);
        assert(s[0] == '\n');
        assert(s.drop_first() =~= r);
        assert(p =~= Seq::<char>::empty());
        assert(seq![Seq::<char>::empty()] + split_lines_spec(r) =~= seq![p] + split_lines_spec(r));
    } else {
        assert(s[0] == p[0]);
        assert(s[0] != '\n');
        assert(s.drop_first() =~= p.drop_first() + seq!['\n'] + r);
        lemma_split_at_newline(p.drop_first(), r);
        let rest = split_lines_spec(s.drop_first());
        assert(rest == seq![p.drop_first()] + split_lines_spec(r));
        assert(rest[0] == p.drop_first());
        assert(seq![s[0]] + rest[0] =~= p);
        lemma_split_lines_nonempty(r);
        assert(rest.drop_first() =~= split_lines_spec(r));
        assert(seq![seq![s[0]] + rest[0]] + rest.drop_first() =~= seq![p] + split_lines_spec(r));
    }
}

/// The lines a wordlist file yields: its text split on newlines, each
/// segment trimmed.
pub open spec fn lines_of(s: Seq<char>) -> Seq<Seq<char>> {
    split_lines_spec(s).map_values(|l: Seq<char>| trim_spec(l))
}

proof fn lemma_trimmed_push(done: Seq<Seq<char>>, out: Seq<String>, segv: Seq<char>, line: String)
    requires
        out.map_values(|t: String| t@) == done.map_values(|l: Seq<char>| trim_spec(l)),
        line@ == trim_spec(segv),
    ensures
        out.push(line).map_values(|t: String| t@) =~= (done + seq![segv]).map_values(
            |l: Seq<char>| trim_spec(l),
        ),
{
    let lhs = out.push(line).map_values(|t: String| t@);
    let rhs = (done + seq![segv]).map_values(|l: Seq<char>| trim_spec(l));
    assert(out.map_values(|t: String| t@).len() == out.len());
    assert(done.map_values(|l: Seq<char>| trim_spec(l)).len() == done.len());
    assert(lhs.len() == rhs.len());
    assert forall|i: int| 0 <= i < lhs.len() implies lhs[i] == rhs[i] by {
        if i < out.len() {
            assert(out.map_values(|t: String| t@)[i] == done.map_values(
                |l: Seq<char>| trim_spec(l),
            )[i]);
            assert(out.push(line)[i] == out[i]);
            assert((done + seq![segv])[i] == done[i]);
        } else {
            assert(out.push(line)[i] == line);
            assert((done + seq![segv])[i] == segv);
        }
    }
}

/// Splits a wordlist's text on newlines and trims every segment; empty
/// segments are kept, so text ending in a newline yields a final empty line.
pub fn load_lines(content: &str) -> (r: Vec<String>)
    ensures
        r@.map_values(|t: String| t@) == lines_of(content@),
{
    let n = content.unicode_len();
    let mut out: Vec<String> = Vec::new();
    let ghost mut done: Seq<Seq<char>> = Seq::empty();
    let mut seg_start: usize = 0;
    let mut i: usize = 0;
    proof {
        assert(content@.subrange(0, n as int) =~= content@);
        assert(done + split_lines_spec(content@) =~= split_lines_spec(content@));
        assert(out@.map_values(|t: String| t@) =~= done.map_values(|l: Seq<char>| trim_spec(l)));
    }
    while i < n
        invariant
            n == content@.len(),
            seg_start <= i <= n,
            forall|j: int| seg_start <= j < i ==> content@[j] != '\n',
            out@.map_values(|t: String| t@) == done.map_values(|l: Seq<char>| trim_spec(l)),
            split_lines_spec(content@) == done + split_lines_spec(
                content@.subrange(seg_start as int, n as int),
            ),
        decreases n - i,
    {
        if content.get_char(i) == '\n' {
            let seg = content.substring_char(seg_start, i);
            let line = trim_str(seg);
            let ghost out_pre = out@;
            out.push(line);
            proof {
                let segv = content@.subrange(seg_start as int, i as int);
                let tail = content@.subrange(i as int + 1, n as int);
                assert(content@.subrange(seg_start as int, n as int) =~= segv + seq!['\n'] + tail);
                lemma_split_at_newline(segv, tail);
                let done2 = done + seq![segv];
                assert(done2 + split_lines_spec(tail) =~= done + (seq![segv] + split_lines_spec(
                    tail,
                )));
                lemma_trimmed_push(done, out_pre, segv, line);
                assert(out@ == out_pre.push(line));
                done = done2;
            }
            seg_start = i + 1;
        }
        i = i + 1;
    }
    let seg = content.substring_char(seg_start, n);
    let line = trim_str(seg);
    let ghost out_pre = out@;
    out.push(line);
    proof {
        let segv = content@.subrange(seg_start as int, n as int);
        lemma_split_no_newline(segv);
        let done2 = done + seq![segv];
        assert(split_lines_spec(content@) =~= done2);
        lemma_trimmed_push(done, out_pre, segv, line);
        assert(out@ == out_pre.push(line));
    }
    out
}

/// The decimal rendering of a natural number, most significant digit first.
pub open spec fn dec_str(n: nat) -> Seq<char>
    decreases n,
{
    if n < 10 {
        seq![hex_digit_char(n)]
    } else {
        dec_str(n / 10).push(hex_digit_char(n % 10))
    }
}

/// Renders an attempt index as decimal text.
pub fn usize_to_dec(n: usize) -> (r: String)
    ensures
        r@ == dec_str(n as nat),
    decreases n,
{
    if n < 10 {
        let r = crate::hex::hex_char_str(n as u8);
        r.to_owned()
    } else {
        let mut s = usize_to_dec(n / 10);
        s.append(crate::hex::hex_char_str((n % 10) as u8));
        proof {
            assert(s@ =~= dec_str((n / 10) as nat).push(hex_digit_char(n as nat % 10)));
        }
        s
    }
}

} // verus!
