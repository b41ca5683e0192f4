//! Cell text: white space, trimming and blank cells.
//!
//! A cell's text is modelled as a `Seq<char>`. White space is the Unicode
//! `White_Space` property, the same notion that `str::trim` uses.

use vstd::prelude::*;

verus! {

/// Whether `c` has the Unicode `White_Space` property.
pub open spec fn is_white_space(c: char) -> bool {
    let n = c as u32;
    ||| 0x09 <= n <= 0x0D
    ||| n == 0x20
    ||| n == 0x85
    ||| n == 0xA0
    ||| n == 0x1680
    ||| 0x2000 <= n <= 0x200A
    ||| n == 0x2028
    ||| n == 0x2029
    ||| n == 0x202F
    ||| n == 0x205F
    ||| n == 0x3000
}

/// Whether every character of `s` is white space.
pub open spec fn all_white_space(s: Seq<char>) -> bool {
    forall|i: int| 0 <= i < s.len() ==> is_white_space(#[trigger] s[i])
}

/// `s` without its leading white space.
pub open spec fn trim_start(s: Seq<char>) -> Seq<char>
    decreases s.len(),
{
    if s.len() > 0 && is_white_space(s.first()) {
        trim_start(s.drop_first())
    } else {
        s
    }
}

/// `s` without its trailing white space.
pub open spec fn trim_end(s: Seq<char>) -> Seq<char>
    decreases s.len(),
{
    if s.len() > 0 && is_white_space(s.last()) {
        trim_end(s.drop_last())
    } else {
        s
    }
}

/// `s` without its leading and trailing white space.
pub open spec fn trimmed(s: Seq<char>) -> Seq<char> {
    trim_end(trim_start(s))
}

/// A cell is blank when nothing is left of it after trimming.
pub open spec fn is_blank(s: Seq<char>) -> bool {
    trimmed(s).len() == 0
}

/// If the first `a` characters of `s` are white space and the next one, if
/// there is one, is not, then trimming the start removes exactly those `a`.
pub proof fn lemma_trim_start_skips(s: Seq<char>, a: int)
    requires
        0 <= a <= s.len(),
        all_white_space(s.take(a)),
        a < s.len() ==> !is_white_space(s[a]),
    ensures
        trim_start(s) == s.skip(a),
    decreases a,
{
    if a > 0 {
        assert(s.take(a)[0] == s[0]);
        let rest = s.drop_first();
        assert forall|i: int| 0 <= i < a - 1 implies is_white_space(
            #[trigger] rest.take(a - 1)[i],
        ) by {
            assert(s.take(a)[i + 1] == rest.take(a - 1)[i]);
        }
        lemma_trim_start_skips(rest, a - 1);
    }
}

/// If the characters of `s` from index `b` on are white space and the one
/// before, if there is one, is not, then trimming the end keeps exactly the
/// first `b`.
pub proof fn lemma_trim_end_takes(s: Seq<char>, b: int)
    requires
        0 <= b <= s.len(),
        all_white_space(s.skip(b)),
        b > 0 ==> !is_white_space(s[b - 1]),
    ensures
        trim_end(s) == s.take(b),
    decreases s.len() - b,
{
    if b < s.len() {
        assert(s.skip(b)[s.len() - b - 1] == s.last());
        let rest = s.drop_last();
        assert forall|i: int| 0 <= i < rest.len() - b implies is_white_space(
            #[trigger] rest.skip(b)[i],
        ) by {
            assert(s.skip(b)[i] == rest.skip(b)[i]);
        }
        lemma_trim_end_takes(rest, b);
    }
}

/// A cell is blank exactly when it holds nothing but white space.
pub proof fn lemma_blank_iff_all_white_space(s: Seq<char>)
    ensures
        is_blank(s) <==> all_white_space(s),
{
    if all_white_space(s) {
        lemma_trim_start_skips(s, s.len() as int);
    } else {
        let a = choose|i: int| 0 <= i < s.len() && !is_white_space(s[i]);
        lemma_trimmed_keeps_inner(s, a);
    }
}

/// A character that is not white space survives trimming.
pub proof fn lemma_trimmed_keeps_inner(s: Seq<char>, i: int)
    requires
        0 <= i < s.len(),
        !is_white_space(s[i]),
    ensures
        trimmed(s).len() > 0,
        !is_white_space(trimmed(s).first()),
        !is_white_space(trimmed(s).last()),
{
    let (a, b) = lemma_trimmed_bounds(s);
    assert(a <= i) by {
        if i < a {
            assert(s.take(a)[i] == s[i]);
        }
    }
    assert(i < b) by {
        if b <= i {
            assert(s.skip(b)[i - b] == s[i]);
        }
    }
}

/// Trimming keeps one contiguous range of the text: everything before the
/// range and after it is white space, and the range neither starts nor ends
/// with white space.
pub proof fn lemma_trimmed_bounds(s: Seq<char>) -> (r: (int, int))
    ensures
        0 <= r.0 <= r.1 <= s.len(),
        trimmed(s) == s.subrange(r.0, r.1),
        all_white_space(s.take(r.0)),
        all_white_space(s.skip(r.1)),
        r.0 < r.1 ==> !is_white_space(s[r.0]) && !is_white_space(s[r.1 - 1]),
        r.0 == r.1 ==> all_white_space(s),
{
    let a = leading_white_space(s);
    lemma_leading_white_space(s);
    lemma_trim_start_skips(s, a);
    let t = s.skip(a);
    let k = trailing_white_space(t);
    lemma_trailing_white_space(t);
    let b = s.len() - k;
    lemma_trim_end_takes(t, t.len() - k);
    assert forall|i: int| 0 <= i < s.len() - b implies is_white_space(#[trigger] s.skip(b)[i]) by {
        assert(t.skip(t.len() - k)[i] == s.skip(b)[i]);
    }
    if a == b {
        assert forall|i: int| 0 <= i < s.len() implies is_white_space(#[trigger] s[i]) by {
            if i < a {
                assert(s.take(a)[i] == s[i]);
            } else {
                assert(s.skip(b)[i - b] == s[i]);
            }
        }
    }
    (a, b)
}

/// The number of white-space characters at the start of `s`.
pub open spec fn leading_white_space(s: Seq<char>) -> int
    decreases s.len(),
{
    if s.len() > 0 && is_white_space(s.first()) {
        1 + leading_white_space(s.drop_first())
    } else {
        0
    }
}

/// The number of white-space characters at the end of `s`.
pub open spec fn trailing_white_space(s: Seq<char>) -> int
    decreases s.len(),
{
    if s.len() > 0 && is_white_space(s.last()) {
        1 + trailing_white_space(s.drop_last())
    } else {
        0
    }
}

proof fn lemma_leading_white_space(s: Seq<char>)
    ensures
        0 <= leading_white_space(s) <= s.len(),
        all_white_space(s.take(leading_white_space(s))),
        leading_white_space(s) < s.len() ==> !is_white_space(s[leading_white_space(s)]),
    decreases s.len(),
{
    if s.len() > 0 && is_white_space(s.first()) {
        let rest = s.drop_first();
        lemma_leading_white_space(rest);
        let a = leading_white_space(rest);
        assert forall|i: int| 0 <= i < a + 1 implies is_white_space(
            #[trigger] s.take(a + 1)[i],
        ) by {
            if i > 0 {
                assert(rest.take(a)[i - 1] == s.take(a + 1)[i]);
            }
        }
    }
}

proof fn lemma_trailing_white_space(s: Seq<char>)
    ensures
        0 <= trailing_white_space(s) <= s.len(),
        all_white_space(s.skip(s.len() - trailing_white_space(s))),
        trailing_white_space(s) < s.len() ==> !is_white_space(
            s[s.len() - trailing_white_space(s) - 1],
        ),
    decreases s.len(),
{
    if s.len() > 0 && is_white_space(s.last()) {
        let rest = s.drop_last();
        lemma_trailing_white_space(rest);
        let k = trailing_white_space(rest);
        let b = s.len() - (k + 1);
        assert forall|i: int| 0 <= i < k + 1 implies is_white_space(#[trigger] s.skip(b)[i]) by {
            if i < k {
                assert(rest.skip(b)[i] == s.skip(b)[i]);
            }
        }
    }
}

/// Trimming twice is trimming once.
pub proof fn lemma_trimmed_idempotent(s: Seq<char>)
    ensures
        trimmed(trimmed(s)) == trimmed(s),
{
    let (a, b) = lemma_trimmed_bounds(s);
    let t = trimmed(s);
    if a < b {
        lemma_trim_start_skips(t, 0);
        lemma_trim_end_takes(t, t.len() as int);
    }
}

/// Trimming neither makes a cell blank nor makes a blank cell visible.
pub proof fn lemma_trimmed_blank(s: Seq<char>)
    ensures
        is_blank(trimmed(s)) == is_blank(s),
{
    lemma_trimmed_idempotent(s);
}

/// Decides whether `c` is a white-space character.
pub fn char_is_white_space(c: char) -> (b: bool)
    ensures
        b == is_white_space(c),
{
    let n: u32 = c as u32;
    (0x09 <= n && n <= 0x0D) || n == 0x20 || n == 0x85 || n == 0xA0 || n == 0x1680 || (0x2000 <= n
        && n <= 0x200A) || n == 0x2028 || n == 0x2029 || n == 0x202F || n == 0x205F || n == 0x3000
}

/// Decides whether a cell is blank.
pub fn str_is_blank(s: &str) -> (b: bool)
    ensures
        b == is_blank(s@),
{
    broadcast use vstd::string::group_string_axioms;

    let mut blank = true;
    for c in it: s.chars()
        invariant
            it.seq() == s@,
            blank == all_white_space(s@.take(it.index())),
    {
        proof {
            let k = it.index();
            let shorter = s@.take(k);
            let longer = s@.take(k + 1);
            if all_white_space(longer) {
                assert(longer[k] == s@[k]);
                assert forall|i: int| 0 <= i < k implies is_white_space(#[trigger] shorter[i]) by {
                    assert(longer[i] == shorter[i]);
                }
            }
            if all_white_space(shorter) && is_white_space(s@[k]) {
                assert forall|i: int| 0 <= i < k + 1 implies is_white_space(
                    #[trigger] longer[i],
                ) by {
                    assert(i < k ==> longer[i] == shorter[i]);
                }
            }
        }
        blank = blank && char_is_white_space(c);
    }
    proof {
        assert(s@.take(s@.len() as int) =~= s@);
        lemma_blank_iff_all_white_space(s@);
    }
    blank
}

/// The text of `s` between its leading and its trailing white space.
pub fn trim(s: &str) -> (r: &str)
    ensures
        r@ == trimmed(s@),
{
    broadcast use vstd::string::group_string_axioms;

    let n = s.unicode_len();
    let mut start: usize = 0;
    let mut end: usize = 0;
    let mut i: usize = 0;
    for c in it: s.chars()
        invariant
            it.seq() == s@,
            n == s@.len(),
            i == it.index(),
            (end == 0 && start == 0) || start < end,
            end <= i,
            end == 0 ==> all_white_space(s@.take(i as int)),
            end > 0 ==> all_white_space(s@.take(start as int)),
            end > 0 ==> !is_white_space(s@[start as int]) && !is_white_space(s@[end - 1]),
            forall|j: int| end <= j < i ==> is_white_space(#[trigger] s@[j]),
    {
        let white = char_is_white_space(c);
        proof {
            let k = i as int;
            if end == 0 && white {
                assert forall|j: int| 0 <= j < k + 1 implies is_white_space(
                    #[trigger] s@.take(k + 1)[j],
                ) by {
                    assert(j < k ==> s@.take(k)[j] == s@.take(k + 1)[j]);
                }
            }
        }
        if !white {
            if end == 0 {
                start = i;
            }
            end = i + 1;
        }
        i = i + 1;
    }
    proof {
        let text = s@;
        if end == 0 {
            lemma_blank_iff_all_white_space(text);
        } else {
            lemma_trim_start_skips(text, start as int);
            let t = text.skip(start as int);
            let b = end - start;
            assert forall|j: int| 0 <= j < t.len() - b implies is_white_space(
                #[trigger] t.skip(b)[j],
            ) by {
                assert(t.skip(b)[j] == text[end + j]);
            }
            lemma_trim_end_takes(t, b);
        }
    }
    s.substring_char(start, end)
}

} // verus!
