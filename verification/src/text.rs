//! Line text handling: trimming client input and recognising blank
//! lines, so that whitespace-only input never becomes an activity.

use vstd::prelude::*;

verus! {

/// The whitespace characters a chat line is trimmed by.
pub open spec fn is_space(c: char) -> bool {
    c == ' ' || c == '\t' || c == '\r' || c == '\n'
}

/// A line is blank when every character is whitespace.
pub open spec fn is_blank(s: Seq<char>) -> bool {
    forall|i: int| 0 <= i < s.len() ==> is_space(#[trigger] s[i])
}

/// `s` with its leading whitespace removed.
pub open spec fn trim_start_spec(s: Seq<char>) -> Seq<char>
    decreases s.len(),
{
    if s.len() > 0 && is_space(s[0]) {
        trim_start_spec(s.subrange(1, s.len() as int))
    } else {
        s
    }
}

/// `s` with its trailing whitespace removed.
pub open spec fn trim_end_spec(s: Seq<char>) -> Seq<char>
    decreases s.len(),
{
    if s.len() > 0 && is_space(s[s.len() - 1]) {
        trim_end_spec(s.subrange(0, s.len() - 1))
    } else {
        s
    }
}

/// `s` with leading and trailing whitespace removed.
pub open spec fn trim_spec(s: Seq<char>) -> Seq<char> {
    trim_end_spec(trim_start_spec(s))
}

/// If the first `i` characters are whitespace and position `i` (if any)
/// is not, trimming from the start keeps exactly the tail from `i`.
proof fn lemma_trim_start_at(s: Seq<char>, i: int)
    requires
        0 <= i <= s.len(),
        forall|k: int| 0 <= k < i ==> is_space(#[trigger] s[k]),
        i == s.len() || !is_space(s[i]),
    ensures
        trim_start_spec(s) == s.subrange(i, s.len() as int),
    decreases i,
{
    if i == 0 {
        assert(trim_start_spec(s) =~= s.subrange(0, s.len() as int));
    } else {
        let t = s.subrange(1, s.len() as int);
        lemma_trim_start_at(t, i - 1);
        assert(t.subrange(i - 1, t.len() as int) =~= s.subrange(i, s.len() as int));
    }
}

/// If every character from `j` on is whitespace and position `j - 1`
/// (if any) is not, trimming from the end keeps exactly the head up to
/// `j`.
proof fn lemma_trim_end_at(s: Seq<char>, j: int)
    requires
        0 <= j <= s.len(),
        forall|k: int| j <= k < s.len() ==> is_space(#[trigger] s[k]),
        j == 0 || !is_space(s[j - 1]),
    ensures
        trim_end_spec(s) == s.subrange(0, j),
    decreases s.len() - j,
{
    if j == s.len() {
        assert(trim_end_spec(s) =~= s.subrange(0, j));
    } else {
        let t = s.subrange(0, s.len() - 1);
        lemma_trim_end_at(t, j);
        assert(t.subrange(0, j) =~= s.subrange(0, j));
    }
}

/// Trimming a blank line leaves nothing.
proof fn lemma_trim_start_blank(s: Seq<char>)
    requires
        is_blank(s),
    ensures
        trim_start_spec(s) == Seq::<char>::empty(),
    decreases s.len(),
{
    if s.len() > 0 {
        let t = s.subrange(1, s.len() as int);
        assert(is_blank(t));
        lemma_trim_start_blank(t);
    } else {
        assert(trim_start_spec(s) =~= Seq::<char>::empty());
    }
}

/// Trimming a line that has a non-whitespace character keeps one: the
/// result is non-empty and starts with a non-whitespace character.
proof fn lemma_trim_start_non_blank(s: Seq<char>)
    requires
        !is_blank(s),
    ensures
        trim_start_spec(s).len() > 0,
        !is_space(trim_start_spec(s)[0]),
        !is_blank(trim_start_spec(s)),
    decreases s.len(),
{
    if s.len() > 0 && is_space(s[0]) {
        let t = s.subrange(1, s.len() as int);
        assert(!is_blank(t)) by {
            let w = choose|i: int| 0 <= i < s.len() && !is_space(s[i]);
            assert(!is_space(t[w - 1]));
        }
        lemma_trim_start_non_blank(t);
    } else {
        assert(!is_space(s[0])) by {
            if s.len() == 0 {
                assert(is_blank(s));
            }
        }
    }
}

/// Trimming the end of a line whose first character is not whitespace
/// keeps that character.
proof fn lemma_trim_end_non_blank(s: Seq<char>)
    requires
        s.len() > 0,
        !is_space(s[0]),
    ensures
        trim_end_spec(s).len() > 0,
        trim_end_spec(s)[0] == s[0],
    decreases s.len(),
{
    if is_space(s[s.len() - 1]) {
        let t = s.subrange(0, s.len() - 1);
        lemma_trim_end_non_blank(t);
    }
}

/// A line trims to nothing exactly when it is blank, and a non-blank
/// line trims to a non-blank line: trimming never turns chat text into
/// silence nor silence into chat text.
pub proof fn lemma_blank_trim(s: Seq<char>)
    ensures
        is_blank(s) <==> trim_spec(s).len() == 0,
        !is_blank(s) ==> !is_blank(trim_spec(s)),
{
    if is_blank(s) {
        lemma_trim_start_blank(s);
        assert(trim_end_spec(Seq::<char>::empty()) =~= Seq::<char>::empty());
    } else {
        lemma_trim_start_non_blank(s);
        lemma_trim_end_non_blank(trim_start_spec(s));
        assert(!is_space(trim_spec(s)[0]));
    }
}

/// Whether `c` is one of the whitespace characters lines are trimmed by.
pub fn is_space_char(c: char) -> (r: bool)
    ensures
        r == is_space(c),
{
    c == ' ' || c == '\t' || c == '\r' || c == '\n'
}

/// Whether every character of `s` is whitespace.
pub fn is_blank_line(s: &str) -> (r: bool)
    ensures
        r == is_blank(s@),
{
    let n = s.unicode_len();
    let mut i: usize = 0;
    while i < n
        invariant
            0 <= i <= n,
            n == s@.len(),
            forall|k: int| 0 <= k < i ==> is_space(#[trigger] s@[k]),
        decreases n - i,
    {
        if !is_space_char(s.get_char(i)) {
            return false;
        }
        i = i + 1;
    }
    true
}

/// `s` with leading and trailing whitespace removed, exactly as
/// [`trim_spec`] describes.
pub fn trim_line(s: &str) -> (r: String)
    ensures
        r@ == trim_spec(s@),
{
    let n = s.unicode_len();
    let mut i: usize = 0;
    loop
        invariant
            0 <= i <= n,
            n == s@.len(),
            forall|k: int| 0 <= k < i ==> is_space(#[trigger] s@[k]),
        ensures
            0 <= i <= n,
            n == s@.len(),
            forall|k: int| 0 <= k < i ==> is_space(#[trigger] s@[k]),
            i == n || !is_space(s@[i as int]),
        decreases n - i,
    {
        if i < n {
            if is_space_char(s.get_char(i)) {
                i = i + 1;
            } else {
                break;
            }
        } else {
            break;
        }
    }
    let mut j: usize = n;
    loop
        invariant
            i <= j <= n,
            n == s@.len(),
            forall|k: int| 0 <= k < i ==> is_space(#[trigger] s@[k]),
            i == n || !is_space(s@[i as int]),
            forall|k: int| j <= k < n ==> is_space(#[trigger] s@[k]),
        ensures
            i <= j <= n,
            n == s@.len(),
            forall|k: int| j <= k < n ==> is_space(#[trigger] s@[k]),
            j == i || !is_space(s@[j - 1]),
        decreases j,
    {
        if j > i {
            if is_space_char(s.get_char(j - 1)) {
                j = j - 1;
            } else {
                break;
            }
        } else {
            break;
        }
    }
    proof {
        lemma_trim_start_at(s@, i as int);
        let t = s@.subrange(i as int, n as int);
        if j == i {
            assert(i == n) by {
                if i < n {
                    assert(is_space(s@[i as int]));
                }
            }
            lemma_trim_end_at(t, 0);
        } else {
            lemma_trim_end_at(t, j - i);
        }
        assert(t.subrange(0, j - i) =~= s@.subrange(i as int, j as int));
    }
    let piece = s.substring_char(i, j);
    String::from_str(piece)
}

} // verus!
