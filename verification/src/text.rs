//! Character-level string helpers with exact specifications over `Seq<char>`.

use vstd::prelude::*;

verus! {

/// The optional string `o` by its view.
pub open spec fn opt_view(o: Option<String>) -> Option<Seq<char>> {
    match o {
        Some(s) => Some(s@),
        None => None,
    }
}

/// The optional string slice `o` by its view.
pub open spec fn opt_str_view(o: Option<&str>) -> Option<Seq<char>> {
    match o {
        Some(s) => Some(s@),
        None => None,
    }
}

/// The views of a list of strings.
pub open spec fn string_views(v: Seq<String>) -> Seq<Seq<char>> {
    v.map_values(|s: String| s@)
}

/// `s` ends with `suffix`.
pub open spec fn has_suffix(s: Seq<char>, suffix: Seq<char>) -> bool {
    &&& suffix.len() <= s.len()
    &&& s.subrange(s.len() - suffix.len(), s.len() as int) == suffix
}

/// Returns whether `s` ends with `suffix`.
pub fn ends_with(s: &str, suffix: &str) -> (res: bool)
    ensures
        res == has_suffix(s@, suffix@),
{
    let n = s.unicode_len();
    let m = suffix.unicode_len();
    if m > n {
        return false;
    }
    let off = n - m;
    let mut i: usize = 0;
    while i < m
        invariant
            n == s@.len(),
            m == suffix@.len(),
            off + m == n,
            i <= m,
            forall|j: int| 0 <= j < i ==> s@[off + j] == suffix@[j],
        decreases m - i,
    {
        if s.get_char(off + i) != suffix.get_char(i) {
            assert(s@.subrange(off as int, n as int)[i as int] != suffix@[i as int]);
            return false;
        }
        i += 1;
    }
    assert(s@.subrange(off as int, n as int) =~= suffix@);
    true
}

/// Returns whether `a` and `b` hold the same characters.
pub fn str_equal(a: &str, b: &str) -> (res: bool)
    ensures
        res == (a@ == b@),
{
    let n = a.unicode_len();
    if n != b.unicode_len() {
        return false;
    }
    let mut i: usize = 0;
    while i < n
        invariant
            n == a@.len(),
            n == b@.len(),
            i <= n,
            forall|j: int| 0 <= j < i ==> a@[j] == b@[j],
        decreases n - i,
    {
        if a.get_char(i) != b.get_char(i) {
            return false;
        }
        i += 1;
    }
    assert(a@ =~= b@);
    true
}


/// The characters that carry the Unicode `White_Space` property, which is
/// what `char::is_whitespace` and `str::trim` treat as whitespace.
pub open spec fn is_white_space(c: char) -> bool {
    let u = c as u32;
    ||| 0x09 <= u <= 0x0d
    ||| u == 0x20
    ||| u == 0x85
    ||| u == 0xa0
    ||| u == 0x1680
    ||| 0x2000 <= u <= 0x200a
    ||| u == 0x2028
    ||| u == 0x2029
    ||| u == 0x202f
    ||| u == 0x205f
    ||| u == 0x3000
}

/// Returns whether `c` is a Unicode whitespace character.
pub fn is_white_space_char(c: char) -> (res: bool)
    ensures
        res == is_white_space(c),
{
    let u = c as u32;
    (0x09 <= u && u <= 0x0d) || u == 0x20 || u == 0x85 || u == 0xa0 || u == 0x1680 || (0x2000
        <= u && u <= 0x200a) || u == 0x2028 || u == 0x2029 || u == 0x202f || u == 0x205f || u
        == 0x3000
}

/// `s` without its leading whitespace.
pub open spec fn trim_start_spec(s: Seq<char>) -> Seq<char>
    decreases s.len(),
{
    if s.len() > 0 && is_white_space(s[0]) {
        trim_start_spec(s.drop_first())
    } else {
        s
    }
}

/// `s` without its trailing whitespace.
pub open spec fn trim_end_spec(s: Seq<char>) -> Seq<char>
    decreases s.len(),
{
    if s.len() > 0 && is_white_space(s.last()) {
        trim_end_spec(s.drop_last())
    } else {
        s
    }
}

/// `s` without leading and trailing whitespace.
pub open spec fn trimmed(s: Seq<char>) -> Seq<char> {
    trim_end_spec(trim_start_spec(s))
}

/// Returns `s` without leading and trailing whitespace.
pub fn trim(s: &str) -> (res: &str)
    ensures
        res@ == trimmed(s@),
{
    let n = s.unicode_len();
    let mut a: usize = 0;
    assert(s@.subrange(0, n as int) =~= s@);
    while a < n && is_white_space_char(s.get_char(a))
        invariant
            a <= n,
            n == s@.len(),
            trim_start_spec(s@) == trim_start_spec(s@.subrange(a as int, n as int)),
        decreases n - a,
    {
        assert(s@.subrange(a as int, n as int).drop_first() =~= s@.subrange(a + 1, n as int));
        a += 1;
    }
    assert(trim_start_spec(s@) == s@.subrange(a as int, n as int));
    let mut b: usize = n;
    while b > a && is_white_space_char(s.get_char(b - 1))
        invariant
            a <= b <= n,
            n == s@.len(),
            trim_end_spec(s@.subrange(a as int, n as int)) == trim_end_spec(
                s@.subrange(a as int, b as int),
            ),
        decreases b - a,
    {
        assert(s@.subrange(a as int, b as int).drop_last() =~= s@.subrange(a as int, b - 1));
        b -= 1;
    }
    s.substring_char(a, b)
}

/// Index of the last occurrence of `c` in `s`, or -1 when `c` does not occur.
pub open spec fn last_index_of(s: Seq<char>, c: char) -> int
    decreases s.len(),
{
    if s.len() == 0 {
        -1
    } else if s.last() == c {
        s.len() - 1
    } else {
        last_index_of(s.drop_last(), c)
    }
}

/// `last_index_of` is -1 exactly when `c` does not occur; otherwise it is the
/// position of an occurrence with no occurrence after it.
pub proof fn lemma_last_index_of(s: Seq<char>, c: char)
    ensures
        -1 <= last_index_of(s, c) < s.len(),
        last_index_of(s, c) == -1 <==> !s.contains(c),
        last_index_of(s, c) >= 0 ==> s[last_index_of(s, c)] == c,
        forall|j: int| last_index_of(s, c) < j < s.len() ==> s[j] != c,
    decreases s.len(),
{
    if s.len() > 0 && s.last() != c {
        lemma_last_index_of(s.drop_last(), c);
        if s.contains(c) {
            let j = choose|j: int| 0 <= j < s.len() && s[j] == c;
            assert(s.drop_last()[j] == c);
        }
        assert forall|j: int| last_index_of(s, c) < j < s.len() implies s[j] != c by {
            if j < s.len() - 1 {
                assert(s.drop_last()[j] == s[j]);
            }
        }
    } else if s.len() > 0 {
        assert(s.contains(c)) by {
            assert(s[s.len() - 1] == c);
        }
    }
}

/// Returns the position of the last `c` in `s`, if any.
pub fn rfind_char(s: &str, c: char) -> (res: Option<usize>)
    ensures
        match res {
            Some(i) => i == last_index_of(s@, c),
            None => last_index_of(s@, c) == -1,
        },
{
    let n = s.unicode_len();
    let mut i: usize = n;
    assert(s@.subrange(0, n as int) =~= s@);
    while i > 0
        invariant
            i <= n,
            n == s@.len(),
            last_index_of(s@, c) == last_index_of(s@.subrange(0, i as int), c),
        decreases i,
    {
        assert(s@.subrange(0, i as int).drop_last() =~= s@.subrange(0, i - 1));
        if s.get_char(i - 1) == c {
            return Some(i - 1);
        }
        i -= 1;
    }
    None
}

/// The piece `t` as a list of at most one piece: empty pieces are dropped.
pub open spec fn keep_nonempty(t: Seq<char>) -> Seq<Seq<char>> {
    if t.len() == 0 {
        seq![]
    } else {
        seq![t]
    }
}

/// The pieces of `current + rest` between occurrences of `sep`, where
/// `current` is the start of the first piece: each piece trimmed, and the
/// pieces that are empty after trimming dropped.
pub open spec fn trimmed_pieces(current: Seq<char>, rest: Seq<char>, sep: char) -> Seq<Seq<char>>
    decreases rest.len(),
{
    if rest.len() == 0 {
        keep_nonempty(trimmed(current))
    } else if rest[0] == sep {
        keep_nonempty(trimmed(current)) + trimmed_pieces(seq![], rest.drop_first(), sep)
    } else {
        trimmed_pieces(current.push(rest[0]), rest.drop_first(), sep)
    }
}

/// The views of a list of string slices.
pub open spec fn str_views(v: Seq<&str>) -> Seq<Seq<char>> {
    v.map_values(|p: &str| p@)
}

/// Splits `s` at every `sep`, trims each piece and drops the empty ones.
pub fn split_trimmed<'a>(s: &'a str, sep: char) -> (res: Vec<&'a str>)
    ensures
        str_views(res@) == trimmed_pieces(seq![], s@, sep),
{
    let n = s.unicode_len();
    let mut res: Vec<&'a str> = Vec::new();
    let mut start: usize = 0;
    let mut i: usize = 0;
    assert(s@.subrange(0, 0) =~= seq![]);
    assert(s@.subrange(0, n as int) =~= s@);
    while i < n
        invariant
            start <= i <= n,
            n == s@.len(),
            trimmed_pieces(seq![], s@, sep) == str_views(res@) + trimmed_pieces(
                s@.subrange(start as int, i as int),
                s@.subrange(i as int, n as int),
                sep,
            ),
        decreases n - i,
    {
        let ghost rest = s@.subrange(i as int, n as int);
        assert(rest.drop_first() =~= s@.subrange(i + 1, n as int));
        assert(rest[0] == s@[i as int]);
        if s.get_char(i) == sep {
            let piece = trim(s.substring_char(start, i));
            let ghost before = res@;
            if piece.unicode_len() > 0 {
                res.push(piece);
                assert(str_views(res@) =~= str_views(before) + seq![piece@]);
            } else {
                assert(keep_nonempty(piece@) =~= seq![]);
            }
            assert(s@.subrange(i + 1, i + 1) =~= seq![]);
            start = i + 1;
        } else {
            assert(s@.subrange(start as int, i as int).push(s@[i as int]) =~= s@.subrange(
                start as int,
                i + 1,
            ));
        }
        i += 1;
    }
    let piece = trim(s.substring_char(start, n));
    let ghost before = res@;
    if piece.unicode_len() > 0 {
        res.push(piece);
        assert(str_views(res@) =~= str_views(before) + seq![piece@]);
    } else {
        assert(str_views(res@) =~= str_views(before) + seq![]);
    }
    res
}

/// Leading whitespace removal drops exactly the whitespace before position
/// `k`, and stops at a character that is not whitespace.
proof fn lemma_trim_start_cut(s: Seq<char>) -> (k: int)
    ensures
        0 <= k <= s.len(),
        trim_start_spec(s) == s.subrange(k, s.len() as int),
        forall|i: int| 0 <= i < k ==> is_white_space(#[trigger] s[i]),
        k < s.len() ==> !is_white_space(s[k]),
    decreases s.len(),
{
    if s.len() > 0 && is_white_space(s[0]) {
        let j = lemma_trim_start_cut(s.drop_first());
        assert(s.drop_first().subrange(j, s.drop_first().len() as int) =~= s.subrange(
            j + 1,
            s.len() as int,
        ));
        assert forall|i: int| 0 <= i < j + 1 implies is_white_space(#[trigger] s[i]) by {
            if i > 0 {
                assert(s[i] == s.drop_first()[i - 1]);
            }
        }
        if j + 1 < s.len() {
            assert(s[j + 1] == s.drop_first()[j]);
        }
        j + 1
    } else {
        assert(s.subrange(0, s.len() as int) =~= s);
        0
    }
}

/// Trailing whitespace removal drops exactly the whitespace from position
/// `k` on, and stops after a character that is not whitespace.
proof fn lemma_trim_end_cut(s: Seq<char>) -> (k: int)
    ensures
        0 <= k <= s.len(),
        trim_end_spec(s) == s.subrange(0, k),
        forall|i: int| k <= i < s.len() ==> is_white_space(#[trigger] s[i]),
        k > 0 ==> !is_white_space(s[k - 1]),
    decreases s.len(),
{
    if s.len() > 0 && is_white_space(s.last()) {
        let j = lemma_trim_end_cut(s.drop_last());
        assert(s.drop_last().subrange(0, j) =~= s.subrange(0, j));
        assert forall|i: int| j <= i < s.len() implies is_white_space(#[trigger] s[i]) by {
            if i < s.len() - 1 {
                assert(s[i] == s.drop_last()[i]);
            }
        }
        if j > 0 {
            assert(s[j - 1] == s.drop_last()[j - 1]);
        }
        j
    } else {
        assert(s.subrange(0, s.len() as int) =~= s);
        s.len() as int
    }
}

/// Trimming removes exactly the whitespace at both ends: what is left is the
/// part of the text between the first and the last character that is not
/// whitespace, and it is empty exactly when the text is all whitespace.
pub proof fn law_trimmed_strips_whitespace(s: Seq<char>)
    ensures
        exists|a: int, b: int|
            {
                &&& 0 <= a <= b <= s.len()
                &&& trimmed(s) == #[trigger] s.subrange(a, b)
                &&& forall|i: int| 0 <= i < a ==> is_white_space(#[trigger] s[i])
                &&& forall|i: int| b <= i < s.len() ==> is_white_space(#[trigger] s[i])
                &&& a < b ==> !is_white_space(s[a]) && !is_white_space(s[b - 1])
            },
{
    let a = lemma_trim_start_cut(s);
    let t = s.subrange(a, s.len() as int);
    let c = lemma_trim_end_cut(t);
    let b = a + c;
    assert(t.subrange(0, c) =~= s.subrange(a, b));
    assert forall|i: int| b <= i < s.len() implies is_white_space(#[trigger] s[i]) by {
        assert(s[i] == t[i - a]);
    }
    if a < b {
        assert(s[b - 1] == t[c - 1]);
    }
    assert(trimmed(s) == s.subrange(a, b));
}

/// The trimmed pieces of a text without separators, after a start without
/// separators: the whole text, trimmed, if that is not empty.
proof fn lemma_pieces_without_separator(current: Seq<char>, rest: Seq<char>, sep: char)
    requires
        !rest.contains(sep),
    ensures
        trimmed_pieces(current, rest, sep) == keep_nonempty(trimmed(current + rest)),
    decreases rest.len(),
{
    if rest.len() == 0 {
        assert(current + rest =~= current);
    } else {
        assert(rest[0] != sep);
        assert(!rest.drop_first().contains(sep)) by {
            if rest.drop_first().contains(sep) {
                let j = choose|j: int| 0 <= j < rest.drop_first().len() && rest.drop_first()[j] == sep;
                assert(rest[j + 1] == sep);
            }
        }
        lemma_pieces_without_separator(current.push(rest[0]), rest.drop_first(), sep);
        assert(current.push(rest[0]) + rest.drop_first() =~= current + rest);
    }
}

/// The trimmed pieces of `x`, a separator, then `y`, after a start without
/// separators: the piece made of the start and `x`, then the pieces of `y`.
proof fn lemma_pieces_at_separator(current: Seq<char>, x: Seq<char>, y: Seq<char>, sep: char)
    requires
        !x.contains(sep),
    ensures
        trimmed_pieces(current, x + seq![sep] + y, sep) == keep_nonempty(trimmed(current + x))
            + trimmed_pieces(seq![], y, sep),
    decreases x.len(),
{
    let text = x + seq![sep] + y;
    if x.len() == 0 {
        assert(text[0] == sep);
        assert(text.drop_first() =~= y);
        assert(current + x =~= current);
    } else {
        assert(text[0] == x[0]);
        assert(x[0] != sep);
        assert(!x.drop_first().contains(sep)) by {
            if x.drop_first().contains(sep) {
                let j = choose|j: int| 0 <= j < x.drop_first().len() && x.drop_first()[j] == sep;
                assert(x[j + 1] == sep);
            }
        }
        assert(text.drop_first() =~= x.drop_first() + seq![sep] + y);
        lemma_pieces_at_separator(current.push(x[0]), x.drop_first(), y, sep);
        assert(current.push(x[0]) + x.drop_first() =~= current + x);
    }
}

/// A text without separators is one piece: it is kept, trimmed, exactly
/// when it is not all whitespace, whatever characters it holds.
pub proof fn law_single_piece_kept(s: Seq<char>, sep: char)
    requires
        !s.contains(sep),
    ensures
        trimmed_pieces(seq![], s, sep) == if trimmed(s).len() > 0 {
            seq![trimmed(s)]
        } else {
            Seq::<Seq<char>>::empty()
        },
{
    lemma_pieces_without_separator(seq![], s, sep);
    assert(Seq::<char>::empty() + s =~= s);
}

/// Cutting at the first separator: the pieces of `x`, a separator, then `y`
/// are the pieces of `x` followed by the pieces of `y`. With the law above,
/// every piece between separators that is not all whitespace is kept,
/// trimmed, in order, and nothing else is.
pub proof fn law_pieces_split_at_separator(x: Seq<char>, y: Seq<char>, sep: char)
    requires
        !x.contains(sep),
    ensures
        trimmed_pieces(seq![], x + seq![sep] + y, sep) == trimmed_pieces(seq![], x, sep)
            + trimmed_pieces(seq![], y, sep),
{
    lemma_pieces_at_separator(seq![], x, y, sep);
    lemma_pieces_without_separator(seq![], x, sep);
    assert(Seq::<char>::empty() + x =~= x);
}

} // verus!
