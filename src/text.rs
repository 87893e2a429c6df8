use vstd::prelude::*;

verus! {

/// Whether two strings hold the same characters.
pub fn str_eq(a: &str, b: &str) -> (r: bool)
    ensures
        r == (a@ == b@),
{
    let n = a.unicode_len();
    if n != b.unicode_len() {
        return false;
    }
    let mut i: usize = 0;
    while i < n
        invariant
            n == a@.len(),
            n == b@.len(),
            i <= n,
            a@.subrange(0, i as int) == b@.subrange(0, i as int),
        decreases n - i,
    {
        if a.get_char(i) != b.get_char(i) {
            return false;
        }
        assert(a@.subrange(0, i + 1) =~= a@.subrange(0, i as int).push(a@[i as int]));
        assert(b@.subrange(0, i + 1) =~= b@.subrange(0, i as int).push(b@[i as int]));
        i = i + 1;
    }
    assert(a@ =~= a@.subrange(0, n as int));
    assert(b@ =~= b@.subrange(0, n as int));
    true
}

} // verus!

verus! {

/// The characters that have the Unicode `White_Space` property.
pub open spec fn is_ws(c: char) -> bool {
    ||| '\u{9}' <= c && c <= '\u{d}'
    ||| c == ' '
    ||| c == '\u{85}'
    ||| c == '\u{a0}'
    ||| c == '\u{1680}'
    ||| '\u{2000}' <= c && c <= '\u{200a}'
    ||| c == '\u{2028}'
    ||| c == '\u{2029}'
    ||| c == '\u{202f}'
    ||| c == '\u{205f}'
    ||| c == '\u{3000}'
}

/// Whether `c` is a whitespace character (as `char::is_whitespace` defines it).
pub fn is_whitespace(c: char) -> (r: bool)
    ensures
        r == is_ws(c),
{
    ('\u{9}' <= c && c <= '\u{d}') || c == ' ' || c == '\u{85}' || c == '\u{a0}' || c
        == '\u{1680}' || ('\u{2000}' <= c && c <= '\u{200a}') || c == '\u{2028}' || c
        == '\u{2029}' || c == '\u{202f}' || c == '\u{205f}' || c == '\u{3000}'
}

/// The first index at or after `i` whose character is not whitespace (or the length).
pub open spec fn skip_ws_forward(s: Seq<char>, i: int) -> int
    decreases s.len() - i,
{
    if 0 <= i < s.len() && is_ws(s[i]) {
        skip_ws_forward(s, i + 1)
    } else {
        i
    }
}

/// Going back from `j`, no further than `lo`, the end of the last run that is not whitespace.
pub open spec fn skip_ws_backward(s: Seq<char>, lo: int, j: int) -> int
    decreases j - lo,
{
    if lo < j <= s.len() && is_ws(s[j - 1]) {
        skip_ws_backward(s, lo, j - 1)
    } else {
        j
    }
}

/// `s` without its leading and trailing whitespace.
pub open spec fn trim(s: Seq<char>) -> Seq<char> {
    let a = skip_ws_forward(s, 0);
    s.subrange(a, skip_ws_backward(s, a, s.len() as int))
}

pub proof fn lemma_skip_forward_bounds(s: Seq<char>, i: int)
    requires
        0 <= i <= s.len(),
    ensures
        i <= skip_ws_forward(s, i) <= s.len(),
    decreases s.len() - i,
{
    if i < s.len() && is_ws(s[i]) {
        lemma_skip_forward_bounds(s, i + 1);
    }
}

pub proof fn lemma_skip_backward_bounds(s: Seq<char>, lo: int, j: int)
    requires
        0 <= lo <= j <= s.len(),
    ensures
        lo <= skip_ws_backward(s, lo, j) <= j,
    decreases j - lo,
{
    if lo < j && is_ws(s[j - 1]) {
        lemma_skip_backward_bounds(s, lo, j - 1);
    }
}

/// The bounds `(a, b)` of the part of `s` that `trim` keeps.
pub fn trim_bounds(s: &str) -> (r: (usize, usize))
    ensures
        r.0 == skip_ws_forward(s@, 0),
        r.1 == skip_ws_backward(s@, r.0 as int, s@.len() as int),
        r.0 <= r.1 <= s@.len(),
{
    let n = s.unicode_len();
    let mut a: usize = 0;
    while a < n && is_whitespace(s.get_char(a))
        invariant
            n == s@.len(),
            a <= n,
            skip_ws_forward(s@, a as int) == skip_ws_forward(s@, 0),
        decreases n - a,
    {
        a = a + 1;
    }
    let mut b: usize = n;
    while b > a && is_whitespace(s.get_char(b - 1))
        invariant
            n == s@.len(),
            a <= b <= n,
            a == skip_ws_forward(s@, 0),
            skip_ws_backward(s@, a as int, b as int) == skip_ws_backward(s@, a as int, n as int),
        decreases b,
    {
        b = b - 1;
    }
    (a, b)
}

/// `s` with leading and trailing whitespace removed, as a new `String`.
pub fn trimmed(s: &str) -> (r: String)
    ensures
        r@ == trim(s@),
{
    let (a, b) = trim_bounds(s);
    String::from_str(s.substring_char(a, b))
}

} // verus!

verus! {

/// `s` cut at every single space; consecutive spaces give empty pieces.
pub open spec fn split_space(s: Seq<char>) -> Seq<Seq<char>>
    decreases s.len(),
{
    if s.len() == 0 {
        seq![Seq::<char>::empty()]
    } else {
        let p = split_space(s.drop_last());
        if s.last() == ' ' {
            p.push(Seq::<char>::empty())
        } else {
            p.update(p.len() - 1, p.last().push(s.last()))
        }
    }
}

/// The pieces of `s` joined with a single space between each two.
pub open spec fn join_space(s: Seq<Seq<char>>) -> Seq<char>
    decreases s.len(),
{
    if s.len() == 0 {
        Seq::<char>::empty()
    } else if s.len() == 1 {
        s[0]
    } else {
        join_space(s.drop_last()) + " "@ + s.last()
    }
}

/// The characters that a vector of strings holds, one sequence per string.
pub open spec fn strings_view(v: Seq<String>) -> Seq<Seq<char>> {
    v.map_values(|x: String| x@)
}

/// Cuts `s` at every single space.
pub fn split_spaces(s: &str) -> (r: Vec<String>)
    ensures
        strings_view(r@) == split_space(s@),
{
    let n = s.unicode_len();
    let mut done: Vec<String> = Vec::new();
    let mut start: usize = 0;
    let mut i: usize = 0;
    assert(s@.subrange(0, 0) =~= Seq::<char>::empty());
    assert(strings_view(done@).push(s@.subrange(0, 0)) =~= split_space(s@.subrange(0, 0)));
    while i < n
        invariant
            n == s@.len(),
            start <= i <= n,
            split_space(s@.subrange(0, i as int)) == strings_view(done@).push(
                s@.subrange(start as int, i as int),
            ),
        decreases n - i,
    {
        let c = s.get_char(i);
        assert(s@.subrange(0, i + 1).drop_last() =~= s@.subrange(0, i as int));
        assert(s@.subrange(0, i + 1).last() == c);
        if c == ' ' {
            let piece = String::from_str(s.substring_char(start, i));
            let ghost before = done@;
            let ghost piece_view = piece@;
            done.push(piece);
            start = i + 1;
            assert(strings_view(done@) =~= strings_view(before).push(piece_view));
            assert(s@.subrange(start as int, i + 1) =~= Seq::<char>::empty());
        } else {
            assert(s@.subrange(start as int, i + 1) =~= s@.subrange(start as int, i as int).push(
                c,
            ));
        }
        i = i + 1;
    }
    assert(s@.subrange(0, n as int) =~= s@);
    let last = String::from_str(s.substring_char(start, n));
    done.push(last);
    done
}

/// The strings of `v` joined with a single space between each two.
pub fn join_with_space(v: &Vec<String>) -> (r: String)
    ensures
        r@ == join_space(strings_view(v@)),
{
    let mut acc = String::new();
    let mut i: usize = 0;
    while i < v.len()
        invariant
            i <= v@.len(),
            acc@ == join_space(strings_view(v@.subrange(0, i as int))),
        decreases v@.len() - i,
    {
        assert(strings_view(v@.subrange(0, i + 1)).drop_last() =~= strings_view(
            v@.subrange(0, i as int),
        ));
        if i > 0 {
            acc.append(" ");
        }
        acc.append(v[i].as_str());
        i = i + 1;
    }
    assert(v@.subrange(0, v@.len() as int) =~= v@);
    acc
}

} // verus!

verus! {

/// Cutting a line at spaces always leaves at least one piece.
pub proof fn lemma_split_space_nonempty(s: Seq<char>)
    ensures
        split_space(s).len() >= 1,
    decreases s.len(),
{
    if s.len() > 0 {
        lemma_split_space_nonempty(s.drop_last());
    }
}

} // verus!

verus! {

/// A copy of `v`, string by string.
pub fn copy_strings(v: &Vec<String>) -> (r: Vec<String>)
    ensures
        strings_view(r@) == strings_view(v@),
{
    let mut r: Vec<String> = Vec::new();
    let mut i: usize = 0;
    while i < v.len()
        invariant
            i <= v@.len(),
            strings_view(r@) == strings_view(v@.subrange(0, i as int)),
        decreases v@.len() - i,
    {
        let ghost before = r@;
        r.push(v[i].clone());
        assert(strings_view(r@) =~= strings_view(before).push(v@[i as int]@));
        assert(strings_view(v@.subrange(0, i + 1)) =~= strings_view(v@.subrange(0, i as int)).push(
            v@[i as int]@,
        ));
        i = i + 1;
    }
    assert(v@.subrange(0, v@.len() as int) =~= v@);
    r
}

} // verus!

verus! {

/// Joining the pieces of `s` cut at spaces gives `s` back.
pub proof fn lemma_join_split(s: Seq<char>)
    ensures
        join_space(split_space(s)) == s,
    decreases s.len(),
{
    if s.len() > 0 {
        let q = s.drop_last();
        lemma_join_split(q);
        lemma_split_space_nonempty(q);
        let p = split_space(q);
        reveal_strlit(" ");
        assert(s =~= q.push(s.last()));
        if s.last() == ' ' {
            let pp = p.push(Seq::<char>::empty());
            assert(pp.drop_last() =~= p);
            assert(join_space(pp) == join_space(p) + " "@ + Seq::<char>::empty());
            assert(join_space(pp) =~= s);
        } else {
            let pp = p.update(p.len() - 1, p.last().push(s.last()));
            if p.len() == 1 {
                assert(pp[0] =~= s);
            } else {
                assert(pp.drop_last() =~= p.drop_last());
                assert(join_space(p) == join_space(p.drop_last()) + " "@ + p.last());
                assert(join_space(pp) == join_space(p.drop_last()) + " "@ + p.last().push(s.last()));
                assert(join_space(pp) =~= s);
            }
        }
    }
}

/// A piece cut at spaces holds no space.
pub proof fn lemma_split_pieces_spaceless(s: Seq<char>)
    ensures
        forall|k: int, c: int|
            0 <= k < split_space(s).len() && 0 <= c < split_space(s)[k].len() ==> #[trigger] split_space(
                s,
            )[k][c] != ' ',
    decreases s.len(),
{
    if s.len() > 0 {
        lemma_split_pieces_spaceless(s.drop_last());
        lemma_split_space_nonempty(s.drop_last());
    }
}

/// Trimming a sequence without whitespace changes nothing.
pub proof fn lemma_trim_no_ws(t: Seq<char>)
    requires
        forall|c: int| 0 <= c < t.len() ==> !is_ws(#[trigger] t[c]),
    ensures
        trim(t) == t,
{
    assert(skip_ws_forward(t, 0) == 0);
    assert(skip_ws_backward(t, 0, t.len() as int) == t.len());
    assert(t.subrange(0, t.len() as int) =~= t);
}

} // verus!

verus! {

/// Each character of a piece cut at spaces comes from the line that was cut.
pub proof fn lemma_split_char_source(s: Seq<char>, k: int, c: int)
    requires
        0 <= k < split_space(s).len(),
        0 <= c < split_space(s)[k].len(),
    ensures
        exists|i: int| 0 <= i < s.len() && s[i] == split_space(s)[k][c],
    decreases s.len(),
{
    if s.len() > 0 {
        let q = s.drop_last();
        lemma_split_space_nonempty(q);
        let p = split_space(q);
        if s.last() == ' ' {
            if k < p.len() {
                lemma_split_char_source(q, k, c);
                let i = choose|i: int| 0 <= i < q.len() && q[i] == p[k][c];
                assert(s[i] == q[i]);
            }
        } else if k < p.len() - 1 || c < p.last().len() {
            lemma_split_char_source(q, k, c);
            let i = choose|i: int| 0 <= i < q.len() && q[i] == p[k][c];
            assert(s[i] == q[i]);
        } else {
            assert(s[s.len() - 1] == split_space(s)[k][c]);
        }
    }
}

} // verus!
