//! Paths as text: their components between separators, file names and file
//! stems, as exclusion rules compare them. Both `\` and `/` separate.
use vstd::prelude::*;
use crate::text::{string_from, string_views, chars_of, push_char};

verus! {

/// Whether `c` separates path components on Windows or elsewhere.
pub open spec fn is_separator(c: char) -> bool {
    c == '\\' || c == '/'
}

/// The pieces of `s` between separators, empty ones included: one more
/// piece than there are separators.
pub open spec fn path_pieces(s: Seq<char>) -> Seq<Seq<char>>
    decreases s.len(),
{
    if s.len() == 0 {
        seq![Seq::<char>::empty()]
    } else {
        let prev = path_pieces(s.drop_last());
        if is_separator(s.last()) {
            prev.push(Seq::<char>::empty())
        } else {
            prev.update(prev.len() - 1, prev.last().push(s.last()))
        }
    }
}

/// `pieces` without its empty pieces.
pub open spec fn nonempty_only(pieces: Seq<Seq<char>>) -> Seq<Seq<char>>
    decreases pieces.len(),
{
    if pieces.len() == 0 {
        pieces
    } else {
        let rest = nonempty_only(pieces.drop_last());
        if pieces.last().len() > 0 {
            rest.push(pieces.last())
        } else {
            rest
        }
    }
}

/// The components of the path `s`: the non-empty pieces between
/// separators, in order.
pub open spec fn path_components(s: Seq<char>) -> Seq<Seq<char>> {
    nonempty_only(path_pieces(s))
}

proof fn lemma_pieces_nonempty(s: Seq<char>)
    ensures
        path_pieces(s).len() >= 1,
    decreases s.len(),
{
    if s.len() > 0 {
        lemma_pieces_nonempty(s.drop_last());
    }
}

proof fn lemma_pieces_have_no_separator(s: Seq<char>)
    ensures
        forall|i: int, j: int|
            0 <= i < path_pieces(s).len() && 0 <= j < path_pieces(s)[i].len() ==> !is_separator(
                #[trigger] path_pieces(s)[i][j],
            ),
    decreases s.len(),
{
    if s.len() > 0 {
        lemma_pieces_have_no_separator(s.drop_last());
        lemma_pieces_nonempty(s.drop_last());
        let prev = path_pieces(s.drop_last());
        let cur = path_pieces(s);
        assert forall|i: int, j: int| 0 <= i < cur.len() && 0 <= j < cur[i].len() implies !is_separator(
            #[trigger] cur[i][j],
        ) by {
            if is_separator(s.last()) {
                if i < prev.len() {
                    assert(cur[i] == prev[i]);
                }
            } else if i < prev.len() - 1 {
                assert(cur[i] == prev[i]);
            } else {
                assert(cur[i] == prev.last().push(s.last()));
                if j < prev.last().len() {
                    assert(cur[i][j] == prev[prev.len() - 1][j]);
                }
            }
        }
    }
}

proof fn lemma_nonempty_only_keeps(pieces: Seq<Seq<char>>)
    ensures
        forall|i: int|
            0 <= i < nonempty_only(pieces).len() ==> (#[trigger] nonempty_only(pieces)[i]).len() > 0
                && pieces.contains(nonempty_only(pieces)[i]),
    decreases pieces.len(),
{
    if pieces.len() > 0 {
        let rest = pieces.drop_last();
        lemma_nonempty_only_keeps(rest);
        let out = nonempty_only(pieces);
        assert forall|i: int| 0 <= i < out.len() implies (#[trigger] out[i]).len() > 0 && pieces.contains(
            out[i],
        ) by {
            if i < nonempty_only(rest).len() {
                assert(out[i] == nonempty_only(rest)[i]);
                let k = choose|k: int| 0 <= k < rest.len() && rest[k] == out[i];
                assert(pieces[k] == rest[k]);
            } else {
                assert(out[i] == pieces.last());
                assert(pieces[pieces.len() - 1] == pieces.last());
            }
        }
    }
}

/// A path's components are names: none is empty and none holds a
/// separator, whatever separators (doubled, leading or trailing) the path
/// is written with.
pub proof fn law_components_are_names(s: Seq<char>)
    ensures
        forall|i: int|
            0 <= i < path_components(s).len() ==> (#[trigger] path_components(s)[i]).len() > 0
                && forall|j: int| 0 <= j < path_components(s)[i].len() ==> !is_separator(path_components(s)[i][j]),
{
    lemma_nonempty_only_keeps(path_pieces(s));
    lemma_pieces_have_no_separator(s);
    let pieces = path_pieces(s);
    let comps = path_components(s);
    assert forall|i: int| 0 <= i < comps.len() implies (#[trigger] comps[i]).len() > 0 && forall|j: int|
        0 <= j < comps[i].len() ==> !is_separator(comps[i][j]) by {
        let k = choose|k: int| 0 <= k < pieces.len() && pieces[k] == comps[i];
        assert forall|j: int| 0 <= j < comps[i].len() implies !is_separator(comps[i][j]) by {
            assert(pieces[k][j] == comps[i][j]);
        }
    }
}

proof fn lemma_pieces_split(a: Seq<char>, c: char, b: Seq<char>)
    requires
        is_separator(c),
    ensures
        path_pieces(a + seq![c] + b) == path_pieces(a) + path_pieces(b),
    decreases b.len(),
{
    let w = a + seq![c] + b;
    if b.len() == 0 {
        assert(w.drop_last() =~= a);
        assert(path_pieces(a).push(Seq::<char>::empty()) =~= path_pieces(a) + path_pieces(b));
    } else {
        assert(w.drop_last() =~= a + seq![c] + b.drop_last());
        lemma_pieces_split(a, c, b.drop_last());
        lemma_pieces_nonempty(b.drop_last());
        let x = path_pieces(a);
        let y = path_pieces(b.drop_last());
        assert(w.last() == b.last());
        if is_separator(b.last()) {
            assert((x + y).push(Seq::<char>::empty()) =~= x + y.push(Seq::<char>::empty()));
        } else {
            assert((x + y).update((x + y).len() - 1, (x + y).last().push(b.last())) =~= x + y.update(
                y.len() - 1,
                y.last().push(b.last()),
            ));
        }
    }
}

proof fn lemma_nonempty_only_concat(x: Seq<Seq<char>>, y: Seq<Seq<char>>)
    ensures
        nonempty_only(x + y) == nonempty_only(x) + nonempty_only(y),
    decreases y.len(),
{
    if y.len() == 0 {
        assert(x + y =~= x);
        assert(nonempty_only(x) + nonempty_only(y) =~= nonempty_only(x));
    } else {
        assert((x + y).drop_last() =~= x + y.drop_last());
        lemma_nonempty_only_concat(x, y.drop_last());
        assert((x + y).last() == y.last());
        if y.last().len() > 0 {
            assert((nonempty_only(x) + nonempty_only(y.drop_last())).push(y.last()) =~= nonempty_only(x)
                + nonempty_only(y.drop_last()).push(y.last()));
        }
    }
}

/// The empty path has no components.
pub proof fn lemma_components_of_empty()
    ensures
        path_components(Seq::<char>::empty()) == Seq::<Seq<char>>::empty(),
{
    reveal_with_fuel(nonempty_only, 2);
    assert(path_pieces(Seq::<char>::empty()) == seq![Seq::<char>::empty()]);
    assert(seq![Seq::<char>::empty()].drop_last() =~= Seq::<Seq<char>>::empty());
}

/// The components of a path joined at a separator are those of its two
/// sides, in order.
pub proof fn lemma_components_split(a: Seq<char>, c: char, b: Seq<char>)
    requires
        is_separator(c),
    ensures
        path_components(a + seq![c] + b) == path_components(a) + path_components(b),
{
    lemma_pieces_split(a, c, b);
    lemma_nonempty_only_concat(path_pieces(a), path_pieces(b));
}

/// Splits a path into its components.
pub fn path_components_of(s: &str) -> (r: Vec<String>)
    ensures
        string_views(r@) == path_components(s@),
{
    let cs = chars_of(s);
    let mut out: Vec<String> = Vec::new();
    let mut current = String::new();
    let mut i: usize = 0;
    proof {
        assert(s@.take(0) =~= Seq::<char>::empty());
    }
    while i < cs.len()
        invariant
            cs@ == s@,
            i <= cs@.len(),
            path_pieces(s@.take(i as int)).len() >= 1,
            path_pieces(s@.take(i as int)).last() == current@,
            string_views(out@) == nonempty_only(path_pieces(s@.take(i as int)).drop_last()),
        decreases cs@.len() - i,
    {
        let c = cs[i];
        let ghost before = path_pieces(s@.take(i as int));
        proof {
            assert(s@.take(i + 1).drop_last() =~= s@.take(i as int));
            assert(s@.take(i + 1).last() == c);
            lemma_pieces_nonempty(s@.take(i as int));
        }
        if c == '\\' || c == '/' {
            let ghost after = path_pieces(s@.take(i + 1));
            assert(after == before.push(Seq::<char>::empty()));
            assert(after.drop_last() =~= before);
            if current.as_str().is_empty() {
                assert(nonempty_only(before) == nonempty_only(before.drop_last()));
            } else {
                let piece = current;
                out.push(piece);
                assert(string_views(out@) =~= nonempty_only(before.drop_last()).push(before.last()));
            }
            current = String::new();
            assert(after.last() == Seq::<char>::empty());
        } else {
            let ghost after = path_pieces(s@.take(i + 1));
            assert(after == before.update(before.len() - 1, before.last().push(c)));
            assert(after.drop_last() =~= before.drop_last());
            push_char(&mut current, c);
        }
        i = i + 1;
    }
    let ghost all = path_pieces(s@.take(cs@.len() as int));
    assert(s@.take(cs@.len() as int) =~= s@);
    if !current.as_str().is_empty() {
        out.push(current);
        assert(string_views(out@) =~= nonempty_only(all.drop_last()).push(all.last()));
    }
    out
}

/// Whether `needle` occurs as a contiguous run of components of `hay`.
pub open spec fn contains_components(hay: Seq<Seq<char>>, needle: Seq<Seq<char>>) -> bool {
    exists|i: int|
        0 <= i && i + needle.len() <= hay.len() && #[trigger] hay.subrange(i, i + needle.len()) == needle
}

fn components_match_at(hay: &Vec<String>, needle: &Vec<String>, at: usize) -> (r: bool)
    requires
        at + needle@.len() <= hay@.len(),
    ensures
        r == (string_views(hay@).subrange(at as int, at + needle@.len()) == string_views(needle@)),
{
    let ghost h = string_views(hay@);
    let ghost n = string_views(needle@);
    let mut k: usize = 0;
    while k < needle.len()
        invariant
            h == string_views(hay@),
            n == string_views(needle@),
            at + needle@.len() <= hay@.len(),
            hay@.len() == hay.len(),
            needle@.len() == needle.len(),
            k <= needle@.len(),
            forall|j: int| 0 <= j < k ==> h[at + j] == n[j],
        decreases needle@.len() - k,
    {
        if hay[at + k] != needle[k] {
            assert(h.subrange(at as int, at + needle@.len())[k as int] != n[k as int]);
            return false;
        }
        k = k + 1;
    }
    assert(h.subrange(at as int, at + needle@.len()) =~= n);
    true
}

/// Whether the components `needle` occur contiguously in `hay`.
pub fn contains_component_run(hay: &Vec<String>, needle: &Vec<String>) -> (r: bool)
    ensures
        r == contains_components(string_views(hay@), string_views(needle@)),
{
    let ghost h = string_views(hay@);
    let ghost n = string_views(needle@);
    if needle.len() > hay.len() {
        return false;
    }
    let last = hay.len() - needle.len();
    let mut i: usize = 0;
    loop
        invariant
            h == string_views(hay@),
            n == string_views(needle@),
            last + needle@.len() == hay@.len(),
            i <= last,
            forall|j: int| 0 <= j < i ==> #[trigger] h.subrange(j, j + n.len()) != n,
        decreases last - i,
    {
        if components_match_at(hay, needle, i) {
            return true;
        }
        if i == last {
            return false;
        }
        i = i + 1;
    }
}

/// The position of the last `.` in `name`, or -1 when there is none.
pub open spec fn last_dot(name: Seq<char>) -> int
    decreases name.len(),
{
    if name.len() == 0 {
        -1
    } else if name.last() == '.' {
        name.len() - 1
    } else {
        last_dot(name.drop_last())
    }
}

/// The stem of a file name, as `Path::file_stem` gives it: the part before
/// the last `.`, or the whole name when it has no `.` after its first
/// character.
pub open spec fn file_stem(name: Seq<char>) -> Seq<char> {
    if last_dot(name) > 0 {
        name.take(last_dot(name))
    } else {
        name
    }
}

/// Computes [`file_stem`].
pub fn file_stem_of(name: &str) -> (r: String)
    ensures
        r@ == file_stem(name@),
{
    let cs = chars_of(name);
    let mut i: usize = cs.len();
    assert(name@.take(i as int) =~= name@);
    while i > 0 && cs[i - 1] != '.'
        invariant
            cs@ == name@,
            i <= cs@.len(),
            last_dot(name@) == last_dot(name@.take(i as int)),
        decreases i,
    {
        assert(name@.take(i as int).drop_last() =~= name@.take(i - 1));
        i = i - 1;
    }
    if i > 1 {
        assert(name@.take(i as int).last() == '.');
        let mut stem = String::new();
        let mut k: usize = 0;
        while k < i - 1
            invariant
                cs@ == name@,
                1 < i <= cs@.len(),
                k <= i - 1,
                stem@ == name@.take(k as int),
            decreases i - 1 - k,
        {
            push_char(&mut stem, cs[k]);
            assert(name@.take(k + 1) =~= name@.take(k as int).push(cs@[k as int]));
            k = k + 1;
        }
        stem
    } else {
        proof {
            if i == 1 {
                assert(name@.take(1).last() == '.');
            } else {
                assert(name@.take(0) =~= Seq::<char>::empty());
            }
        }
        string_from(name)
    }
}

} // verus!
