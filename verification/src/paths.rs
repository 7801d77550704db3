//! Unix paths as text.

use vstd::prelude::*;

use crate::text;

verus! {

/// A path that starts at the root.
pub open spec fn absolute(p: Seq<char>) -> bool {
    p.len() > 0 && p[0] == '/'
}

/// `rel` as seen from `base`: an absolute path stands for itself.
pub open spec fn joined(base: Seq<char>, rel: Seq<char>) -> Seq<char> {
    if absolute(rel) || base.len() == 0 {
        rel
    } else if base.last() == '/' {
        base + rel
    } else {
        base.push('/') + rel
    }
}

/// What stands between the slashes.
pub open spec fn pieces(p: Seq<char>) -> Seq<Seq<char>>
    decreases p.len(),
{
    if p.len() == 0 {
        seq![Seq::<char>::empty()]
    } else {
        let before = pieces(p.drop_last());
        if p.last() == '/' {
            before.push(Seq::empty())
        } else {
            before.update(before.len() - 1, before.last().push(p.last()))
        }
    }
}

/// Whether a piece counts: an empty one does not, and `.` only in the first place.
pub open spec fn counts(piece: Seq<char>, place: int) -> bool {
    piece.len() > 0 && (place == 0 || piece != seq!['.'])
}

pub open spec fn counted(ps: Seq<Seq<char>>) -> Seq<Seq<char>>
    decreases ps.len(),
{
    if ps.len() == 0 {
        ps
    } else if counts(ps.last(), ps.len() - 1) {
        counted(ps.drop_last()).push(ps.last())
    } else {
        counted(ps.drop_last())
    }
}

/// The component that stands for the root.
pub open spec fn root() -> Seq<char> {
    seq!['/']
}

/// The components of a path, the root among them where the path is absolute.
pub open spec fn components(p: Seq<char>) -> Seq<Seq<char>> {
    if absolute(p) {
        seq![root()] + counted(pieces(p))
    } else {
        counted(pieces(p))
    }
}

/// Whether the path leads to `dir` or below it: the components of `dir` come first in it.
pub open spec fn is_within(p: Seq<char>, dir: Seq<char>) -> bool {
    components(dir).len() <= components(p).len() && components(p).take(components(dir).len() as int) == components(dir)
}

/// A path that names neither nothing nor the root alone has a parent.
pub open spec fn has_parent(p: Seq<char>) -> bool {
    components(p).len() > 0 && components(p) != seq![root()]
}

/// Whether the first `n` characters of `p` hold all its components but the last.
pub open spec fn leads_to_parent(p: Seq<char>, n: int) -> bool {
    0 <= n <= p.len() && components(p.take(n)) == components(p).drop_last()
}

/// The length of the shortest start of `p` that holds all its components but the last.
pub open spec fn parent_len(p: Seq<char>) -> int {
    choose|n: int|
        #[trigger] leads_to_parent(p, n) && forall|m: int| 0 <= m < n ==> !#[trigger] leads_to_parent(p, m)
}

/// The path without its last component.
pub open spec fn parent(p: Seq<char>) -> Option<Seq<char>> {
    if has_parent(p) {
        Some(p.take(parent_len(p)))
    } else {
        None
    }
}

/// The last component, where it is a name.
pub open spec fn file_name(p: Seq<char>) -> Option<Seq<char>> {
    let cs = components(p);
    if cs.len() == 0 || cs.last() == root() || cs.last() == seq!['.'] || cs.last() == seq!['.', '.'] {
        None
    } else {
        Some(cs.last())
    }
}

/// The components joined by slashes.
pub open spec fn joined_parts(cs: Seq<Seq<char>>) -> Seq<char>
    decreases cs.len(),
{
    if cs.len() == 0 {
        Seq::empty()
    } else if cs.len() == 1 {
        cs[0]
    } else {
        joined_parts(cs.drop_last()).push('/') + cs.last()
    }
}

pub fn is_absolute(p: &str) -> (r: bool)
    ensures
        r == absolute(p@),
{
    p.unicode_len() > 0 && p.get_char(0) == '/'
}

/// `rel` as seen from `base`.
pub fn join(base: &str, rel: &str) -> (r: String)
    ensures
        r@ == joined(base@, rel@),
{
    if is_absolute(rel) || base.is_empty() {
        return rel.to_owned();
    }
    let n = base.unicode_len();
    let mut out = base.to_owned();
    if base.get_char(n - 1) != '/' {
        out.push('/');
    }
    out.append(rel);
    out
}

proof fn pieces_nonempty(p: Seq<char>)
    ensures
        pieces(p).len() > 0,
    decreases p.len(),
{
    if p.len() > 0 {
        pieces_nonempty(p.drop_last());
    }
}

/// The components of the path `cs[..n]`.
fn components_to(cs: &Vec<char>, n: usize) -> (r: Vec<String>)
    requires
        n <= cs@.len(),
    ensures
        text::texts(r@) == components(cs@.take(n as int)),
{
    let ghost p = cs@.take(n as int);
    // The pieces that are complete, and the one that is being read.
    let mut out: Vec<String> = Vec::new();
    let mut last = String::new();
    let mut place: usize = 0;
    if n > 0 && cs[0] == '/' {
        out.push("/".to_owned());
        proof {
            reveal_strlit("/");
            assert("/"@ =~= root());
            assert(text::texts(out@) =~= seq![root()]);
        }
    } else {
        assert(text::texts(out@) =~= Seq::<Seq<char>>::empty());
    }
    let ghost head = text::texts(out@);
    assert(pieces(p.take(0)).drop_last() =~= Seq::<Seq<char>>::empty());
    assert(head + Seq::<Seq<char>>::empty() =~= head);
    let mut i: usize = 0;
    while i < n
        invariant
            i <= n <= cs@.len(),
            p == cs@.take(n as int),
            place < pieces(p.take(i as int)).len() == place + 1,
            place <= i,
            last@ == pieces(p.take(i as int)).last(),
            text::texts(out@) == head + counted(pieces(p.take(i as int)).drop_last()),
        decreases n - i,
    {
        let c: char = cs[i];
        let ghost before = pieces(p.take(i as int));
        proof {
            assert(p.take(i + 1).drop_last() =~= p.take(i as int));
            assert(p.take(i + 1).last() == c);
        }
        if c == '/' {
            assert(pieces(p.take(i + 1)).drop_last() =~= before);
            if piece_counts(last.as_str(), place) {
                proof {
                    text::texts_push(out@, last);
                    assert(head + counted(before.drop_last()).push(before.last()) =~= (head + counted(
                        before.drop_last(),
                    )).push(before.last()));
                }
                out.push(last);
            }
            last = String::new();
            place = place + 1;
        } else {
            assert(pieces(p.take(i + 1)).drop_last() =~= before.drop_last());
            last.push(c);
        }
        i = i + 1;
    }
    let ghost all = pieces(p);
    assert(p.take(n as int) =~= p);
    if piece_counts(last.as_str(), place) {
        proof {
            text::texts_push(out@, last);
            assert(head + counted(all.drop_last()).push(all.last()) =~= (head + counted(all.drop_last())).push(
                all.last(),
            ));
        }
        out.push(last);
    }
    assert(Seq::<Seq<char>>::empty() + counted(all) =~= counted(all));
    out
}

fn piece_counts(piece: &str, place: usize) -> (r: bool)
    ensures
        r == counts(piece@, place as int),
{
    proof {
        reveal_strlit(".");
        assert("."@ =~= seq!['.']);
    }
    !piece.is_empty() && (place == 0 || !text::same_text(piece, "."))
}

/// The components of the path.
pub fn components_of(p: &str) -> (r: Vec<String>)
    ensures
        text::texts(r@) == components(p@),
{
    let cs = text::chars_of(p);
    assert(cs@.take(cs@.len() as int) =~= p@);
    components_to(&cs, cs.len())
}

/// Whether the path leads to `dir` or below it. Components are compared, not characters: a
/// sibling whose name starts with the name of `dir` is not within it.
pub fn starts_with(p: &str, dir: &str) -> (r: bool)
    ensures
        r == is_within(p@, dir@),
{
    let a = components_of(p);
    let b = components_of(dir);
    text::starts_with_texts(&a, &b)
}

proof fn parent_is_on_the_way(p: Seq<char>)
    requires
        has_parent(p),
    ensures
        exists|n: int| leads_to_parent(p, n),
    decreases p.len(),
{
    pieces_nonempty(p);
    if p.len() == 0 {
        reveal_with_fuel(counted, 2);
        assert(pieces(p).drop_last() =~= Seq::<Seq<char>>::empty());
        assert(components(p).len() == 0);
    } else {
        let t = p.drop_last();
        let c = p.last();
        let ps = pieces(t);
        pieces_nonempty(t);
        let a = ps.drop_last();
        assert(p.take(t.len() as int) =~= t);
        if t.len() == 0 {
            assert(pieces(t) =~= seq![Seq::<char>::empty()]);
            reveal_with_fuel(counted, 3);
            assert(components(t).len() == 0);
            if c == '/' {
                assert(pieces(p).drop_last() =~= ps);
                assert(counted(pieces(p)).len() == 0);
                assert(components(p) =~= seq![root()]);
            } else {
                assert(pieces(p).drop_last() =~= Seq::<Seq<char>>::empty());
                assert(components(p).len() <= 1);
                assert(components(p).drop_last() =~= components(t));
            }
            assert(leads_to_parent(p, 0));
        } else {
            assert(absolute(p) == absolute(t));
            if c == '/' {
                assert(pieces(p).drop_last() =~= ps);
                assert(components(p) == components(t));
                parent_is_on_the_way(t);
                let n = choose|n: int| leads_to_parent(t, n);
                assert(p.take(n) =~= t.take(n));
                assert(leads_to_parent(p, n));
            } else {
                let piece = ps.last();
                let longer = piece.push(c);
                assert(pieces(p).drop_last() =~= a);
                assert(pieces(p).last() == longer);
                let place = ps.len() - 1;
                if counts(longer, place) {
                    if absolute(p) {
                        assert((seq![root()] + counted(a).push(longer)).drop_last() =~= seq![root()] + counted(a));
                    } else {
                        assert(counted(a).push(longer).drop_last() =~= counted(a));
                    }
                    if counts(piece, place) {
                        if absolute(p) {
                            assert((seq![root()] + counted(a).push(piece)).drop_last() =~= seq![root()] + counted(a));
                            assert(components(t).len() >= 2);
                        } else {
                            assert(counted(a).push(piece).drop_last() =~= counted(a));
                            pieces_hold_no_slash(t, place);
                            assert(components(t).last() == piece);
                            assert(root()[0] == '/');
                        }
                        assert(has_parent(t));
                        parent_is_on_the_way(t);
                        let n = choose|n: int| leads_to_parent(t, n);
                        assert(p.take(n) =~= t.take(n));
                        assert(leads_to_parent(p, n));
                    } else {
                        assert(leads_to_parent(p, t.len() as int));
                    }
                } else {
                    assert(longer == seq!['.']);
                    assert(longer.len() == 1);
                    assert(components(p) == components(t));
                    parent_is_on_the_way(t);
                    let n = choose|n: int| leads_to_parent(t, n);
                    assert(p.take(n) =~= t.take(n));
                    assert(leads_to_parent(p, n));
                }
            }
        }
    }
}

proof fn pieces_hold_no_slash(p: Seq<char>, k: int)
    requires
        0 <= k < pieces(p).len(),
    ensures
        !pieces(p)[k].contains('/'),
    decreases p.len(),
{
    if p.len() > 0 {
        let before = pieces(p.drop_last());
        pieces_nonempty(p.drop_last());
        if p.last() == '/' {
            if k < before.len() {
                pieces_hold_no_slash(p.drop_last(), k);
            }
        } else {
            pieces_hold_no_slash(p.drop_last(), k);
            let q = before.last().push(p.last());
            if k == before.len() - 1 && q.contains('/') {
                let i = choose|i: int| 0 <= i < q.len() && q[i] == '/';
                assert(before.last()[i] == '/');
            }
        }
    }
}

proof fn shortest(p: Seq<char>, n: int) -> (m: int)
    requires
        leads_to_parent(p, n),
    ensures
        leads_to_parent(p, m),
        forall|k: int| 0 <= k < m ==> !#[trigger] leads_to_parent(p, k),
    decreases n,
{
    if exists|k: int| 0 <= k < n && leads_to_parent(p, k) {
        let k = choose|k: int| 0 <= k < n && leads_to_parent(p, k);
        shortest(p, k)
    } else {
        n
    }
}

/// The path without its last component.
pub fn parent_of(p: &str) -> (r: Option<String>)
    ensures
        match r {
            Some(t) => parent(p@) == Some(t@),
            None => parent(p@) is None,
        },
{
    let cs = text::chars_of(p);
    let mut want = components_of(p);
    if want.len() == 0 {
        return None;
    }
    if want.len() == 1 && text::same_text(want[0].as_str(), "/") {
        proof {
            reveal_strlit("/");
            assert("/"@ =~= root());
            assert(components(p@)[0] == want@[0]@);
            assert(components(p@) =~= seq![root()]);
        }
        return None;
    }
    proof {
        reveal_strlit("/");
        assert("/"@ =~= root());
        if components(p@) == seq![root()] {
            assert(components(p@)[0] == want@[0]@);
        }
        parent_is_on_the_way(p@);
        let n = choose|n: int| leads_to_parent(p@, n);
        let m = shortest(p@, n);
        assert(leads_to_parent(p@, parent_len(p@)));
    }
    let ghost full = want@;
    let _last = want.pop();
    assert(text::texts(want@) =~= components(p@).drop_last());
    let mut n: usize = 0;
    while n < cs.len()
        invariant
            cs@ == p@,
            n <= cs@.len(),
            text::texts(want@) == components(p@).drop_last(),
            has_parent(p@),
            forall|m: int| 0 <= m < n ==> !#[trigger] leads_to_parent(p@, m),
        decreases cs@.len() - n,
    {
        let here = components_to(&cs, n);
        if here.len() == want.len() && text::starts_with_texts(&here, &want) {
            proof {
                assert(text::texts(here@).take(want@.len() as int) =~= text::texts(here@));
                assert(leads_to_parent(p@, n as int));
                assert(parent_len(p@) == n);
                assert(p@.subrange(0, n as int) =~= p@.take(n as int));
            }
            return Some(text::string_of(&cs, 0, n));
        }
        proof {
            if leads_to_parent(p@, n as int) {
                assert(text::texts(here@).len() == text::texts(want@).len());
                assert(text::texts(here@).take(want@.len() as int) =~= text::texts(here@));
            }
        }
        n = n + 1;
    }
    proof {
        parent_is_on_the_way(p@);
        let k = choose|k: int| leads_to_parent(p@, k);
        let m = shortest(p@, k);
        assert(leads_to_parent(p@, parent_len(p@)));
        assert(parent_len(p@) == p@.len());
        assert(p@.subrange(0, p@.len() as int) =~= p@.take(p@.len() as int));
    }
    Some(text::string_of(&cs, 0, cs.len()))
}

/// The last component, where it is a name.
pub fn file_name_of(p: &str) -> (r: Option<String>)
    ensures
        match r {
            Some(t) => file_name(p@) == Some(t@),
            None => file_name(p@) is None,
        },
{
    let cs = components_of(p);
    if cs.len() == 0 {
        return None;
    }
    let last = cs[cs.len() - 1].as_str();
    proof {
        reveal_strlit("/");
        reveal_strlit(".");
        reveal_strlit("..");
        assert("/"@ =~= root());
        assert("."@ =~= seq!['.']);
        assert(".."@ =~= seq!['.', '.']);
        assert(components(p@).last() == last@);
    }
    if text::same_text(last, "/") || text::same_text(last, ".") || text::same_text(last, "..") {
        None
    } else {
        Some(last.to_owned())
    }
}

/// The places of the pieces that count.
pub open spec fn places(ps: Seq<Seq<char>>) -> Seq<int>
    decreases ps.len(),
{
    if ps.len() == 0 {
        Seq::empty()
    } else if counts(ps.last(), ps.len() - 1) {
        places(ps.drop_last()).push(ps.len() - 1)
    } else {
        places(ps.drop_last())
    }
}

/// The text of `p` from its `n`-th component to its last, as it stands in `p`. From the start,
/// where `n` is 0.
pub open spec fn text_from(p: Seq<char>, n: int) -> Seq<char> {
    let ps = pieces(p);
    let pl = places(ps);
    // The root is a component, but stands in no piece.
    let m = if absolute(p) {
        n - 1
    } else {
        n
    };
    if n == 0 {
        if pl.len() == 0 {
            if absolute(p) {
                root()
            } else {
                Seq::empty()
            }
        } else {
            joined_parts(ps.subrange(0, pl.last() + 1))
        }
    } else if m >= pl.len() {
        Seq::empty()
    } else {
        joined_parts(ps.subrange(pl[m], pl.last() + 1))
    }
}

proof fn places_are_in_order(ps: Seq<Seq<char>>)
    ensures
        places(ps).len() == counted(ps).len(),
        forall|i: int| 0 <= i < places(ps).len() ==> 0 <= #[trigger] places(ps)[i] < ps.len(),
        forall|i: int, j: int| 0 <= i < j < places(ps).len() ==> #[trigger] places(ps)[i] < #[trigger] places(ps)[j],
    decreases ps.len(),
{
    if ps.len() > 0 {
        places_are_in_order(ps.drop_last());
    }
}

/// The pieces of the path.
fn pieces_of(p: &str) -> (r: Vec<String>)
    ensures
        text::texts(r@) == pieces(p@),
{
    let cs = text::chars_of(p);
    let mut out: Vec<String> = Vec::new();
    let mut last = String::new();
    let mut i: usize = 0;
    assert(pieces(p@.take(0)) =~= text::texts(out@).push(last@));
    while i < cs.len()
        invariant
            cs@ == p@,
            i <= cs@.len(),
            pieces(p@.take(i as int)) == text::texts(out@).push(last@),
        decreases cs@.len() - i,
    {
        let c: char = cs[i];
        let ghost before = pieces(p@.take(i as int));
        proof {
            assert(p@.take(i + 1).drop_last() =~= p@.take(i as int));
            assert(p@.take(i + 1).last() == c);
        }
        if c == '/' {
            proof {
                text::texts_push(out@, last);
            }
            out.push(last);
            last = String::new();
            assert(pieces(p@.take(i + 1)) =~= text::texts(out@).push(last@));
        } else {
            last.push(c);
            assert(pieces(p@.take(i + 1)) =~= text::texts(out@).push(last@));
        }
        i = i + 1;
    }
    assert(p@.take(p@.len() as int) =~= p@);
    proof {
        text::texts_push(out@, last);
    }
    out.push(last);
    out
}

fn places_of(ps: &Vec<String>) -> (r: Vec<usize>)
    ensures
        r@.map_values(|i: usize| i as int) == places(text::texts(ps@)),
{
    let ghost all = text::texts(ps@);
    let mut out: Vec<usize> = Vec::new();
    let mut i: usize = 0;
    assert(all.take(0) =~= Seq::<Seq<char>>::empty());
    assert(out@.map_values(|i: usize| i as int) =~= Seq::<int>::empty());
    while i < ps.len()
        invariant
            all == text::texts(ps@),
            i <= ps@.len(),
            out@.map_values(|i: usize| i as int) == places(all.take(i as int)),
        decreases ps@.len() - i,
    {
        proof {
            assert(all.take(i + 1).drop_last() =~= all.take(i as int));
            assert(all.take(i + 1).last() == ps@[i as int]@);
        }
        if piece_counts(&ps[i], i) {
            let ghost before = out@;
            out.push(i);
            assert(out@.map_values(|i: usize| i as int) =~= before.map_values(|i: usize| i as int).push(i as int));
        }
        i = i + 1;
    }
    assert(all.take(ps@.len() as int) =~= all);
    out
}

fn join_parts(ps: &Vec<String>, from: usize, to: usize) -> (r: String)
    requires
        from <= to <= ps@.len(),
    ensures
        r@ == joined_parts(text::texts(ps@).subrange(from as int, to as int)),
{
    let ghost part = text::texts(ps@).subrange(from as int, to as int);
    let mut out = String::new();
    let mut i: usize = from;
    while i < to
        invariant
            from <= i <= to <= ps@.len(),
            part == text::texts(ps@).subrange(from as int, to as int),
            out@ == joined_parts(part.take(i - from)),
        decreases to - i,
    {
        let ghost next = part.take(i - from + 1);
        assert(next.drop_last() =~= part.take(i - from));
        assert(next.last() == ps@[i as int]@);
        if i > from {
            out.push('/');
        } else {
            assert(next[0] == ps@[i as int]@);
            assert(out@ + ps@[i as int]@ =~= ps@[i as int]@);
        }
        out.append(ps[i].as_str());
        i = i + 1;
    }
    assert(part.take(to - from) =~= part);
    out
}

/// The rest of `p` below `dir`, where `p` is within it.
pub fn strip_prefix(p: &str, dir: &str) -> (r: Option<String>)
    ensures
        match r {
            Some(t) => is_within(p@, dir@) && t@ == text_from(p@, components(dir@).len() as int),
            None => !is_within(p@, dir@),
        },
{
    if !starts_with(p, dir) {
        return None;
    }
    let n = components_of(dir).len();
    let ps = pieces_of(p);
    let pl = places_of(&ps);
    let total = ps.len();
    assert(pieces(p@).len() == total);
    let ghost spots = places(pieces(p@));
    let rooted = is_absolute(p);
    proof {
        places_are_in_order(pieces(p@));
        assert(pl@.len() == spots.len());
        assert forall|i: int| 0 <= i < pl@.len() implies pl@[i] == #[trigger] spots[i] by {
            assert(pl@.map_values(|i: usize| i as int)[i] == pl@[i]);
        }
    }
    if n == 0 {
        if pl.len() == 0 {
            if rooted {
                let mut out = String::new();
                out.push('/');
                assert(out@ =~= root());
                Some(out)
            } else {
                Some(String::new())
            }
        } else {
            assert(spots[spots.len() - 1] == pl@[pl@.len() - 1]);
            assert(pl@[pl@.len() - 1] < total);
            Some(join_parts(&ps, 0, pl[pl.len() - 1] + 1))
        }
    } else {
        let m: usize = if rooted {
            n - 1
        } else {
            n
        };
        if m >= pl.len() {
            Some(String::new())
        } else {
            assert(spots[spots.len() - 1] == pl@[pl@.len() - 1]);
            assert(pl@[pl@.len() - 1] < total);
            assert(spots[m as int] == pl@[m as int]);
            Some(join_parts(&ps, pl[m], pl[pl.len() - 1] + 1))
        }
    }
}

proof fn pieces_of_longer(p: Seq<char>, name: Seq<char>)
    requires
        !name.contains('/'),
    ensures
        pieces(p + name) == pieces(p).update(pieces(p).len() - 1, pieces(p).last() + name),
    decreases name.len(),
{
    pieces_nonempty(p);
    if name.len() == 0 {
        assert(p + name =~= p);
        assert(pieces(p).last() + name =~= pieces(p).last());
        assert(pieces(p).update(pieces(p).len() - 1, pieces(p).last()) =~= pieces(p));
    } else {
        let t = name.drop_last();
        assert forall|i: int| 0 <= i < t.len() implies t[i] != '/' by {
            assert(name[i] != '/');
        }
        pieces_of_longer(p, t);
        assert((p + name).drop_last() =~= p + t);
        assert(name[name.len() - 1] != '/');
        assert((pieces(p).last() + t).push(name.last()) =~= pieces(p).last() + name);
        assert(pieces(p + name) =~= pieces(p).update(pieces(p).len() - 1, pieces(p).last() + name));
    }
}

/// A plain name joined to a directory adds one component.
pub proof fn child_components(dir: Seq<char>, name: Seq<char>)
    requires
        name.len() > 0,
        !name.contains('/'),
        name != seq!['.'],
    ensures
        components(joined(dir, name)) == components(dir).push(name),
{
    assert(name[0] != '/');
    pieces_nonempty(dir);
    let root_part = if absolute(dir) {
        seq![root()]
    } else {
        Seq::<Seq<char>>::empty()
    };
    if dir.len() == 0 {
        pieces_of_longer(dir, name);
        assert(dir + name =~= name);
        let ps = pieces(name);
        assert(ps =~= seq![name]) by {
            assert(pieces(dir) =~= seq![Seq::<char>::empty()]);
            assert(Seq::<char>::empty() + name =~= name);
        }
        reveal_with_fuel(counted, 2);
        assert(ps.drop_last() =~= Seq::<Seq<char>>::empty());
        assert(pieces(dir).drop_last() =~= Seq::<Seq<char>>::empty());
        assert(counted(ps) =~= seq![name]);
        assert(components(dir) =~= Seq::<Seq<char>>::empty());
        assert(components(dir).push(name) =~= seq![name]);
    } else {
        let base = if dir.last() == '/' {
            dir
        } else {
            dir.push('/')
        };
        pieces_nonempty(base);
        assert(base.drop_last() == (if dir.last() == '/' {
            dir.drop_last()
        } else {
            dir
        })) by {
            assert(dir.push('/').drop_last() =~= dir);
        }
        let ps = pieces(base);
        let front = ps.drop_last();
        assert(ps.last() =~= Seq::<char>::empty());
        pieces_nonempty(base.drop_last());
        assert(front.len() > 0);
        pieces_of_longer(base, name);
        let longer = pieces(base + name);
        assert(ps.last() + name =~= name);
        assert(longer.drop_last() =~= front);
        assert(longer.last() == name);
        assert(counted(longer) == counted(front).push(name));
        if dir.last() == '/' {
            assert(counted(ps) == counted(front));
        } else {
            assert(front =~= pieces(dir));
        }
        assert(counted(pieces(dir)) == counted(front));
        assert(absolute(base + name) == absolute(dir));
        assert(root_part + counted(front).push(name) =~= (root_part + counted(front)).push(name));
        assert(joined(dir, name) == base + name);
        assert(Seq::<Seq<char>>::empty() + counted(front).push(name) =~= counted(front).push(name));
        assert(components(joined(dir, name)) =~= components(dir).push(name));
    }
}

/// A plain name joined to a directory leads to a place within it.
pub proof fn child_is_within(dir: Seq<char>, name: Seq<char>)
    requires
        name.len() > 0,
        !name.contains('/'),
        name != seq!['.'],
    ensures
        is_within(joined(dir, name), dir),
{
    child_components(dir, name);
    assert(components(dir).push(name).take(components(dir).len() as int) =~= components(dir));
}

/// What is within a directory that is within another is within the other.
pub proof fn within_is_transitive(a: Seq<char>, b: Seq<char>, c: Seq<char>)
    requires
        is_within(a, b),
        is_within(b, c),
    ensures
        is_within(a, c),
{
    let n = components(c).len() as int;
    assert(components(a).take(n) =~= components(a).take(components(b).len() as int).take(n));
}

/// A parent has every component but the last.
pub proof fn parent_components(p: Seq<char>)
    requires
        has_parent(p),
    ensures
        parent(p) is Some,
        components(parent(p)->0) == components(p).drop_last(),
{
    parent_is_on_the_way(p);
    let n = choose|n: int| leads_to_parent(p, n);
    let m = shortest(p, n);
    assert(leads_to_parent(p, parent_len(p)));
}

/// The parent of a plain name in a directory leads to the directory.
pub proof fn parent_of_child(dir: Seq<char>, name: Seq<char>)
    requires
        name.len() > 0,
        !name.contains('/'),
        name != seq!['.'],
    ensures
        parent(joined(dir, name)) is Some,
        components(parent(joined(dir, name))->0) == components(dir),
{
    let p = joined(dir, name);
    child_components(dir, name);
    assert(components(p).last() == name);
    assert(root()[0] == '/');
    if components(p) == seq![root()] {
        assert(name == root());
        assert(name[0] == '/');
    }
    parent_components(p);
    assert(components(dir).push(name).drop_last() =~= components(dir));
}

proof fn counted_goes_on(a: Seq<Seq<char>>, b: Seq<Seq<char>>)
    ensures
        counted(a).len() <= counted(a + b).len(),
        counted(a + b).take(counted(a).len() as int) == counted(a),
    decreases b.len(),
{
    if b.len() == 0 {
        assert(a + b =~= a);
        assert(counted(a).take(counted(a).len() as int) =~= counted(a));
    } else {
        counted_goes_on(a, b.drop_last());
        assert((a + b).drop_last() =~= a + b.drop_last());
        let shorter = counted(a + b.drop_last());
        assert(shorter.push(b.last()).take(counted(a).len() as int) =~= shorter.take(counted(a).len() as int));
    }
}

proof fn pieces_of_both(p: Seq<char>, q: Seq<char>)
    ensures
        pieces(p + q) == pieces(p).drop_last() + seq![pieces(p).last() + pieces(q)[0]] + pieces(q).skip(1),
    decreases q.len(),
{
    pieces_nonempty(p);
    pieces_nonempty(q);
    if q.len() == 0 {
        assert(p + q =~= p);
        assert(pieces(p).last() + pieces(q)[0] =~= pieces(p).last());
        assert(pieces(p) =~= pieces(p).drop_last() + seq![pieces(p).last()] + pieces(q).skip(1));
    } else {
        let t = q.drop_last();
        pieces_of_both(p, t);
        pieces_nonempty(t);
        assert((p + q).drop_last() =~= p + t);
        let a = pieces(p).drop_last();
        let mid = pieces(p).last() + pieces(t)[0];
        if q.last() == '/' {
            assert(pieces(p + q) =~= a + seq![pieces(p).last() + pieces(q)[0]] + pieces(q).skip(1));
        } else {
            if pieces(t).len() == 1 {
                assert(mid.push(q.last()) =~= pieces(p).last() + pieces(t)[0].push(q.last()));
            }
            assert(pieces(p + q) =~= a + seq![pieces(p).last() + pieces(q)[0]] + pieces(q).skip(1));
        }
    }
}

/// What is joined to a directory leads to a place that the directory's components come first in.
pub proof fn joined_is_within(dir: Seq<char>, rel: Seq<char>)
    requires
        !absolute(rel),
    ensures
        is_within(joined(dir, rel), dir),
{
    pieces_nonempty(dir);
    if dir.len() == 0 {
        reveal_with_fuel(counted, 2);
        assert(pieces(dir).drop_last() =~= Seq::<Seq<char>>::empty());
        assert(components(dir) =~= Seq::<Seq<char>>::empty());
        assert(components(rel).take(0) =~= Seq::<Seq<char>>::empty());
    } else {
        let base = if dir.last() == '/' {
            dir
        } else {
            dir.push('/')
        };
        pieces_nonempty(base);
        assert(dir.push('/').drop_last() =~= dir);
        let front = pieces(base).drop_last();
        assert(pieces(base).last() =~= Seq::<char>::empty());
        pieces_of_both(base, rel);
        let rest = seq![pieces(base).last() + pieces(rel)[0]] + pieces(rel).skip(1);
        assert(pieces(base + rel) =~= front + rest);
        counted_goes_on(front, rest);
        if dir.last() != '/' {
            assert(front =~= pieces(dir));
        }
        assert(counted(pieces(dir)) == counted(front));
        let whole = counted(front + rest);
        let n = counted(front).len() as int;
        assert(joined(dir, rel) == base + rel);
        assert(absolute(base + rel) == absolute(dir));
        if absolute(dir) {
            assert((seq![root()] + whole).take(n + 1) =~= seq![root()] + whole.take(n));
        }
    }
}

proof fn counted_pieces_have_text(ps: Seq<Seq<char>>, i: int)
    requires
        0 <= i < places(ps).len(),
    ensures
        0 <= places(ps)[i] < ps.len(),
        ps[places(ps)[i]].len() > 0,
    decreases ps.len(),
{
    if ps.len() > 0 {
        if i < places(ps.drop_last()).len() {
            counted_pieces_have_text(ps.drop_last(), i);
        }
    }
}

proof fn joined_parts_start(cs: Seq<Seq<char>>)
    requires
        cs.len() > 0,
        cs[0].len() > 0,
    ensures
        joined_parts(cs).len() > 0,
        joined_parts(cs)[0] == cs[0][0],
    decreases cs.len(),
{
    if cs.len() > 1 {
        joined_parts_start(cs.drop_last());
    }
}

/// What follows a component is never absolute.
pub proof fn rest_is_relative(p: Seq<char>, n: int)
    requires
        n > 0,
    ensures
        !absolute(text_from(p, n)),
{
    let ps = pieces(p);
    let pl = places(ps);
    let m = if absolute(p) {
        n - 1
    } else {
        n
    };
    if m < pl.len() {
        counted_pieces_have_text(ps, m);
        counted_pieces_have_text(ps, pl.len() - 1);
        places_are_in_order(ps);
        pieces_hold_no_slash(p, pl[m]);
        let part = ps.subrange(pl[m], pl.last() + 1);
        if m < pl.len() - 1 {
            assert(pl[m] < pl[pl.len() - 1]);
        }
        assert(part[0] == ps[pl[m]]);
        joined_parts_start(part);
        if part[0][0] == '/' {
            assert(ps[pl[m]].contains('/'));
        }
    }
}

/// A path is absolute where it starts with a slash. An absolute path stands for itself wherever it is
/// seen from; any other is put behind the directory, with one slash between the two.
pub proof fn paths_are_seen_from_directories(base: Seq<char>, rel: Seq<char>)
    ensures
        absolute(rel) <==> rel.len() > 0 && rel[0] == '/',
        rel.len() > 0 && rel[0] == '/' ==> joined(base, rel) == rel,
        base.len() == 0 ==> joined(base, rel) == rel,
        base.len() > 0 && base.last() == '/' && !(rel.len() > 0 && rel[0] == '/') ==> joined(base, rel) == base + rel,
        base.len() > 0 && base.last() != '/' && !(rel.len() > 0 && rel[0] == '/') ==> joined(base, rel) == base + seq!['/']
            + rel,
{
    assert(base.push('/') + rel =~= base + seq!['/'] + rel);
}

/// The components of a path are its names between slashes: nothing has none, the root is one of its
/// own, a name alone is one, a slash more at the end adds none, and neither does a dot behind a slash.
/// A name behind a slash adds itself.
pub proof fn components_are_names(p: Seq<char>, name: Seq<char>)
    requires
        name.len() > 0,
        !name.contains('/'),
    ensures
        components(Seq::empty()).len() == 0,
        components(seq!['/']) == seq![seq!['/']],
        components(name) == seq![name],
        p.len() > 0 ==> components(p.push('/')) == components(p),
        p.len() > 0 ==> components(p.push('/').push('.')) == components(p),
        p.len() > 0 && name != seq!['.'] ==> components(p.push('/') + name) == components(p).push(name),
{
    reveal_with_fuel(counted, 3);
    let none = Seq::<char>::empty();
    assert(pieces(none).drop_last() =~= Seq::<Seq<char>>::empty());
    assert(counted(pieces(none)) =~= Seq::<Seq<char>>::empty());
    let slash = seq!['/'];
    assert(slash.drop_last() =~= none);
    assert(pieces(slash) =~= seq![none, none]);
    assert(pieces(slash).drop_last() =~= seq![none]);
    assert(seq![none].drop_last() =~= Seq::<Seq<char>>::empty());
    assert(components(slash) =~= seq![seq!['/']]);
    name_is_one_piece(name);
    assert(seq![name].drop_last() =~= Seq::<Seq<char>>::empty());
    assert(name[0] != '/') by {
        assert(name.contains(name[0]));
    }
    assert(components(name) =~= seq![name]);
    if p.len() > 0 {
        let q = p.push('/');
        pieces_nonempty(p);
        assert(q.drop_last() =~= p);
        assert(pieces(q).drop_last() =~= pieces(p));
        assert(absolute(q) == absolute(p));
        assert(components(q) == components(p));
        let d = q.push('.');
        assert(d.drop_last() =~= q);
        let ps = pieces(q);
        assert(ps.last() =~= none);
        assert(pieces(d) =~= ps.update(ps.len() - 1, ps.last().push('.')));
        assert(pieces(d).drop_last() =~= ps.drop_last());
        assert(pieces(d).last() =~= seq!['.']);
        assert(absolute(d) == absolute(p));
        assert(components(d) == components(p));
        if name != seq!['.'] {
            child_components(q, name);
            assert(joined(q, name) =~= q + name);
        }
    }
}

proof fn name_is_one_piece(name: Seq<char>)
    requires
        !name.contains('/'),
    ensures
        pieces(name) == seq![name],
    decreases name.len(),
{
    if name.len() > 0 {
        let t = name.drop_last();
        assert forall|i: int| 0 <= i < t.len() implies t[i] != '/' by {
            assert(name.contains(name[i]));
        }
        name_is_one_piece(t);
        assert(name.contains(name[name.len() - 1]));
        assert(pieces(name) =~= seq![t.push(name.last())]);
        assert(t.push(name.last()) =~= name);
    } else {
        assert(name =~= Seq::<char>::empty());
    }
}

/// A path is within a directory where the components of the directory come first among its own. A
/// directory is within itself, and nothing else with as many components is.
pub proof fn paths_are_within_by_their_components(p: Seq<char>, dir: Seq<char>, rest: Seq<Seq<char>>)
    ensures
        components(p) == components(dir) + rest ==> is_within(p, dir),
        is_within(p, dir) ==> components(p) == components(dir) + components(p).skip(components(dir).len() as int),
        is_within(p, p),
{
    let n = components(dir).len() as int;
    if components(p) == components(dir) + rest {
        assert(components(p).take(n) =~= components(dir));
    }
    if is_within(p, dir) {
        assert(components(p) =~= components(p).take(n) + components(p).skip(n));
    }
    assert(components(p).take(components(p).len() as int) =~= components(p));
}

/// A path has a parent unless it has no component, or the root alone: the parent has its components but
/// the last, and is where the path starts. Its file name is its last component, unless that is the
/// root, a dot or two.
pub proof fn parents_and_names_split_a_path(p: Seq<char>, dir: Seq<char>, name: Seq<char>)
    ensures
        parent(p) is None <==> components(p).len() == 0 || components(p) == seq![seq!['/']],
        parent(p) matches Some(q) ==> components(q) == components(p).drop_last() && q.len() <= p.len() && q == p.take(
            q.len() as int,
        ),
        file_name(p) matches Some(n) ==> components(p).len() > 0 && n == components(p).last(),
        file_name(p) is None <==> components(p).len() == 0 || components(p).last() == seq!['/'] || components(p).last()
            == seq!['.'] || components(p).last() == seq!['.', '.'],
        name.len() > 0 && !name.contains('/') && name != seq!['.'] && name != seq!['.', '.'] ==> file_name(
            joined(dir, name),
        ) == Some(name),
{
    if has_parent(p) {
        parent_components(p);
        parent_is_on_the_way(p);
        let n = choose|n: int| leads_to_parent(p, n);
        let m = shortest(p, n);
        assert(leads_to_parent(p, parent_len(p)));
    }
    if name.len() > 0 && !name.contains('/') && name != seq!['.'] && name != seq!['.', '.'] {
        child_components(dir, name);
        if name == root() {
            assert(name.contains(name[0]));
        }
    }
}

/// Paths are taken apart and put together as was said of them.
pub proof fn paths_are_taken_apart(
    base: &str,
    rel: &str,
    j: String,
    a: bool,
    w: bool,
    p: Option<String>,
    n: Option<String>,
    c: Vec<String>,
    s: Option<String>,
)
    requires
        call_ensures(join, (base, rel), j),
        call_ensures(is_absolute, (rel,), a),
        call_ensures(starts_with, (rel, base), w),
        call_ensures(parent_of, (rel,), p),
        call_ensures(file_name_of, (rel,), n),
        call_ensures(components_of, (rel,), c),
        call_ensures(strip_prefix, (rel, base), s),
    ensures
        j@ == joined(base@, rel@),
        a <==> rel@.len() > 0 && rel@[0] == '/',
        w <==> is_within(rel@, base@),
        p is Some <==> parent(rel@) is Some,
        p is Some ==> parent(rel@) == Some(p->0@),
        n is Some <==> file_name(rel@) is Some,
        n is Some ==> file_name(rel@) == Some(n->0@),
        text::texts(c@) == components(rel@),
        s is Some <==> w,
        s is Some ==> s->0@ == text_from(rel@, components(base@).len() as int),
{
}

proof fn plain_pieces_all_count(a: Seq<Seq<char>>, b: Seq<Seq<char>>)
    requires
        a.len() > 0,
        forall|i: int| 0 <= i < b.len() ==> (#[trigger] b[i]).len() > 0 && b[i] != seq!['.'],
    ensures
        places(a + b) == places(a) + Seq::new(b.len(), |i: int| a.len() + i),
    decreases b.len(),
{
    if b.len() == 0 {
        assert(a + b =~= a);
        assert(places(a) =~= places(a) + Seq::new(b.len(), |i: int| a.len() + i));
    } else {
        let c = b.drop_last();
        plain_pieces_all_count(a, c);
        assert((a + b).drop_last() =~= a + c);
        assert((a + b).last() == b[b.len() - 1]);
        assert(places(a + b) =~= places(a) + Seq::new(b.len(), |i: int| a.len() + i));
    }
}

proof fn pieces_join_to_the_path(p: Seq<char>)
    ensures
        joined_parts(pieces(p)) == p,
    decreases p.len(),
{
    if p.len() == 0 {
        assert(p =~= Seq::<char>::empty());
    } else {
        let t = p.drop_last();
        pieces_join_to_the_path(t);
        pieces_nonempty(t);
        let before = pieces(t);
        let now = pieces(p);
        if p.last() == '/' {
            assert(now.drop_last() =~= before);
            assert(joined_parts(before).push('/') + Seq::<char>::empty() =~= p);
        } else {
            assert(now.drop_last() =~= before.drop_last());
            if before.len() == 1 {
                assert(now[0] =~= p);
            } else {
                let head = joined_parts(before.drop_last()).push('/');
                assert(head + before.last() == t);
                assert(head + before.last().push(p.last()) =~= t.push(p.last()));
                assert(t.push(p.last()) =~= p);
            }
        }
    }
}

/// What was put behind a directory is what follows the directory, where it is made of plain names: no
/// slash too many and no dot among them.
pub proof fn what_follows_a_directory_is_given_back(dir: Seq<char>, rel: Seq<char>)
    requires
        components(dir).len() > 0,
        forall|i: int| 0 <= i < pieces(rel).len() ==> (#[trigger] pieces(rel)[i]).len() > 0 && pieces(rel)[i] != seq!['.'],
    ensures
        text_from(joined(dir, rel), components(dir).len() as int) == rel,
{
    pieces_nonempty(dir);
    pieces_nonempty(rel);
    if dir.len() == 0 {
        reveal_with_fuel(counted, 2);
        assert(pieces(dir).drop_last() =~= Seq::<Seq<char>>::empty());
        assert(components(dir) =~= Seq::<Seq<char>>::empty());
    } else {
        let base = if dir.last() == '/' {
            dir
        } else {
            dir.push('/')
        };
        pieces_nonempty(base);
        assert(dir.push('/').drop_last() =~= dir);
        let front = pieces(base).drop_last();
        assert(pieces(base).last() =~= Seq::<char>::empty());
        pieces_nonempty(base.drop_last());
        assert(front.len() > 0);
        pieces_of_both(base, rel);
        let rest = pieces(rel);
        assert(pieces(base).last() + rest[0] =~= rest[0]);
        assert(pieces(base + rel) =~= front + rest);
        if dir.last() != '/' {
            assert(front =~= pieces(dir));
        }
        assert(counted(pieces(dir)) == counted(front));
        places_are_in_order(front);
        plain_pieces_all_count(front, rest);
        pieces_join_to_the_path(rel);
        if absolute(rel) {
            pieces_hold_no_slash(rel, 0);
            first_piece_is_empty(rel);
        }
        assert(joined(dir, rel) == base + rel);
        assert(absolute(base + rel) == absolute(dir));
        let ps = front + rest;
        let pl = places(ps);
        let m = counted(front).len() as int;
        assert(pl[m] == front.len());
        assert(pl.last() == front.len() + rest.len() - 1);
        assert(ps.subrange(pl[m], pl.last() + 1) =~= rest);
    }
}

proof fn first_piece_is_empty(p: Seq<char>)
    requires
        absolute(p),
    ensures
        pieces(p)[0].len() == 0,
    decreases p.len(),
{
    let t = p.drop_last();
    pieces_nonempty(t);
    if t.len() > 0 {
        first_piece_is_empty(t);
        if p.last() != '/' && pieces(t).len() == 1 {
            one_piece_has_no_slash(t);
        }
    } else {
        assert(t =~= Seq::<char>::empty());
    }
}

proof fn one_piece_has_no_slash(p: Seq<char>)
    requires
        pieces(p).len() == 1,
    ensures
        !absolute(p),
    decreases p.len(),
{
    if p.len() > 0 {
        let t = p.drop_last();
        pieces_nonempty(t);
        one_piece_has_no_slash(t);
    }
}

} // verus!
