//! Text: the string operations the rest of the library is written with, each
//! stated over the sequence of characters that a string holds.

use vstd::prelude::*;

verus! {

/// `String::push`: the given character is appended, and nothing else changes.
pub assume_specification[ std::string::String::push ](s: &mut std::string::String, c: char)
    ensures
        final(s)@ == old(s)@.push(c),
;

/// The characters of `s`, in order.
pub fn chars_of(s: &str) -> (r: Vec<char>)
    ensures
        r@ == s@,
{
    let mut out: Vec<char> = Vec::new();
    for c in it: s.chars()
        invariant
            it.seq() == s@,
            out@ == s@.take(it.index()),
    {
        out.push(c);
        assert(s@.take(it.index() + 1) =~= s@.take(it.index()).push(c));
    }
    assert(s@.take(s@.len() as int) =~= s@);
    out
}

/// The string that holds the characters `cs[from..to]`.
pub fn string_of(cs: &Vec<char>, from: usize, to: usize) -> (r: String)
    requires
        from <= to <= cs@.len(),
    ensures
        r@ == cs@.subrange(from as int, to as int),
{
    let mut out = String::new();
    let mut i: usize = from;
    assert(cs@.subrange(from as int, from as int) =~= Seq::<char>::empty());
    while i < to
        invariant
            from <= i <= to <= cs@.len(),
            out@ == cs@.subrange(from as int, i as int),
        decreases to - i,
    {
        out.push(cs[i]);
        assert(cs@.subrange(from as int, i + 1) =~= cs@.subrange(from as int, i as int).push(cs@[i as int]));
        i = i + 1;
    }
    out
}

/// Whether `a` and `b` hold the same characters.
pub fn same_text(a: &str, b: &str) -> (r: bool)
    ensures
        r == (a@ == b@),
{
    let x = a.to_owned();
    let y = b.to_owned();
    x == y
}

/// The concatenation of the two texts.
pub fn concat2(a: &str, b: &str) -> (r: String)
    ensures
        r@ == a@ + b@,
{
    let mut out = a.to_owned();
    out.append(b);
    out
}

/// The concatenation of the three texts.
pub fn concat3(a: &str, b: &str, c: &str) -> (r: String)
    ensures
        r@ == a@ + b@ + c@,
{
    let mut out = a.to_owned();
    out.append(b);
    out.append(c);
    out
}

/// What the strings hold.
pub open spec fn texts(v: Seq<String>) -> Seq<Seq<char>> {
    v.map_values(|s: String| s@)
}

pub proof fn texts_push(v: Seq<String>, s: String)
    ensures
        texts(v.push(s)) == texts(v).push(s@),
{
    assert(texts(v.push(s)) =~= texts(v).push(s@));
}

/// The words of a result, or the reason why there is none.
pub open spec fn text_result(r: Result<String, String>) -> Result<Seq<char>, Seq<char>> {
    match r {
        Ok(t) => Ok(t@),
        Err(e) => Err(e@),
    }
}

/// A copy of the strings.
pub fn copy_texts(v: &Vec<String>) -> (r: Vec<String>)
    ensures
        texts(r@) == texts(v@),
{
    let mut out: Vec<String> = Vec::new();
    let mut i: usize = 0;
    while i < v.len()
        invariant
            i <= v@.len(),
            texts(out@) == texts(v@).take(i as int),
        decreases v@.len() - i,
    {
        let s = v[i].clone();
        proof {
            texts_push(out@, s);
            assert(texts(v@).take(i + 1) =~= texts(v@).take(i as int).push(v@[i as int]@));
        }
        out.push(s);
        i = i + 1;
    }
    assert(texts(v@).take(v@.len() as int) =~= texts(v@));
    out
}

/// Whether `a` holds the texts of `b` in its first places.
pub fn starts_with_texts(a: &Vec<String>, b: &Vec<String>) -> (r: bool)
    ensures
        r == (b@.len() <= a@.len() && texts(a@).take(b@.len() as int) == texts(b@)),
{
    if b.len() > a.len() {
        return false;
    }
    let mut i: usize = 0;
    while i < b.len()
        invariant
            i <= b@.len() <= a@.len(),
            forall|j: int| 0 <= j < i ==> texts(a@)[j] == texts(b@)[j],
        decreases b@.len() - i,
    {
        if a[i] != b[i] {
            assert(texts(a@).take(b@.len() as int)[i as int] != texts(b@)[i as int]);
            return false;
        }
        i = i + 1;
    }
    assert(texts(a@).take(b@.len() as int) =~= texts(b@));
    true
}

// ---------------------------------------------------------------------------
// Order

/// Lexicographic order by code point: the order of `str` in the standard library.
pub open spec fn text_lt(a: Seq<char>, b: Seq<char>) -> bool
    decreases a.len(),
{
    if b.len() == 0 {
        false
    } else if a.len() == 0 {
        true
    } else if a[0] == b[0] {
        text_lt(a.drop_first(), b.drop_first())
    } else {
        a[0] < b[0]
    }
}

pub proof fn text_lt_irreflexive(a: Seq<char>)
    ensures
        !text_lt(a, a),
    decreases a.len(),
{
    if a.len() > 0 {
        text_lt_irreflexive(a.drop_first());
    }
}

pub proof fn text_lt_transitive(a: Seq<char>, b: Seq<char>, c: Seq<char>)
    requires
        text_lt(a, b),
        text_lt(b, c),
    ensures
        text_lt(a, c),
    decreases a.len(),
{
    if a.len() > 0 && a[0] == b[0] && b[0] == c[0] {
        text_lt_transitive(a.drop_first(), b.drop_first(), c.drop_first());
    }
}

pub proof fn text_lt_total(a: Seq<char>, b: Seq<char>)
    ensures
        text_lt(a, b) || text_lt(b, a) || a == b,
    decreases a.len(),
{
    if a.len() > 0 && b.len() > 0 {
        if a[0] == b[0] {
            text_lt_total(a.drop_first(), b.drop_first());
            if a.drop_first() == b.drop_first() {
                assert(a =~= seq![a[0]] + a.drop_first());
                assert(b =~= seq![b[0]] + b.drop_first());
            }
        }
    } else if a.len() == 0 && b.len() == 0 {
        assert(a =~= b);
    }
}

/// The text in the set that comes before every other one.
pub open spec fn least(s: Set<Seq<char>>) -> Seq<char> {
    choose|k: Seq<char>| #[trigger] s.contains(k) && forall|j: Seq<char>| #[trigger] s.contains(j) && j != k ==> text_lt(k, j)
}

pub proof fn least_is(s: Set<Seq<char>>, k: Seq<char>)
    requires
        s.contains(k),
        forall|j: Seq<char>| #[trigger] s.contains(j) && j != k ==> text_lt(k, j),
    ensures
        least(s) == k,
{
    let l = least(s);
    assert(s.contains(l) && forall|j: Seq<char>| #[trigger] s.contains(j) && j != l ==> text_lt(l, j));
    if l != k {
        assert(text_lt(k, l));
        assert(text_lt(l, k));
        text_lt_transitive(k, l, k);
        text_lt_irreflexive(k);
    }
}

/// Whether `a` comes before `b`.
pub fn text_less(a: &str, b: &str) -> (r: bool)
    ensures
        r == text_lt(a@, b@),
{
    let x = chars_of(a);
    let y = chars_of(b);
    let mut i: usize = 0;
    assert(a@.skip(0) =~= a@);
    assert(b@.skip(0) =~= b@);
    while i < x.len() && i < y.len()
        invariant
            x@ == a@,
            y@ == b@,
            i <= x@.len(),
            i <= y@.len(),
            text_lt(a@, b@) == text_lt(a@.skip(i as int), b@.skip(i as int)),
        decreases x@.len() - i,
    {
        if x[i] != y[i] {
            return x[i] < y[i];
        }
        assert(a@.skip(i as int).drop_first() =~= a@.skip(i + 1));
        assert(b@.skip(i as int).drop_first() =~= b@.skip(i + 1));
        i = i + 1;
    }
    i < y.len()
}

// ---------------------------------------------------------------------------
// Prefixes, suffixes, white space

pub open spec fn has_prefix(s: Seq<char>, prefix: Seq<char>) -> bool {
    prefix.len() <= s.len() && s.take(prefix.len() as int) == prefix
}

pub open spec fn has_suffix(s: Seq<char>, suffix: Seq<char>) -> bool {
    suffix.len() <= s.len() && s.skip(s.len() - suffix.len()) == suffix
}

/// What follows `prefix` in `s`, where `s` starts with it.
pub fn strip_prefix(s: &str, prefix: &str) -> (r: Option<String>)
    ensures
        match r {
            Some(rest) => has_prefix(s@, prefix@) && rest@ == s@.skip(prefix@.len() as int),
            None => !has_prefix(s@, prefix@),
        },
{
    let cs = chars_of(s);
    let ps = chars_of(prefix);
    if ps.len() > cs.len() {
        return None;
    }
    let mut i: usize = 0;
    while i < ps.len()
        invariant
            cs@ == s@,
            ps@ == prefix@,
            i <= ps@.len() <= cs@.len(),
            forall|j: int| 0 <= j < i ==> cs@[j] == ps@[j],
        decreases ps@.len() - i,
    {
        if cs[i] != ps[i] {
            assert(s@.take(prefix@.len() as int)[i as int] != prefix@[i as int]);
            return None;
        }
        i = i + 1;
    }
    assert(s@.take(prefix@.len() as int) =~= prefix@);
    assert(s@.subrange(prefix@.len() as int, s@.len() as int) =~= s@.skip(prefix@.len() as int));
    Some(string_of(&cs, ps.len(), cs.len()))
}

/// What precedes `suffix` in `s`, where `s` ends with it.
pub fn strip_suffix(s: &str, suffix: &str) -> (r: Option<String>)
    ensures
        match r {
            Some(rest) => has_suffix(s@, suffix@) && rest@ == s@.take(s@.len() - suffix@.len()),
            None => !has_suffix(s@, suffix@),
        },
{
    let cs = chars_of(s);
    let ps = chars_of(suffix);
    if ps.len() > cs.len() {
        return None;
    }
    let from: usize = cs.len() - ps.len();
    let mut i: usize = 0;
    while i < ps.len()
        invariant
            cs@ == s@,
            ps@ == suffix@,
            from + ps@.len() == cs.len(),
            i <= ps@.len(),
            forall|j: int| 0 <= j < i ==> cs@[from + j] == ps@[j],
        decreases ps@.len() - i,
    {
        if cs[from + i] != ps[i] {
            assert(s@.skip(from as int)[i as int] != suffix@[i as int]);
            return None;
        }
        i = i + 1;
    }
    assert(s@.skip(from as int) =~= suffix@);
    assert(s@.subrange(0, from as int) =~= s@.take(from as int));
    Some(string_of(&cs, 0, from))
}

/// Whether `s` starts with `prefix`.
pub fn starts_with(s: &str, prefix: &str) -> (r: bool)
    ensures
        r == has_prefix(s@, prefix@),
{
    strip_prefix(s, prefix).is_some()
}

/// Whether `s` ends with `suffix`.
pub fn ends_with(s: &str, suffix: &str) -> (r: bool)
    ensures
        r == has_suffix(s@, suffix@),
{
    strip_suffix(s, suffix).is_some()
}

/// Whether the character occurs in `s`.
pub fn contains_char(s: &str, c: char) -> (r: bool)
    ensures
        r == s@.contains(c),
{
    let cs = chars_of(s);
    let mut i: usize = 0;
    while i < cs.len()
        invariant
            cs@ == s@,
            i <= cs@.len(),
            forall|j: int| 0 <= j < i ==> cs@[j] != c,
        decreases cs@.len() - i,
    {
        if cs[i] == c {
            assert(s@[i as int] == c);
            return true;
        }
        i = i + 1;
    }
    false
}

/// Whether `part` occurs in `s`.
pub open spec fn has_within(s: Seq<char>, part: Seq<char>) -> bool {
    exists|i: int| 0 <= i && i + part.len() <= s.len() && #[trigger] s.subrange(i, i + part.len()) == part
}

/// Whether `part` occurs in `s`.
pub fn contains_text(s: &str, part: &str) -> (r: bool)
    ensures
        r == has_within(s@, part@),
{
    let cs = chars_of(s);
    let ps = chars_of(part);
    if ps.len() > cs.len() {
        return false;
    }
    let n: usize = cs.len();
    let last: usize = n - ps.len();
    let mut i: usize = 0;
    while i <= last
        invariant
            cs@ == s@,
            ps@ == part@,
            n == cs@.len(),
            last == n - ps@.len(),
            i <= last + 1,
            forall|k: int| 0 <= k < i ==> #[trigger] s@.subrange(k, k + part@.len()) != part@,
        decreases last + 1 - i,
    {
        let mut j: usize = 0;
        while j < ps.len() && cs[i + j] == ps[j]
            invariant
                cs@ == s@,
                ps@ == part@,
                n == cs@.len(),
                i + ps@.len() <= n,
                j <= ps@.len(),
                forall|k: int| 0 <= k < j ==> cs@[i + k] == ps@[k],
            decreases ps@.len() - j,
        {
            j = j + 1;
        }
        if j == ps.len() {
            assert(s@.subrange(i as int, i + part@.len()) =~= part@);
            return true;
        }
        assert(s@.subrange(i as int, i + part@.len())[j as int] != part@[j as int]);
        if i == last {
            return false;
        }
        i = i + 1;
    }
    false
}

/// What stands before and after the first `c` in `s`.
pub open spec fn split_at_first(s: Seq<char>, c: char) -> Option<(Seq<char>, Seq<char>)>
    decreases s.len(),
{
    if s.len() == 0 {
        None
    } else if s[0] == c {
        Some((Seq::empty(), s.drop_first()))
    } else {
        match split_at_first(s.drop_first(), c) {
            Some((a, b)) => Some((seq![s[0]] + a, b)),
            None => None,
        }
    }
}

/// The split is at the first `c`.
pub proof fn split_is_at_first(a: Seq<char>, c: char, b: Seq<char>)
    requires
        !a.contains(c),
    ensures
        split_at_first(a.push(c) + b, c) == Some((a, b)),
    decreases a.len(),
{
    let s = a.push(c) + b;
    if a.len() == 0 {
        assert(s.drop_first() =~= b);
        assert(a =~= Seq::<char>::empty());
    } else {
        assert(a[0] != c);
        let t = a.drop_first();
        assert forall|i: int| 0 <= i < t.len() implies t[i] != c by {
            assert(a[i + 1] != c);
        }
        split_is_at_first(t, c, b);
        assert(s.drop_first() =~= t.push(c) + b);
        assert(seq![a[0]] + t =~= a);
    }
}

/// Where there is no `c`, there is no split.
pub proof fn no_split_without(s: Seq<char>, c: char)
    ensures
        split_at_first(s, c) is None <==> !s.contains(c),
    decreases s.len(),
{
    if s.len() > 0 {
        no_split_without(s.drop_first(), c);
        if s.contains(c) && s[0] != c {
            let i = choose|i: int| 0 <= i < s.len() && s[i] == c;
            assert(s.drop_first()[i - 1] == c);
        }
        if s.drop_first().contains(c) {
            let i = choose|i: int| 0 <= i < s.drop_first().len() && s.drop_first()[i] == c;
            assert(s[i + 1] == c);
        }
    }
}

/// What stands before and after the first `c` in `s`.
pub fn split_once(s: &str, c: char) -> (r: Option<(String, String)>)
    ensures
        match r {
            Some((a, b)) => split_at_first(s@, c) == Some((a@, b@)),
            None => split_at_first(s@, c) is None,
        },
{
    let cs = chars_of(s);
    let mut i: usize = 0;
    while i < cs.len()
        invariant
            cs@ == s@,
            i <= cs@.len(),
            !s@.take(i as int).contains(c),
        decreases cs@.len() - i,
    {
        if cs[i] == c {
            proof {
                let a = s@.take(i as int);
                let b = s@.skip(i + 1);
                split_is_at_first(a, c, b);
                assert(a.push(c) + b =~= s@);
                assert(s@.subrange(0, i as int) =~= a);
                assert(s@.subrange(i + 1, s@.len() as int) =~= b);
            }
            return Some((string_of(&cs, 0, i), string_of(&cs, i + 1, cs.len())));
        }
        proof {
            let t = s@.take(i + 1);
            if t.contains(c) {
                let j = choose|j: int| 0 <= j < t.len() && t[j] == c;
                assert(s@.take(i as int)[j] == c);
            }
        }
        i = i + 1;
    }
    proof {
        no_split_without(s@, c);
        assert(s@.take(s@.len() as int) =~= s@);
    }
    None
}

/// The characters with the Unicode property White_Space.
pub open spec fn is_white_space(c: char) -> bool {
    ||| '\u{9}' <= c <= '\u{d}'
    ||| c == ' '
    ||| c == '\u{85}'
    ||| c == '\u{a0}'
    ||| c == '\u{1680}'
    ||| '\u{2000}' <= c <= '\u{200a}'
    ||| c == '\u{2028}'
    ||| c == '\u{2029}'
    ||| c == '\u{202f}'
    ||| c == '\u{205f}'
    ||| c == '\u{3000}'
}

fn white_space(c: char) -> (r: bool)
    ensures
        r == is_white_space(c),
{
    ('\u{9}' <= c && c <= '\u{d}') || c == ' ' || c == '\u{85}' || c == '\u{a0}' || c == '\u{1680}' || (
    '\u{2000}' <= c && c <= '\u{200a}') || c == '\u{2028}' || c == '\u{2029}' || c == '\u{202f}' || c
        == '\u{205f}' || c == '\u{3000}'
}

/// `s` without the white space at its start.
pub open spec fn trim_start(s: Seq<char>) -> Seq<char>
    decreases s.len(),
{
    if s.len() > 0 && is_white_space(s[0]) {
        trim_start(s.drop_first())
    } else {
        s
    }
}

/// `s` without the white space at its end.
pub open spec fn trim_end(s: Seq<char>) -> Seq<char>
    decreases s.len(),
{
    if s.len() > 0 && is_white_space(s.last()) {
        trim_end(s.drop_last())
    } else {
        s
    }
}

/// `s` without the white space at either end.
pub open spec fn trimmed(s: Seq<char>) -> Seq<char> {
    trim_end(trim_start(s))
}

/// A text is blank where it holds nothing but white space.
pub open spec fn is_blank(s: Seq<char>) -> bool {
    forall|i: int| 0 <= i < s.len() ==> is_white_space(#[trigger] s[i])
}

pub proof fn trim_start_of_blank(s: Seq<char>)
    ensures
        is_blank(s) <==> trim_start(s).len() == 0,
    decreases s.len(),
{
    if s.len() > 0 && is_white_space(s[0]) {
        trim_start_of_blank(s.drop_first());
        assert forall|i: int| 0 <= i < s.len() && is_blank(s.drop_first()) implies is_white_space(#[trigger] s[i]) by {
            if i > 0 {
                assert(s.drop_first()[i - 1] == s[i]);
            }
        }
        assert forall|i: int| 0 <= i < s.drop_first().len() && is_blank(s) implies is_white_space(
            #[trigger] s.drop_first()[i],
        ) by {
            assert(s.drop_first()[i] == s[i + 1]);
        }
    }
}

pub proof fn trim_end_keeps_first(s: Seq<char>)
    requires
        s.len() > 0,
        !is_white_space(s[0]),
    ensures
        trim_end(s).len() > 0,
        trim_end(s)[0] == s[0],
    decreases s.len(),
{
    if is_white_space(s.last()) {
        assert(s.len() > 1);
        trim_end_keeps_first(s.drop_last());
    }
}

proof fn trim_start_head(s: Seq<char>)
    ensures
        trim_start(s).len() > 0 ==> !is_white_space(trim_start(s)[0]),
    decreases s.len(),
{
    if s.len() > 0 && is_white_space(s[0]) {
        trim_start_head(s.drop_first());
    }
}

/// Trimming leaves nothing exactly of a blank text.
pub proof fn trimmed_of_blank(s: Seq<char>)
    ensures
        is_blank(s) <==> trimmed(s).len() == 0,
{
    trim_start_of_blank(s);
    trim_start_head(s);
    if trim_start(s).len() > 0 {
        trim_end_keeps_first(trim_start(s));
    }
}

proof fn trim_end_last(s: Seq<char>)
    ensures
        trim_end(s).len() > 0 ==> !is_white_space(trim_end(s).last()),
    decreases s.len(),
{
    if s.len() > 0 && is_white_space(s.last()) {
        trim_end_last(s.drop_last());
    }
}

/// What is trimmed has no white space at either end.
pub proof fn trimming_is_done_once(s: Seq<char>)
    ensures
        trimmed(trimmed(s)) == trimmed(s),
{
    let t = trimmed(s);
    trim_start_head(s);
    trim_end_last(trim_start(s));
    if trim_start(s).len() > 0 {
        trim_end_keeps_first(trim_start(s));
        assert(trim_start(t) == t);
    }
}

proof fn trim_start_of_more(s: Seq<char>, c: char)
    requires
        is_white_space(c),
    ensures
        trim_start(s.push(c)) == if is_blank(s) {
            Seq::empty()
        } else {
            trim_start(s).push(c)
        },
    decreases s.len(),
{
    if s.len() == 0 {
        assert(s.push(c).drop_first() =~= Seq::<char>::empty());
        assert(trim_start(s.push(c).drop_first()) =~= Seq::<char>::empty());
    } else {
        assert(s.push(c)[0] == s[0]);
        if is_white_space(s[0]) {
            assert(s.push(c).drop_first() =~= s.drop_first().push(c));
            trim_start_of_more(s.drop_first(), c);
            assert(is_blank(s) == is_blank(s.drop_first())) by {
                trim_start_of_blank(s);
                trim_start_of_blank(s.drop_first());
            }
        }
    }
}

/// White space at the end makes no difference to what is left.
pub proof fn trimmed_of_more(s: Seq<char>, c: char)
    requires
        is_white_space(c),
    ensures
        trimmed(s.push(c)) == trimmed(s),
{
    trim_start_of_more(s, c);
    trim_start_of_blank(s);
    if !is_blank(s) {
        assert(trim_start(s).push(c).drop_last() =~= trim_start(s));
    } else {
        assert(trim_start(s) =~= Seq::<char>::empty());
    }
}

/// `s` without the white space at either end.
pub fn trim(s: &str) -> (r: String)
    ensures
        r@ == trimmed(s@),
{
    let cs = chars_of(s);
    let mut from: usize = 0;
    assert(s@.skip(0) =~= s@);
    while from < cs.len() && white_space(cs[from])
        invariant
            cs@ == s@,
            from <= cs@.len(),
            trim_start(s@) == trim_start(s@.skip(from as int)),
        decreases cs@.len() - from,
    {
        assert(s@.skip(from as int).drop_first() =~= s@.skip(from + 1));
        from = from + 1;
    }
    assert(trim_start(s@) == s@.skip(from as int));
    let mut to: usize = cs.len();
    assert(s@.subrange(from as int, to as int) =~= s@.skip(from as int));
    while from < to && white_space(cs[to - 1])
        invariant
            cs@ == s@,
            from <= to <= cs@.len(),
            trimmed(s@) == trim_end(s@.subrange(from as int, to as int)),
        decreases to - from,
    {
        assert(s@.subrange(from as int, to as int).drop_last() =~= s@.subrange(from as int, to - 1));
        to = to - 1;
    }
    string_of(&cs, from, to)
}

/// Whether `s` holds nothing but white space.
pub fn blank(s: &str) -> (r: bool)
    ensures
        r == is_blank(s@),
{
    let t = trim(s);
    proof {
        trimmed_of_blank(s@);
    }
    t.as_str().is_empty()
}

// ---------------------------------------------------------------------------
// Numerals

/// The decimal digit with the value `n`.
pub open spec fn digit(n: nat) -> char {
    (48 + n) as char
}

pub open spec fn is_digit(c: char) -> bool {
    '0' <= c <= '9'
}

/// The value of a decimal digit.
pub open spec fn digit_value(c: char) -> nat {
    (c as int - 48) as nat
}

/// `n` in decimal, without leading zeros.
pub open spec fn decimal(n: nat) -> Seq<char>
    decreases n,
{
    if n < 10 {
        seq![digit(n)]
    } else {
        decimal(n / 10).push(digit(n % 10))
    }
}

/// The value of a run of decimal digits.
pub open spec fn digits_value(s: Seq<char>) -> nat
    decreases s.len(),
{
    if s.len() == 0 {
        0
    } else {
        digits_value(s.drop_last()) * 10 + digit_value(s.last())
    }
}

/// One or more decimal digits and nothing else.
pub open spec fn is_digits(s: Seq<char>) -> bool {
    s.len() > 0 && forall|i: int| 0 <= i < s.len() ==> is_digit(#[trigger] s[i])
}

/// Reading a numeral back gives the number that was written.
pub proof fn decimal_read_back(n: nat)
    ensures
        is_digits(decimal(n)),
        digits_value(decimal(n)) == n,
    decreases n,
{
    let s = decimal(n);
    if n < 10 {
        assert(s.drop_last() =~= Seq::<char>::empty());
        assert(digits_value(s.drop_last()) == 0);
        assert(s.last() == digit(n));
    } else {
        decimal_read_back(n / 10);
        assert(s.drop_last() =~= decimal(n / 10));
        assert forall|i: int| 0 <= i < s.len() implies is_digit(#[trigger] s[i]) by {
            if i < s.len() - 1 {
                assert(s[i] == decimal(n / 10)[i]);
            }
        }
    }
}

/// Two numbers with the same numeral are the same number.
pub proof fn decimal_injective(m: nat, n: nat)
    requires
        decimal(m) == decimal(n),
    ensures
        m == n,
{
    decimal_read_back(m);
    decimal_read_back(n);
}

fn digit_char(d: u64) -> (r: char)
    requires
        d < 10,
    ensures
        r == digit(d as nat),
{
    (48u8 + d as u8) as char
}

/// `n` in decimal.
pub fn decimal_u64(n: u64) -> (r: String)
    ensures
        r@ == decimal(n as nat),
    decreases n,
{
    if n < 10 {
        let mut out = String::new();
        out.push(digit_char(n));
        assert(out@ =~= seq![digit(n as nat)]);
        out
    } else {
        let mut out = decimal_u64(n / 10);
        out.push(digit_char(n % 10));
        out
    }
}

/// `n` in decimal, with zeros in front up to the width.
pub open spec fn padded(n: nat, width: nat) -> Seq<char> {
    let s = decimal(n);
    if s.len() < width {
        Seq::new((width - s.len()) as nat, |i: int| '0') + s
    } else {
        s
    }
}

proof fn zeros_weigh_nothing(k: nat, s: Seq<char>)
    ensures
        digits_value(Seq::new(k, |i: int| '0') + s) == digits_value(s),
    decreases k + s.len(),
{
    let z = Seq::new(k, |i: int| '0');
    if s.len() > 0 {
        zeros_weigh_nothing(k, s.drop_last());
        assert((z + s).drop_last() =~= z + s.drop_last());
    } else if k > 0 {
        let y = Seq::new((k - 1) as nat, |i: int| '0');
        zeros_weigh_nothing((k - 1) as nat, s);
        assert((z + s).drop_last() =~= y + s);
        assert((z + s).last() == '0');
    } else {
        assert(z + s =~= s);
    }
}

/// Reading a padded numeral back gives the number.
pub proof fn padded_read_back(n: nat, width: nat)
    ensures
        is_digits(padded(n, width)),
        digits_value(padded(n, width)) == n,
{
    decimal_read_back(n);
    let s = decimal(n);
    if s.len() < width {
        let k = (width - s.len()) as nat;
        zeros_weigh_nothing(k, s);
        let p = padded(n, width);
        assert forall|i: int| 0 <= i < p.len() implies is_digit(#[trigger] p[i]) by {
            if i >= k {
                assert(p[i] == s[i - k]);
            }
        }
    }
}

/// `n` in decimal, with zeros in front up to the width.
pub fn padded_u64(n: u64, width: usize) -> (r: String)
    ensures
        r@ == padded(n as nat, width as nat),
{
    let s = decimal_u64(n);
    let len = s.as_str().unicode_len();
    if len >= width {
        return s;
    }
    let mut out = String::new();
    let mut i: usize = len;
    while i < width
        invariant
            len <= i <= width,
            out@ == Seq::new((i - len) as nat, |j: int| '0'),
        decreases width - i,
    {
        out.push('0');
        assert(out@ =~= Seq::new((i + 1 - len) as nat, |j: int| '0'));
        i = i + 1;
    }
    out.append(s.as_str());
    out
}

/// The digits and the sign of a numeral that `str::parse` reads into an unsigned integer:
/// digits, with an optional `+` in front.
pub open spec fn unsigned_digits(s: Seq<char>) -> Option<Seq<char>> {
    if is_digits(s) {
        Some(s)
    } else if s.len() > 0 && s[0] == '+' && is_digits(s.drop_first()) {
        Some(s.drop_first())
    } else {
        None
    }
}

/// What `s` says as an unsigned integer no larger than `max`.
pub open spec fn unsigned_value(s: Seq<char>, max: nat) -> Option<nat> {
    match unsigned_digits(s) {
        Some(ds) => if digits_value(ds) <= max {
            Some(digits_value(ds))
        } else {
            None
        },
        None => None,
    }
}

proof fn digits_value_grows(s: Seq<char>, i: int)
    requires
        0 <= i <= s.len(),
    ensures
        digits_value(s.take(i)) <= digits_value(s),
    decreases s.len() - i,
{
    if i < s.len() {
        digits_value_grows(s, i + 1);
        assert(s.take(i + 1).drop_last() =~= s.take(i));
        assert(digits_value(s.take(i + 1)) >= digits_value(s.take(i)));
    } else {
        assert(s.take(i) =~= s);
    }
}

/// The value of the digits `cs[from..]`, where they are digits and the value fits.
fn read_digits(cs: &Vec<char>, from: usize) -> (r: Option<u64>)
    requires
        from <= cs@.len(),
    ensures
        ({
            let ds = cs@.skip(from as int);
            match r {
                Some(v) => is_digits(ds) && digits_value(ds) == v,
                None => !(is_digits(ds) && digits_value(ds) <= u64::MAX),
            }
        }),
{
    let ghost ds = cs@.skip(from as int);
    if from == cs.len() {
        return None;
    }
    let mut acc: u64 = 0;
    let mut i: usize = from;
    assert(ds.take(0) =~= Seq::<char>::empty());
    while i < cs.len()
        invariant
            ds == cs@.skip(from as int),
            from <= i <= cs@.len(),
            forall|j: int| 0 <= j < i - from ==> is_digit(#[trigger] ds[j]),
            acc == digits_value(ds.take(i - from)),
        decreases cs@.len() - i,
    {
        let c: char = cs[i];
        assert(ds[i - from] == c);
        if !('0' <= c && c <= '9') {
            return None;
        }
        let d: u64 = (c as u32 - 48) as u64;
        proof {
            let t = ds.take(i - from + 1);
            assert(t.drop_last() =~= ds.take(i - from));
            assert(t.last() == c);
            assert(digits_value(t) == acc * 10 + d);
            digits_value_grows(ds, i - from + 1);
        }
        match acc.checked_mul(10) {
            None => {
                return None;
            },
            Some(x) => {
                match x.checked_add(d) {
                    None => {
                        return None;
                    },
                    Some(y) => {
                        acc = y;
                    },
                }
            },
        }
        i = i + 1;
    }
    assert(ds.take(cs@.len() - from) =~= ds);
    Some(acc)
}

/// `s` read as an unsigned 64-bit integer, as `str::parse` does.
pub fn parse_u64(s: &str) -> (r: Option<u64>)
    ensures
        match r {
            Some(v) => unsigned_value(s@, u64::MAX as nat) == Some(v as nat),
            None => unsigned_value(s@, u64::MAX as nat) is None,
        },
{
    let cs = chars_of(s);
    assert(cs@.skip(0) =~= s@);
    if cs.len() > 0 && cs[0] == '+' {
        assert(cs@.skip(1) =~= s@.drop_first());
        assert(!is_digit(s@[0]));
        read_digits(&cs, 1)
    } else {
        read_digits(&cs, 0)
    }
}

/// `s` read as an unsigned 32-bit integer, as `str::parse` does.
pub fn parse_u32(s: &str) -> (r: Option<u32>)
    ensures
        match r {
            Some(v) => unsigned_value(s@, u32::MAX as nat) == Some(v as nat),
            None => unsigned_value(s@, u32::MAX as nat) is None,
        },
{
    match parse_u64(s) {
        Some(v) => if v <= u32::MAX as u64 {
            Some(v as u32)
        } else {
            None
        },
        None => None,
    }
}

/// What `s` says as a signed 64-bit integer: digits, with an optional sign in front.
pub open spec fn signed_value(s: Seq<char>) -> Option<int> {
    if s.len() > 0 && s[0] == '-' {
        if is_digits(s.drop_first()) && digits_value(s.drop_first()) <= 0x8000_0000_0000_0000 {
            Some(-(digits_value(s.drop_first()) as int))
        } else {
            None
        }
    } else {
        match unsigned_value(s, i64::MAX as nat) {
            Some(v) => Some(v as int),
            None => None,
        }
    }
}

/// `s` read as a signed 64-bit integer, as `str::parse` does.
pub fn parse_i64(s: &str) -> (r: Option<i64>)
    ensures
        match r {
            Some(v) => signed_value(s@) == Some(v as int),
            None => signed_value(s@) is None,
        },
{
    let cs = chars_of(s);
    if cs.len() > 0 && cs[0] == '-' {
        assert(cs@.skip(1) =~= s@.drop_first());
        match read_digits(&cs, 1) {
            Some(v) => if v == 0x8000_0000_0000_0000u64 {
                Some(i64::MIN)
            } else if v < 0x8000_0000_0000_0000u64 {
                Some(-(v as i64))
            } else {
                None
            },
            None => None,
        }
    } else {
        match parse_u64(s) {
            Some(v) => if v <= i64::MAX as u64 {
                Some(v as i64)
            } else {
                None
            },
            None => None,
        }
    }
}

// ---------------------------------------------------------------------------
// Size in bytes

/// The number of bytes in the UTF-8 of a text.
pub open spec fn utf8_size(s: Seq<char>) -> nat {
    vstd::utf8::encode_utf8(s).len()
}

/// The number of bytes in the UTF-8 of the text.
pub fn size_of(s: &str) -> (n: usize)
    ensures
        n == utf8_size(s@),
{
    s.as_bytes().len()
}

/// The number of bytes in the UTF-8 of a character.
pub open spec fn utf8_width(c: char) -> nat {
    if c <= '\u{7f}' {
        1
    } else if c <= '\u{7ff}' {
        2
    } else if c <= '\u{ffff}' {
        3
    } else {
        4
    }
}

pub proof fn utf8_size_push(s: Seq<char>, c: char)
    ensures
        utf8_size(s.push(c)) == utf8_size(s) + utf8_width(c),
    decreases s.len(),
{
    broadcast use vstd::utf8::char_is_scalar;

    if s.len() == 0 {
        assert(s.push(c).drop_first() =~= Seq::<char>::empty());
        assert(s.push(c)[0] == c);
        assert(vstd::utf8::encode_utf8(s.push(c).drop_first()).len() == 0);
        assert(vstd::utf8::is_scalar(c as u32));
    } else {
        utf8_size_push(s.drop_first(), c);
        assert(s.push(c).drop_first() =~= s.drop_first().push(c));
        assert(s.push(c)[0] == s[0]);
    }
}

/// Fewer characters take no more bytes.
pub proof fn utf8_size_of_start(s: Seq<char>, n: int)
    requires
        0 <= n <= s.len(),
    ensures
        utf8_size(s.take(n)) <= utf8_size(s),
        n < s.len() ==> utf8_size(s.take(n)) < utf8_size(s),
    decreases s.len() - n,
{
    if n < s.len() {
        utf8_size_of_start(s, n + 1);
        assert(s.take(n + 1) =~= s.take(n).push(s[n]));
        utf8_size_push(s.take(n), s[n]);
    } else {
        assert(s.take(n) =~= s);
    }
}

/// `n` is the most characters from the start of `s` that fit in `max` bytes.
pub open spec fn is_longest_fit(s: Seq<char>, max: nat, n: int) -> bool {
    &&& 0 <= n <= s.len()
    &&& utf8_size(s.take(n)) <= max
    &&& n < s.len() ==> utf8_size(s.take(n + 1)) > max
}

/// There is one number of characters that is the most that fit.
pub proof fn longest_fit_is_one(s: Seq<char>, max: nat, m: int, n: int)
    requires
        is_longest_fit(s, max, m),
        is_longest_fit(s, max, n),
    ensures
        m == n,
{
    if m < n {
        utf8_size_of_start(s.take(n), m + 1);
        assert(s.take(n).take(m + 1) =~= s.take(m + 1));
    } else if n < m {
        utf8_size_of_start(s.take(m), n + 1);
        assert(s.take(m).take(n + 1) =~= s.take(n + 1));
    }
}

/// The start of the text that fits in `max` bytes, cut between two characters, and how many bytes
/// it has.
pub fn fitting_start(s: &str, max: usize) -> (r: (String, usize))
    ensures
        exists|n: int| #[trigger]
            is_longest_fit(s@, max as nat, n) && r.0@ == s@.take(n) && r.1 == utf8_size(s@.take(n)),
{
    let cs = chars_of(s);
    let mut n: usize = 0;
    let mut size: usize = 0;
    assert(s@.take(0) =~= Seq::<char>::empty());
    while n < cs.len()
        invariant
            cs@ == s@,
            n <= cs@.len(),
            size == utf8_size(s@.take(n as int)),
            size <= max,
        decreases cs@.len() - n,
    {
        let c: char = cs[n];
        let width: usize = if c <= '\u{7f}' {
            1
        } else if c <= '\u{7ff}' {
            2
        } else if c <= '\u{ffff}' {
            3
        } else {
            4
        };
        proof {
            assert(s@.take(n + 1) =~= s@.take(n as int).push(c));
            utf8_size_push(s@.take(n as int), c);
        }
        if width > max - size {
            assert(is_longest_fit(s@, max as nat, n as int));
            assert(s@.subrange(0, n as int) =~= s@.take(n as int));
            return (string_of(&cs, 0, n), size);
        }
        size = size + width;
        n = n + 1;
    }
    assert(is_longest_fit(s@, max as nat, n as int));
    assert(s@.subrange(0, n as int) =~= s@.take(n as int));
    (string_of(&cs, 0, n), size)
}

// ---------------------------------------------------------------------------
// What holds of it all

/// White space is what Unicode says it is, by code point.
pub proof fn white_space_by_code_point(c: char)
    ensures
        is_white_space(c) <==> {
            let n = c as u32;
            9 <= n <= 13 || n == 32 || n == 133 || n == 160 || n == 5760 || 8192 <= n <= 8202 || n == 8232 || n == 8233
                || n == 8239 || n == 8287 || n == 12288
        },
{
}

proof fn start_is_cut_off(s: Seq<char>)
    ensures
        exists|k: int|
            0 <= k <= s.len() && trim_start(s) == #[trigger] s.skip(k) && forall|i: int|
                0 <= i < k ==> is_white_space(#[trigger] s[i]),
    decreases s.len(),
{
    if s.len() > 0 && is_white_space(s[0]) {
        let t = s.drop_first();
        start_is_cut_off(t);
        let k = choose|k: int|
            0 <= k <= t.len() && trim_start(t) == #[trigger] t.skip(k) && forall|i: int|
                0 <= i < k ==> is_white_space(#[trigger] t[i]);
        assert(t.skip(k) =~= s.skip(k + 1));
        assert forall|i: int| 0 <= i < k + 1 implies is_white_space(#[trigger] s[i]) by {
            if i > 0 {
                assert(t[i - 1] == s[i]);
            }
        }
    } else {
        assert(s.skip(0) =~= s);
    }
}

proof fn end_is_cut_off(s: Seq<char>)
    ensures
        exists|k: int|
            0 <= k <= s.len() && trim_end(s) == #[trigger] s.take(k) && forall|i: int|
                k <= i < s.len() ==> is_white_space(#[trigger] s[i]),
    decreases s.len(),
{
    if s.len() > 0 && is_white_space(s.last()) {
        let t = s.drop_last();
        end_is_cut_off(t);
        let k = choose|k: int|
            0 <= k <= t.len() && trim_end(t) == #[trigger] t.take(k) && forall|i: int|
                k <= i < t.len() ==> is_white_space(#[trigger] t[i]);
        assert(t.take(k) =~= s.take(k));
        assert forall|i: int| k <= i < s.len() implies is_white_space(#[trigger] s[i]) by {
            if i < t.len() {
                assert(t[i] == s[i]);
            }
        }
    } else {
        assert(s.take(s.len() as int) =~= s);
    }
}

/// Trimming takes white space from both ends of a text, all of it, and nothing else: what is left
/// stands in the text from `from` up to `to`, with nothing but white space around it, and neither
/// starts nor ends with any.
pub proof fn trimming_takes_the_ends(s: Seq<char>)
    ensures
        exists|from: int, to: int|
            0 <= from <= to <= s.len() && trimmed(s) == #[trigger] s.subrange(from, to) && (forall|i: int|
                0 <= i < from || to <= i < s.len() ==> is_white_space(#[trigger] s[i])) && (from < to
                ==> !is_white_space(s[from]) && !is_white_space(s[to - 1])),
{
    start_is_cut_off(s);
    let t = trim_start(s);
    end_is_cut_off(t);
    let from = choose|k: int|
        0 <= k <= s.len() && t == #[trigger] s.skip(k) && forall|i: int| 0 <= i < k ==> is_white_space(#[trigger] s[i]);
    let n = choose|k: int|
        0 <= k <= t.len() && trim_end(t) == #[trigger] t.take(k) && forall|i: int|
            k <= i < t.len() ==> is_white_space(#[trigger] t[i]);
    let to = from + n;
    assert(s.subrange(from, to) =~= t.take(n));
    assert forall|i: int| 0 <= i < from || to <= i < s.len() implies is_white_space(#[trigger] s[i]) by {
        if i >= to {
            assert(t[i - from] == s[i]);
        }
    }
    if from < to {
        trim_start_head(s);
        trim_end_last(t);
        assert(t[0] == s[from]);
        assert(trim_end(t).last() == s[to - 1]);
    }
}

/// Of two texts the one comes first that is smaller where they first differ, or that the other goes
/// on from.
pub proof fn texts_are_ordered_where_they_differ(p: Seq<char>, a: char, b: char, x: Seq<char>, y: Seq<char>)
    requires
        a != b,
    ensures
        text_lt(p.push(a) + x, p.push(b) + y) <==> (a as u32) < (b as u32),
        text_lt(p, p.push(a) + x),
        !text_lt(p.push(a) + x, p),
        !text_lt(p, p),
    decreases p.len(),
{
    let l = p.push(a) + x;
    let r = p.push(b) + y;
    if p.len() > 0 {
        let q = p.drop_first();
        texts_are_ordered_where_they_differ(q, a, b, x, y);
        assert(l.drop_first() =~= q.push(a) + x);
        assert(r.drop_first() =~= q.push(b) + y);
    }
}

/// A numeral has the digits of its number: a digit for a number below ten, and any other number ends
/// in its last digit, behind the numeral of the rest.
pub proof fn numerals_are_written_digit_by_digit(n: nat, d: nat)
    requires
        d < 10,
    ensures
        decimal(d) == seq![(48 + d) as char],
        n > 0 ==> decimal(10 * n + d) == decimal(n).push((48 + d) as char),
{
    if n > 0 {
        assert((10 * n + d) / 10 == n && (10 * n + d) % 10 == d);
    }
}

/// A text starts with another where it is that text with something behind it, and ends with another
/// where it is that text with something before it. It holds what stands anywhere in it.
pub proof fn parts_are_found(a: Seq<char>, b: Seq<char>, c: Seq<char>, s: Seq<char>)
    ensures
        has_prefix(a + b, a),
        has_suffix(a + b, b),
        has_within(a + b + c, b),
        has_prefix(s, a) ==> s == a + s.skip(a.len() as int),
        has_suffix(s, b) ==> s == s.take(s.len() - b.len()) + b,
        s.len() < b.len() ==> !has_within(s, b) && !has_prefix(s, b) && !has_suffix(s, b),
        has_within(s, b) ==> exists|i: int| 0 <= i && i + b.len() <= s.len() && #[trigger] s.subrange(i, i + b.len()) == b,
{
    assert((a + b).take(a.len() as int) =~= a);
    assert((a + b).skip((a + b).len() - b.len()) =~= b);
    assert((a + b + c).subrange(a.len() as int, (a.len() + b.len()) as int) =~= b);
    if has_prefix(s, a) {
        assert(s =~= s.take(a.len() as int) + s.skip(a.len() as int));
    }
    if has_suffix(s, b) {
        assert(s =~= s.take(s.len() - b.len()) + s.skip(s.len() - b.len()));
    }
}

/// Two lists of strings that hold the same texts hold them one by one.
pub proof fn texts_are_seen_whole(a: Seq<String>, b: Seq<String>)
    requires
        texts(a) == texts(b),
    ensures
        a.len() == b.len(),
        forall|i: int| 0 <= i < a.len() ==> (#[trigger] a[i])@ == b[i]@,
{
    assert(texts(a).len() == a.len() && texts(b).len() == b.len());
    assert forall|i: int| 0 <= i < a.len() implies (#[trigger] a[i])@ == b[i]@ by {
        assert(texts(a)[i] == texts(b)[i]);
    }
}

/// A numeral that is padded has zeros before it up to its width, and a longer one is as it is.
pub proof fn padding_is_zeros(n: nat, width: nat, i: int)
    ensures
        decimal(n).len() >= width ==> padded(n, width) == decimal(n),
        decimal(n).len() < width ==> padded(n, width).len() == width && padded(n, width).skip(
            width - decimal(n).len(),
        ) == decimal(n) && (0 <= i < width - decimal(n).len() ==> padded(n, width)[i] == '0'),
{
    if decimal(n).len() < width {
        assert(padded(n, width).skip(width - decimal(n).len()) =~= decimal(n));
    }
}

/// A numeral is read as the number it stands for, up to the largest there may be: digits alone, or
/// after a plus sign; a number below zero is digits after a minus sign. Nothing else is a numeral.
pub proof fn numerals_are_read(ds: Seq<char>, c: char, max: nat, s: Seq<char>)
    ensures
        digits_value(Seq::empty()) == 0,
        is_digit(c) <==> 48 <= c as int <= 57,
        is_digit(c) ==> digits_value(ds.push(c)) == 10 * digits_value(ds) + (c as int - 48),
        is_digits(ds) <==> ds.len() > 0 && forall|i: int| 0 <= i < ds.len() ==> 48 <= (#[trigger] ds[i]) as int <= 57,
        is_digits(ds) && digits_value(ds) <= max ==> unsigned_value(ds, max) == Some(digits_value(ds))
            && unsigned_value(seq!['+'] + ds, max) == Some(digits_value(ds)),
        is_digits(ds) && digits_value(ds) > max ==> unsigned_value(ds, max) is None,
        is_digits(ds) && digits_value(ds) <= 0x7fff_ffff_ffff_ffff ==> signed_value(ds) == Some(digits_value(ds) as int),
        is_digits(ds) && digits_value(ds) <= 0x8000_0000_0000_0000 ==> signed_value(seq!['-'] + ds) == Some(
            -(digits_value(ds) as int),
        ),
        is_digits(ds) && digits_value(ds) > 0x8000_0000_0000_0000 ==> signed_value(ds) is None && signed_value(
            seq!['-'] + ds,
        ) is None,
        !is_digits(s) && !(s.len() > 0 && s[0] == '+') ==> unsigned_value(s, max) is None,
        s.len() > 0 && s[0] == '+' && !is_digits(s.drop_first()) ==> unsigned_value(s, max) is None,
{
    assert(ds.push(c).drop_last() =~= ds);
    assert((seq!['+'] + ds).drop_first() =~= ds);
    assert((seq!['-'] + ds).drop_first() =~= ds);
    if is_digits(ds) {
        assert(is_digit(ds[0]));
        assert((seq!['+'] + ds)[0] == '+');
        assert((seq!['-'] + ds)[0] == '-');
    }
    if ds.len() > 0 && (forall|i: int| 0 <= i < ds.len() ==> 48 <= (#[trigger] ds[i]) as int <= 57) {
        assert forall|i: int| 0 <= i < ds.len() implies is_digit(#[trigger] ds[i]) by {}
        assert(is_digits(ds));
    }
}

/// A text is split where a character first stands, and not at all where it does not stand.
pub proof fn texts_are_split_at_the_first(a: Seq<char>, c: char, b: Seq<char>, s: Seq<char>)
    requires
        !a.contains(c),
    ensures
        split_at_first(a.push(c) + b, c) == Some((a, b)),
        !s.contains(c) ==> split_at_first(s, c) is None,
{
    split_is_at_first(a, c, b);
    if !s.contains(c) {
        no_split_without(s, c);
    }
}

/// A character takes one to four bytes, by its code point, and a text as many as its characters.
pub proof fn sizes_add_up(s: Seq<char>, c: char)
    ensures
        utf8_size(Seq::empty()) == 0,
        utf8_size(s.push(c)) == utf8_size(s) + (if c as int <= 0x7f {
            1int
        } else if c as int <= 0x7ff {
            2
        } else if c as int <= 0xffff {
            3
        } else {
            4
        }),
{
    utf8_size_push(s, c);
}

} // verus!
