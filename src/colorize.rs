//! Injects one flat color into the `<path` and `<rect` openers of SVG text,
//! by literal replacement of every occurrence, as `str::replace` does.
use vstd::prelude::*;
use vstd::string::*;

verus! {

/// Whether `s` begins with `p`.
pub open spec fn starts_with(s: Seq<char>, p: Seq<char>) -> bool {
    p.len() <= s.len() && s.subrange(0, p.len() as int) == p
}

/// `s` with every occurrence of `p`, found from left to right without
/// overlap, replaced by `r`.
pub open spec fn replaced(s: Seq<char>, p: Seq<char>, r: Seq<char>) -> Seq<char>
    decreases s.len(),
{
    if s.len() == 0 {
        Seq::empty()
    } else if p.len() > 0 && starts_with(s, p) {
        r + replaced(s.subrange(p.len() as int, s.len() as int), p, r)
    } else {
        seq![s[0]] + replaced(s.drop_first(), p, r)
    }
}

pub open spec fn path_open() -> Seq<char> {
    "<path"@
}

pub open spec fn rect_open() -> Seq<char> {
    "<rect"@
}

/// What a `<path` opener becomes: stroke and fill in color `c`, no stroke width.
pub open spec fn path_tag(c: Seq<char>) -> Seq<char> {
    path_open() + " stroke=\""@ + c + "\" fill=\""@ + c + "\" stroke-width=\"0\""@
}

/// What a `<rect` opener becomes: fill in color `c`.
pub open spec fn rect_tag(c: Seq<char>) -> Seq<char> {
    rect_open() + " fill=\""@ + c + "\""@
}

/// The SVG text `t` colored with `c`: paths first, then rectangles.
pub open spec fn colorized(t: Seq<char>, c: Seq<char>) -> Seq<char> {
    replaced(replaced(t, path_open(), path_tag(c)), rect_open(), rect_tag(c))
}

/// Whether no character of `s` is `<`.
pub open spec fn lacks_lt(s: Seq<char>) -> bool {
    forall|i: int| 0 <= i < s.len() ==> s[i] != '<'
}

/// How many `<` characters `s` holds: the number of tags it opens.
pub open spec fn count_lt(s: Seq<char>) -> nat
    decreases s.len(),
{
    if s.len() == 0 {
        0
    } else {
        (if s[0] == '<' { 1nat } else { 0nat }) + count_lt(s.drop_first())
    }
}

/// At how many positions of `s` an occurrence of `q` begins.
pub open spec fn occurrences(s: Seq<char>, q: Seq<char>) -> nat
    decreases s.len(),
{
    if s.len() == 0 {
        0
    } else {
        (if starts_with(s, q) { 1nat } else { 0nat }) + occurrences(s.drop_first(), q)
    }
}

/// A token that opens a tag: `<`, then text without a further `<`.
pub open spec fn is_opener(q: Seq<char>) -> bool {
    q.len() > 0 && q[0] == '<' && lacks_lt(q.drop_first())
}

proof fn lemma_count_lt_concat(a: Seq<char>, b: Seq<char>)
    ensures
        count_lt(a + b) == count_lt(a) + count_lt(b),
    decreases a.len(),
{
    if a.len() == 0 {
        assert(a + b =~= b);
    } else {
        assert((a + b).drop_first() =~= a.drop_first() + b);
        lemma_count_lt_concat(a.drop_first(), b);
    }
}

proof fn lemma_count_lt_none(a: Seq<char>)
    requires
        lacks_lt(a),
    ensures
        count_lt(a) == 0,
    decreases a.len(),
{
    if a.len() > 0 {
        lemma_count_lt_none(a.drop_first());
    }
}

/// Text without `<` in front of `b` adds no occurrence of a tag opener.
proof fn lemma_occurrences_skip(a: Seq<char>, b: Seq<char>, q: Seq<char>)
    requires
        lacks_lt(a),
        q.len() > 0,
        q[0] == '<',
    ensures
        occurrences(a + b, q) == occurrences(b, q),
    decreases a.len(),
{
    if a.len() == 0 {
        assert(a + b =~= b);
    } else {
        assert((a + b)[0] == a[0]);
        assert((a + b).drop_first() =~= a.drop_first() + b);
        lemma_occurrences_skip(a.drop_first(), b, q);
    }
}

/// Replacing openers by text that starts with `<` leaves the prefixes
/// without `<` of the text as they were.
proof fn lemma_replaced_prefix(t: Seq<char>, p: Seq<char>, r: Seq<char>, w: Seq<char>)
    requires
        p.len() > 0,
        p[0] == '<',
        r.len() > 0,
        r[0] == '<',
        lacks_lt(w),
    ensures
        starts_with(replaced(t, p, r), w) == starts_with(t, w),
    decreases t.len(),
{
    let out = replaced(t, p, r);
    if w.len() == 0 {
        assert(out.subrange(0, 0) =~= w);
        assert(t.subrange(0, 0) =~= w);
    } else if t.len() == 0 {
    } else if starts_with(t, p) {
        assert(t[0] == t.subrange(0, p.len() as int)[0]);
        assert(out[0] == r[0]);
        if starts_with(out, w) {
            assert(out.subrange(0, w.len() as int)[0] == w[0]);
        }
        if starts_with(t, w) {
            assert(t.subrange(0, w.len() as int)[0] == w[0]);
        }
    } else {
        let tail = t.drop_first();
        let rest = replaced(tail, p, r);
        assert(out == seq![t[0]] + rest);
        lemma_replaced_prefix(tail, p, r, w.drop_first());
        if starts_with(out, w) {
            assert(out.subrange(0, w.len() as int)[0] == w[0]);
            assert(rest.subrange(0, w.len() - 1) =~= w.drop_first()) by {
                assert forall|k: int| 0 <= k < w.len() - 1 implies rest.subrange(
                    0,
                    w.len() - 1,
                )[k] == w.drop_first()[k] by {
                    assert(out.subrange(0, w.len() as int)[k + 1] == w[k + 1]);
                }
            }
            assert(t.subrange(0, w.len() as int) =~= w) by {
                assert forall|k: int| 0 <= k < w.len() implies t.subrange(0, w.len() as int)[k]
                    == w[k] by {
                    if k > 0 {
                        assert(tail.subrange(0, w.len() - 1)[k - 1] == w.drop_first()[k - 1]);
                    }
                }
            }
        }
        if starts_with(t, w) {
            assert(t.subrange(0, w.len() as int)[0] == w[0]);
            assert(tail.subrange(0, w.len() - 1) =~= w.drop_first()) by {
                assert forall|k: int| 0 <= k < w.len() - 1 implies tail.subrange(
                    0,
                    w.len() - 1,
                )[k] == w.drop_first()[k] by {
                    assert(t.subrange(0, w.len() as int)[k + 1] == w[k + 1]);
                }
            }
            assert(out.subrange(0, w.len() as int) =~= w) by {
                assert forall|k: int| 0 <= k < w.len() implies out.subrange(0, w.len() as int)[k]
                    == w[k] by {
                    if k > 0 {
                        assert(rest.subrange(0, w.len() - 1)[k - 1] == w.drop_first()[k - 1]);
                    }
                }
            }
        }
    }
}

proof fn lemma_starts_with_step(s: Seq<char>, q: Seq<char>)
    requires
        s.len() > 0,
        q.len() > 0,
    ensures
        starts_with(s, q) == (s[0] == q[0] && starts_with(s.drop_first(), q.drop_first())),
{
    if starts_with(s, q) {
        assert(s.subrange(0, q.len() as int)[0] == q[0]);
        assert(s.drop_first().subrange(0, q.len() - 1) =~= q.drop_first()) by {
            assert forall|k: int| 0 <= k < q.len() - 1 implies s.drop_first().subrange(
                0,
                q.len() - 1,
            )[k] == q.drop_first()[k] by {
                assert(s.subrange(0, q.len() as int)[k + 1] == q[k + 1]);
            }
        }
    }
    if s[0] == q[0] && starts_with(s.drop_first(), q.drop_first()) {
        assert(s.subrange(0, q.len() as int) =~= q) by {
            assert forall|k: int| 0 <= k < q.len() implies s.subrange(0, q.len() as int)[k]
                == q[k] by {
                if k > 0 {
                    assert(s.drop_first().subrange(0, q.len() - 1)[k - 1]
                        == q.drop_first()[k - 1]);
                }
            }
        }
    }
}

/// Where `p` stands at the front of `s`, `s` is `p` and the rest.
proof fn lemma_split_front(s: Seq<char>, p: Seq<char>)
    requires
        starts_with(s, p),
    ensures
        s =~= p + s.subrange(p.len() as int, s.len() as int),
{
    assert(s =~= s.subrange(0, p.len() as int) + s.subrange(p.len() as int, s.len() as int));
}

/// Replacing each opener `p` by `p + x` makes as many occurrences of
/// `p + x` as there were of `p`.
proof fn lemma_replaced_creates(s: Seq<char>, p: Seq<char>, x: Seq<char>)
    requires
        is_opener(p),
        lacks_lt(x),
    ensures
        occurrences(replaced(s, p, p + x), p + x) == occurrences(s, p),
    decreases s.len(),
{
    let r = p + x;
    let out = replaced(s, p, r);
    assert(r.drop_first() =~= p.drop_first() + x);
    assert(lacks_lt(r.drop_first()));
    if s.len() == 0 {
    } else if starts_with(s, p) {
        let s2 = s.subrange(p.len() as int, s.len() as int);
        let rest = replaced(s2, p, r);
        lemma_replaced_creates(s2, p, x);
        assert(out == r + rest);
        assert(out.subrange(0, r.len() as int) =~= r);
        assert(out.drop_first() =~= r.drop_first() + rest);
        lemma_occurrences_skip(r.drop_first(), rest, r);
        lemma_split_front(s, p);
        assert(s.drop_first() =~= p.drop_first() + s2);
        lemma_occurrences_skip(p.drop_first(), s2, p);
    } else {
        let tail = s.drop_first();
        assert(out == seq![s[0]] + replaced(tail, p, r));
        assert(out.drop_first() =~= replaced(tail, p, r));
        lemma_replaced_creates(tail, p, x);
        lemma_starts_with_step(out, r);
        lemma_starts_with_step(s, p);
        if s[0] == '<' {
            lemma_replaced_prefix(tail, p, r, r.drop_first());
            if starts_with(tail, r.drop_first()) {
                assert(tail.subrange(0, p.len() - 1) =~= p.drop_first()) by {
                    assert forall|k: int| 0 <= k < p.len() - 1 implies tail.subrange(
                        0,
                        p.len() - 1,
                    )[k] == p.drop_first()[k] by {
                        assert(tail.subrange(0, r.len() - 1)[k] == r.drop_first()[k]);
                    }
                }
            }
        }
    }
}

/// Replacing each opener `p` by `p + x` leaves the occurrences of another
/// opener `q`, one that differs from `p` at some position, as they were.
proof fn lemma_replaced_keeps(s: Seq<char>, p: Seq<char>, x: Seq<char>, q: Seq<char>, k: int)
    requires
        is_opener(p),
        lacks_lt(x),
        is_opener(q),
        0 <= k < p.len(),
        k < q.len(),
        p[k] != q[k],
    ensures
        occurrences(replaced(s, p, p + x), q) == occurrences(s, q),
    decreases s.len(),
{
    let r = p + x;
    let out = replaced(s, p, r);
    assert(r.drop_first() =~= p.drop_first() + x);
    assert(lacks_lt(r.drop_first()));
    if s.len() == 0 {
    } else if starts_with(s, p) {
        let s2 = s.subrange(p.len() as int, s.len() as int);
        let rest = replaced(s2, p, r);
        lemma_replaced_keeps(s2, p, x, q, k);
        assert(out == r + rest);
        if starts_with(out, q) {
            assert(out.subrange(0, q.len() as int)[k] == out[k]);
        }
        if starts_with(s, q) {
            assert(s.subrange(0, q.len() as int)[k] == s[k]);
            assert(s.subrange(0, p.len() as int)[k] == s[k]);
        }
        assert(out.drop_first() =~= r.drop_first() + rest);
        lemma_occurrences_skip(r.drop_first(), rest, q);
        lemma_split_front(s, p);
        assert(s.drop_first() =~= p.drop_first() + s2);
        lemma_occurrences_skip(p.drop_first(), s2, q);
    } else {
        let tail = s.drop_first();
        assert(out == seq![s[0]] + replaced(tail, p, r));
        assert(out.drop_first() =~= replaced(tail, p, r));
        lemma_replaced_keeps(tail, p, x, q, k);
        lemma_starts_with_step(out, q);
        lemma_starts_with_step(s, q);
        if s[0] == '<' {
            lemma_replaced_prefix(tail, p, r, q.drop_first());
        }
    }
}

/// Replacing each opener `p` by `p + x`, where `x` holds no `<`, leaves the
/// number of `<` as it was.
proof fn lemma_replaced_count_lt(s: Seq<char>, p: Seq<char>, x: Seq<char>)
    requires
        p.len() > 0,
        lacks_lt(x),
    ensures
        count_lt(replaced(s, p, p + x)) == count_lt(s),
    decreases s.len(),
{
    let r = p + x;
    if s.len() == 0 {
    } else if starts_with(s, p) {
        let s2 = s.subrange(p.len() as int, s.len() as int);
        lemma_replaced_count_lt(s2, p, x);
        lemma_count_lt_concat(r, replaced(s2, p, r));
        lemma_count_lt_concat(p, x);
        lemma_count_lt_none(x);
        lemma_split_front(s, p);
        lemma_count_lt_concat(p, s2);
        assert(replaced(s, p, r) == r + replaced(s2, p, r));
    } else {
        lemma_replaced_count_lt(s.drop_first(), p, x);
        lemma_count_lt_concat(seq![s[0]], replaced(s.drop_first(), p, r));
        let one = seq![s[0]];
        assert(one.drop_first() =~= Seq::<char>::empty());
        assert(count_lt(one.drop_first()) == 0);
        assert(count_lt(one) == count_lt(s) - count_lt(s.drop_first()));
    }
}

/// The attributes that `path_tag` adds after `<path`.
pub open spec fn path_attrs(c: Seq<char>) -> Seq<char> {
    " stroke=\""@ + c + "\" fill=\""@ + c + "\" stroke-width=\"0\""@
}

/// The attribute that `rect_tag` adds after `<rect`.
pub open spec fn rect_attrs(c: Seq<char>) -> Seq<char> {
    " fill=\""@ + c + "\""@
}

proof fn lemma_tag_parts(c: Seq<char>)
    requires
        lacks_lt(c),
    ensures
        path_tag(c) == path_open() + path_attrs(c),
        rect_tag(c) == rect_open() + rect_attrs(c),
        lacks_lt(path_attrs(c)),
        lacks_lt(rect_attrs(c)),
        is_opener(path_open()),
        is_opener(rect_open()),
        path_open().len() == 5,
        rect_open().len() == 5,
        path_tag(c).len() > 5,
        path_open()[1] == 'p',
        rect_open()[1] == 'r',
        path_tag(c)[1] == 'p',
        is_opener(path_tag(c)),
{
    reveal_strlit("<path");
    reveal_strlit("<rect");
    reveal_strlit(" stroke=\"");
    reveal_strlit("\" fill=\"");
    reveal_strlit("\" stroke-width=\"0\"");
    reveal_strlit(" fill=\"");
    reveal_strlit("\"");
    assert(path_tag(c) =~= path_open() + path_attrs(c));
    assert(rect_tag(c) =~= rect_open() + rect_attrs(c));
    assert(path_tag(c).drop_first() =~= path_open().drop_first() + path_attrs(c));
}

/// Coloring keeps the structure of the text: there are as many colored path
/// openers in the result as `<path` in `t`, as many colored rectangle openers
/// as `<rect` in `t`, and as many tags in all, where the color holds no `<`.
pub proof fn lemma_colorized_structure(t: Seq<char>, c: Seq<char>)
    requires
        lacks_lt(c),
    ensures
        occurrences(colorized(t, c), path_tag(c)) == occurrences(t, path_open()),
        occurrences(colorized(t, c), rect_tag(c)) == occurrences(t, rect_open()),
        count_lt(colorized(t, c)) == count_lt(t),
{
    lemma_tag_parts(c);
    let once = replaced(t, path_open(), path_tag(c));
    lemma_replaced_creates(t, path_open(), path_attrs(c));
    lemma_replaced_keeps(once, rect_open(), rect_attrs(c), path_tag(c), 1);
    lemma_replaced_keeps(t, path_open(), path_attrs(c), rect_open(), 1);
    lemma_replaced_creates(once, rect_open(), rect_attrs(c));
    lemma_replaced_count_lt(t, path_open(), path_attrs(c));
    lemma_replaced_count_lt(once, rect_open(), rect_attrs(c));
}

/// Coloring is a function of the text and the color alone: equal inputs
/// give equal results.
pub proof fn lemma_colorized_deterministic(t1: Seq<char>, c1: Seq<char>, t2: Seq<char>, c2: Seq<char>)
    requires
        t1 == t2,
        c1 == c2,
    ensures
        colorized(t1, c1) == colorized(t2, c2),
{
}

/// Relies on String::push: the character is appended at the end.
#[verifier::external_body]
fn push_char(s: &mut String, c: char)
    ensures
        final(s)@ == old(s)@.push(c),
{
    s.push(c);
}

/// The characters of `s`, in order.
fn chars_of(s: &str) -> (v: Vec<char>)
    ensures
        v@ == s@,
{
    let mut v: Vec<char> = Vec::new();
    for c in it: s.chars()
        invariant
            v@ == it.seq().take(it.index() as int),
    {
        v.push(c);
    }
    v
}

/// Whether `p` stands in `s` from position `i` on.
fn matches_at(s: &Vec<char>, p: &Vec<char>, i: usize) -> (b: bool)
    requires
        i <= s.len(),
    ensures
        b == starts_with(s@.subrange(i as int, s.len() as int), p@),
{
    if p.len() > s.len() - i {
        return false;
    }
    let mut j: usize = 0;
    while j < p.len()
        invariant
            j <= p.len(),
            i + p.len() <= s.len(),
            forall|k: int| 0 <= k < j ==> s@[i + k] == p@[k],
        decreases p.len() - j,
    {
        if s[i + j] != p[j] {
            assert(s@.subrange(i as int, s.len() as int).subrange(0, p.len() as int)[j as int]
                != p@[j as int]);
            return false;
        }
        j = j + 1;
    }
    assert(s@.subrange(i as int, s.len() as int).subrange(0, p.len() as int) =~= p@);
    true
}

/// `s` with every occurrence of `p` replaced by `r`, from left to right.
fn replace_chars(s: &Vec<char>, p: &Vec<char>, r: &str) -> (out: String)
    requires
        p.len() > 0,
    ensures
        out@ == replaced(s@, p@, r@),
{
    let mut out = String::new();
    let mut i: usize = 0;
    assert(s@.subrange(0, s.len() as int) =~= s@);
    assert(out@ + replaced(s@, p@, r@) =~= replaced(s@, p@, r@));
    while i < s.len()
        invariant
            i <= s.len(),
            p.len() > 0,
            out@ + replaced(s@.subrange(i as int, s.len() as int), p@, r@) == replaced(
                s@,
                p@,
                r@,
            ),
        decreases s.len() - i,
    {
        let ghost rest = s@.subrange(i as int, s.len() as int);
        if matches_at(s, p, i) {
            assert(rest.subrange(p.len() as int, rest.len() as int) =~= s@.subrange(
                (i + p.len()) as int,
                s.len() as int,
            ));
            assert(out@ + r@ + replaced(
                s@.subrange((i + p.len()) as int, s.len() as int),
                p@,
                r@,
            ) =~= out@ + replaced(rest, p@, r@));
            out.append(r);
            i = i + p.len();
        } else {
            assert(rest.drop_first() =~= s@.subrange(i + 1, s.len() as int));
            assert(out@.push(s@[i as int]) + replaced(s@.subrange(i + 1, s.len() as int), p@, r@)
                =~= out@ + replaced(rest, p@, r@));
            push_char(&mut out, s[i]);
            i = i + 1;
        }
    }
    assert(out@ + replaced(s@.subrange(i as int, s.len() as int), p@, r@) =~= out@);
    out
}

/// Gives every `<path` opener of `input` stroke and fill attributes in
/// `color` and a zero stroke width, then gives every `<rect` opener a fill
/// attribute in `color`. Every occurrence is replaced, wherever it stands.
pub fn process_svg(input: &str, color: &str) -> (r: String)
    ensures
        r@ == colorized(input@, color@),
{
    let mut path_rep = String::new();
    path_rep.append("<path");
    path_rep.append(" stroke=\"");
    path_rep.append(color);
    path_rep.append("\" fill=\"");
    path_rep.append(color);
    path_rep.append("\" stroke-width=\"0\"");
    let mut rect_rep = String::new();
    rect_rep.append("<rect");
    rect_rep.append(" fill=\"");
    rect_rep.append(color);
    rect_rep.append("\"");
    proof {
        assert(path_rep@ =~= path_tag(color@));
        assert(rect_rep@ =~= rect_tag(color@));
    }
    let text = chars_of(input);
    let path_pat = chars_of("<path");
    let rect_pat = chars_of("<rect");
    proof {
        reveal_strlit("<path");
        reveal_strlit("<rect");
    }
    let paths_done = replace_chars(&text, &path_pat, path_rep.as_str());
    let paths_text = chars_of(paths_done.as_str());
    replace_chars(&paths_text, &rect_pat, rect_rep.as_str())
}

} // verus!
