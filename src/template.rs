//! The minimal LaTeX document that an expression is typeset in.
use vstd::prelude::*;
use vstd::string::*;

verus! {

pub open spec fn class_text() -> Seq<char> {
    "\\documentclass[12pt]{article}"@
}

/// Turns page numbering off.
pub open spec fn page_style_text() -> Seq<char> {
    "\\thispagestyle{empty}"@
}

/// The preamble, through the indentation of the `\begin{document}` line.
pub open spec fn head_text() -> Seq<char> {
    class_text() + gap_text() + page_style_text() + gap_text()
}

pub open spec fn begin_text() -> Seq<char> {
    "\\begin{document}"@
}

/// A line break and the indentation of the next line.
pub open spec fn gap_text() -> Seq<char> {
    "\n        "@
}

pub open spec fn math_open() -> Seq<char> {
    "$$ "@
}

pub open spec fn math_close() -> Seq<char> {
    " $$"@
}

pub open spec fn end_text() -> Seq<char> {
    "\\end{document}"@
}

/// The document that holds expression `e` in a display-math block.
pub open spec fn wrapped(e: Seq<char>) -> Seq<char> {
    head_text() + begin_text() + gap_text() + math_open() + e + math_close() + gap_text()
        + end_text()
}

/// Embeds `input` verbatim in a one-page article with no page number,
/// inside a `$$ ... $$` display-math block.
pub fn wrap_latex(input: &str) -> (r: String)
    ensures
        r@ == wrapped(input@),
{
    let mut r = String::new();
    r.append("\\documentclass[12pt]{article}");
    r.append("\n        ");
    r.append("\\thispagestyle{empty}");
    r.append("\n        ");
    r.append("\\begin{document}");
    r.append("\n        ");
    r.append("$$ ");
    r.append(input);
    r.append(" $$");
    r.append("\n        ");
    r.append("\\end{document}");
    r
}

/// Whether `w` stands in `d` from position `i` on.
pub open spec fn occurs_at(d: Seq<char>, w: Seq<char>, i: int) -> bool {
    0 <= i && i + w.len() <= d.len() && d.subrange(i, i + w.len()) == w
}

/// The wrapped document opens with the article class and the directive that
/// turns page numbering off, holds the expression verbatim between `$$ ` and
/// ` $$`, and that block stands between `\begin{document}` and the closing
/// `\end{document}`, which ends the text.
pub proof fn lemma_wrapped_document(e: Seq<char>)
    ensures
        occurs_at(wrapped(e), class_text(), 0),
        occurs_at(wrapped(e), page_style_text(), (class_text().len() + gap_text().len()) as int),
        exists|b: int, m: int, x: int|
            {
                &&& occurs_at(wrapped(e), begin_text(), b)
                &&& b + begin_text().len() <= m
                &&& occurs_at(wrapped(e), math_open() + e + math_close(), m)
                &&& m + math_open().len() + e.len() + math_close().len() <= x
                &&& occurs_at(wrapped(e), end_text(), x)
                &&& x + end_text().len() == wrapped(e).len()
            },
{
    let d = wrapped(e);
    let h = head_text();
    let block = math_open() + e + math_close();
    let b = h.len() as int;
    let m = b + begin_text().len();
    let m = m + gap_text().len();
    let x = m + block.len() + gap_text().len();
    assert(d =~= h + begin_text() + gap_text() + block + gap_text() + end_text());
    assert(d.subrange(0, class_text().len() as int) =~= class_text());
    let p = (class_text().len() + gap_text().len()) as int;
    assert(d.subrange(p, p + page_style_text().len()) =~= page_style_text());
    assert(d.subrange(b, b + begin_text().len()) =~= begin_text());
    assert(d.subrange(m, m + block.len()) =~= block);
    assert(d.subrange(x, x + end_text().len()) =~= end_text());
    assert(occurs_at(d, begin_text(), b));
    assert(occurs_at(d, block, m));
    assert(occurs_at(d, end_text(), x));
}

} // verus!
