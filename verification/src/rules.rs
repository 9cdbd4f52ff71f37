use vstd::prelude::*;

use crate::error::TailwindifyError;

verus! {

// ---------------------------------------------------------------------------
// The token grammar.
//
// Each rule matches a short utility-class token anywhere in raw text and
// rewrites it.  A rule is applied as a full-document pass that replaces every
// non-overlapping match, scanning left to right: at each position the rule
// either matches — consuming `len` characters and producing `body`, wrapped
// in the run's warn markers when `wrapped` holds — or the character is kept.
// The spec functions below say, per rule, exactly what matches at a position
// and what it produces.
// ---------------------------------------------------------------------------

/// True of an ASCII decimal digit.
pub open spec fn is_digit(c: char) -> bool {
    '0' <= c <= '9'
}

/// True of an ASCII hexadecimal digit.
pub open spec fn is_hex_digit(c: char) -> bool {
    is_digit(c) || ('A' <= c <= 'F') || ('a' <= c <= 'f')
}

/// True of a margin/padding property letter.
pub open spec fn is_mp(c: char) -> bool {
    c == 'm' || c == 'p'
}

/// True of a top/right/bottom/left direction letter.
pub open spec fn is_trbl(c: char) -> bool {
    c == 't' || c == 'r' || c == 'b' || c == 'l'
}

/// The end of the maximal run of decimal digits that starts at `i`.
pub open spec fn digits_end(s: Seq<char>, i: int) -> int
    decreases s.len() - i,
{
    if 0 <= i && i < s.len() && is_digit(s[i]) {
        digits_end(s, i + 1)
    } else {
        i
    }
}

/// The maximal digit run starting at `i` covers `[i, digits_end(s, i))`
/// and stops either at the end of `s` or at a non-digit.
pub proof fn lemma_digits_end(s: Seq<char>, i: int)
    requires
        0 <= i <= s.len(),
    ensures
        i <= digits_end(s, i) <= s.len(),
        forall|k: int| i <= k < digits_end(s, i) ==> is_digit(s[k]),
        digits_end(s, i) < s.len() ==> !is_digit(s[digits_end(s, i)]),
    decreases s.len() - i,
{
    if i < s.len() && is_digit(s[i]) {
        lemma_digits_end(s, i + 1);
    }
}

/// True when the literal `lit` occurs in `s` starting at position `i`.
pub open spec fn has_lit_at(s: Seq<char>, i: int, lit: Seq<char>) -> bool {
    &&& 0 <= i
    &&& i + lit.len() <= s.len()
    &&& s.subrange(i, i + lit.len()) == lit
}

/// True when `n` hexadecimal digits occur in `s` starting at position `i`.
pub open spec fn has_hex_run_at(s: Seq<char>, i: int, n: int) -> bool {
    &&& 0 <= i
    &&& i + n <= s.len()
    &&& forall|k: int| i <= k < i + n ==> is_hex_digit(#[trigger] s[k])
}

pub open spec fn lit_fs() -> Seq<char> {
    seq!['f', 's']
}

pub open spec fn lit_text() -> Seq<char> {
    seq!['t', 'e', 'x', 't', '-']
}

pub open spec fn lit_font_weight() -> Seq<char> {
    seq!['f', 'o', 'n', 't', '-', 'w', 'e', 'i', 'g', 'h', 't', '-']
}

pub open spec fn lit_font() -> Seq<char> {
    seq!['f', 'o', 'n', 't', '-']
}

pub open spec fn lit_lh() -> Seq<char> {
    seq!['l', 'h']
}

pub open spec fn lit_line_height() -> Seq<char> {
    seq!['l', 'i', 'n', 'e', '-', 'h', 'e', 'i', 'g', 'h', 't']
}

pub open spec fn lit_leading() -> Seq<char> {
    seq!['l', 'e', 'a', 'd', 'i', 'n', 'g', '-']
}

pub open spec fn lit_br() -> Seq<char> {
    seq!['b', 'r']
}

pub open spec fn lit_border_radius() -> Seq<char> {
    seq!['b', 'o', 'r', 'd', 'e', 'r', '-', 'r', 'a', 'd', 'i', 'u', 's', '-']
}

pub open spec fn lit_rounded() -> Seq<char> {
    seq!['r', 'o', 'u', 'n', 'd', 'e', 'd', '-']
}

pub open spec fn lit_opacity() -> Seq<char> {
    seq!['o', 'p', 'a', 'c', 'i', 't', 'y', '-']
}

pub open spec fn lit_text_hash() -> Seq<char> {
    seq!['t', 'e', 'x', 't', '-', '#']
}

pub open spec fn lit_grid_template_columns() -> Seq<char> {
    seq![
        'g', 'r', 'i', 'd', '-', 't', 'e', 'm', 'p', 'l', 'a', 't', 'e', '-', 'c', 'o', 'l', 'u',
        'm', 'n', 's', '-',
    ]
}

/// What one rule produces at one position: the match consumes `len`
/// characters of the input; `body` is the rewritten token, to be wrapped in
/// the run's warn markers exactly when `wrapped` holds.
pub struct SpecMatch {
    pub len: int,
    pub body: Seq<char>,
    pub wrapped: bool,
}

/// Margin/padding: `m` or `p`, a direction letter, digits, an optional
/// trailing `r`.  A dash is inserted before the digits; a trailing `r` marks
/// the rewrite as ambiguous.
pub open spec fn match_spacing_at(s: Seq<char>, i: int) -> Option<SpecMatch> {
    if 0 <= i && i + 2 < s.len() && is_mp(s[i]) && is_trbl(s[i + 1]) && is_digit(s[i + 2]) {
        let de = digits_end(s, i + 2);
        let has_r = de < s.len() && s[de] == 'r';
        let tail: Seq<char> = if has_r { seq!['r'] } else { Seq::empty() };
        Some(
            SpecMatch {
                len: (if has_r { de + 1 } else { de }) - i,
                body: seq![s[i], s[i + 1], '-'] + s.subrange(i + 2, de) + tail,
                wrapped: has_r,
            },
        )
    } else {
        None
    }
}

/// Font size: `fs`, an optional dash, digits, an optional trailing `r`.
/// Produces `text-` plus the digits; a trailing `r` is kept and marks the
/// rewrite as ambiguous.
pub open spec fn match_font_size_at(s: Seq<char>, i: int) -> Option<SpecMatch> {
    if has_lit_at(s, i, lit_fs()) {
        let d0 = if i + 2 < s.len() && is_digit(s[i + 2]) {
            i + 2
        } else if i + 3 < s.len() && s[i + 2] == '-' && is_digit(s[i + 3]) {
            i + 3
        } else {
            i
        };
        if d0 == i {
            None
        } else {
            let de = digits_end(s, d0);
            let has_r = de < s.len() && s[de] == 'r';
            let tail: Seq<char> = if has_r { seq!['r'] } else { Seq::empty() };
            Some(
                SpecMatch {
                    len: (if has_r { de + 1 } else { de }) - i,
                    body: lit_text() + s.subrange(d0, de) + tail,
                    wrapped: has_r,
                },
            )
        }
    } else {
        None
    }
}

/// Font weight: `font-weight-` plus digits becomes `font-` plus the digits;
/// never ambiguous.
pub open spec fn match_font_weight_at(s: Seq<char>, i: int) -> Option<SpecMatch> {
    if has_lit_at(s, i, lit_font_weight()) && i + 12 < s.len() && is_digit(s[i + 12]) {
        let de = digits_end(s, i + 12);
        Some(SpecMatch { len: de - i, body: lit_font() + s.subrange(i + 12, de), wrapped: false })
    } else {
        None
    }
}

/// The shared tail of the line-height and border-radius rules: after the
/// matched prefix ends at `p`, an optional dash, digits, and an optional
/// trailing unit `p` (percent) or `r` (ambiguous).  `out` is the produced
/// token's prefix.  `None` when no digits follow.
pub open spec fn match_unit_tail(s: Seq<char>, i: int, p: int, out: Seq<char>) -> Option<SpecMatch> {
    let d0 = if p < s.len() && is_digit(s[p]) {
        p
    } else if p + 1 < s.len() && s[p] == '-' && is_digit(s[p + 1]) {
        p + 1
    } else {
        i
    };
    if d0 == i {
        None
    } else {
        let de = digits_end(s, d0);
        let unit_r = de < s.len() && s[de] == 'r';
        let unit_p = de < s.len() && s[de] == 'p';
        let end = if unit_r || unit_p { de + 1 } else { de };
        let tail: Seq<char> = if unit_r {
            seq!['r']
        } else if unit_p {
            seq!['%']
        } else {
            Seq::empty()
        };
        Some(
            SpecMatch {
                len: end - i,
                body: out + s.subrange(d0, de) + tail,
                wrapped: unit_r,
            },
        )
    }
}

/// Line height: `lh` or `line-height`, an optional dash, digits, an optional
/// unit.  Produces `leading-` plus the digits, with `%` for unit `p`; unit
/// `r` is kept and marks the rewrite as ambiguous.
pub open spec fn match_line_height_at(s: Seq<char>, i: int) -> Option<SpecMatch> {
    if has_lit_at(s, i, lit_lh()) {
        match_unit_tail(s, i, i + 2, lit_leading())
    } else if has_lit_at(s, i, lit_line_height()) {
        match_unit_tail(s, i, i + 11, lit_leading())
    } else {
        None
    }
}

/// Border radius: `border-radius-` or `br`, an optional dash, digits, an
/// optional unit.  Produces `rounded-` plus the digits, with `%` for unit
/// `p`; unit `r` is kept and marks the rewrite as ambiguous.
pub open spec fn match_border_radius_at(s: Seq<char>, i: int) -> Option<SpecMatch> {
    if has_lit_at(s, i, lit_border_radius()) {
        match_unit_tail(s, i, i + 14, lit_rounded())
    } else if has_lit_at(s, i, lit_br()) {
        match_unit_tail(s, i, i + 2, lit_rounded())
    } else {
        None
    }
}

/// Opacity: `opacity-` plus digits is kept as it is, but every match is
/// ambiguous by policy and is wrapped.
pub open spec fn match_opacity_at(s: Seq<char>, i: int) -> Option<SpecMatch> {
    if has_lit_at(s, i, lit_opacity()) && i + 8 < s.len() && is_digit(s[i + 8]) {
        let de = digits_end(s, i + 8);
        Some(SpecMatch { len: de - i, body: lit_opacity() + s.subrange(i + 8, de), wrapped: true })
    } else {
        None
    }
}

/// Text color: `c`, an optional dash, then six (preferred) or three
/// hexadecimal digits.  Produces `text-#` plus the digits; never ambiguous.
pub open spec fn match_text_color_at(s: Seq<char>, i: int) -> Option<SpecMatch> {
    if 0 <= i && i < s.len() && s[i] == 'c' {
        let h0 = if i + 1 < s.len() && s[i + 1] == '-' {
            i + 2
        } else {
            i + 1
        };
        if has_hex_run_at(s, h0, 6) {
            Some(
                SpecMatch {
                    len: h0 + 6 - i,
                    body: lit_text_hash() + s.subrange(h0, h0 + 6),
                    wrapped: false,
                },
            )
        } else if has_hex_run_at(s, h0, 3) {
            Some(
                SpecMatch {
                    len: h0 + 3 - i,
                    body: lit_text_hash() + s.subrange(h0, h0 + 3),
                    wrapped: false,
                },
            )
        } else {
            None
        }
    } else {
        None
    }
}

/// Grid template columns: `grid-template-columns-` plus digits is kept as it
/// is, but every match is ambiguous by policy and is wrapped.
pub open spec fn match_grid_at(s: Seq<char>, i: int) -> Option<SpecMatch> {
    if has_lit_at(s, i, lit_grid_template_columns()) && i + 22 < s.len() && is_digit(s[i + 22]) {
        let de = digits_end(s, i + 22);
        Some(
            SpecMatch {
                len: de - i,
                body: lit_grid_template_columns() + s.subrange(i + 22, de),
                wrapped: true,
            },
        )
    } else {
        None
    }
}

/// The rule table's rule kinds, in no particular order; the table's order is
/// fixed by `standard_rule_kind`.
#[derive(Clone, Copy)]
pub enum RuleKind {
    Spacing,
    FontSize,
    FontWeight,
    LineHeight,
    BorderRadius,
    Opacity,
    TextColor,
    GridTemplateColumns,
}

/// What the rule of kind `k` matches at position `i` of `s`, and what the
/// match produces.
pub open spec fn match_at(k: RuleKind, s: Seq<char>, i: int) -> Option<SpecMatch> {
    match k {
        RuleKind::Spacing => match_spacing_at(s, i),
        RuleKind::FontSize => match_font_size_at(s, i),
        RuleKind::FontWeight => match_font_weight_at(s, i),
        RuleKind::LineHeight => match_line_height_at(s, i),
        RuleKind::BorderRadius => match_border_radius_at(s, i),
        RuleKind::Opacity => match_opacity_at(s, i),
        RuleKind::TextColor => match_text_color_at(s, i),
        RuleKind::GridTemplateColumns => match_grid_at(s, i),
    }
}

/// Every match consumes at least one character and stays inside `s`.
pub proof fn lemma_match_at_bounds(k: RuleKind, s: Seq<char>, i: int)
    ensures
        match match_at(k, s, i) {
            Some(m) => 0 <= i && 1 <= m.len && i + m.len <= s.len(),
            None => true,
        },
{
    if match_at(k, s, i) is Some {
        match k {
            RuleKind::Spacing => {
                lemma_digits_end(s, i + 2);
            },
            RuleKind::FontSize => {
                if i + 2 < s.len() && is_digit(s[i + 2]) {
                    lemma_digits_end(s, i + 2);
                } else {
                    lemma_digits_end(s, i + 3);
                }
            },
            RuleKind::FontWeight => {
                lemma_digits_end(s, i + 12);
            },
            RuleKind::LineHeight => {
                if has_lit_at(s, i, lit_lh()) {
                    lemma_unit_tail_bounds(s, i, i + 2, lit_leading());
                } else {
                    lemma_unit_tail_bounds(s, i, i + 11, lit_leading());
                }
            },
            RuleKind::BorderRadius => {
                if has_lit_at(s, i, lit_border_radius()) {
                    lemma_unit_tail_bounds(s, i, i + 14, lit_rounded());
                } else {
                    lemma_unit_tail_bounds(s, i, i + 2, lit_rounded());
                }
            },
            RuleKind::Opacity => {
                lemma_digits_end(s, i + 8);
            },
            RuleKind::TextColor => {
            },
            RuleKind::GridTemplateColumns => {
                lemma_digits_end(s, i + 22);
            },
        }
    }
}

/// Bounds for the shared line-height/border-radius tail.
proof fn lemma_unit_tail_bounds(s: Seq<char>, i: int, p: int, out: Seq<char>)
    requires
        0 <= i <= p <= s.len(),
    ensures
        match match_unit_tail(s, i, p, out) {
            Some(m) => p < i + m.len && i + m.len <= s.len(),
            None => true,
        },
{
    if p < s.len() && is_digit(s[p]) {
        lemma_digits_end(s, p);
    } else if p + 1 < s.len() && s[p] == '-' && is_digit(s[p + 1]) {
        lemma_digits_end(s, p + 1);
    }
}

// ---------------------------------------------------------------------------
// Executable matching.
// ---------------------------------------------------------------------------

/// Decides `is_digit`.
pub(crate) fn digit_char(c: char) -> (r: bool)
    ensures
        r == is_digit(c),
{
    '0' <= c && c <= '9'
}

/// Decides `is_hex_digit`.
pub(crate) fn hex_digit_char(c: char) -> (r: bool)
    ensures
        r == is_hex_digit(c),
{
    digit_char(c) || ('A' <= c && c <= 'F') || ('a' <= c && c <= 'f')
}

/// Finds the end of the maximal digit run starting at `i`.
pub(crate) fn digits_end_pos(s: &Vec<char>, i: usize) -> (j: usize)
    requires
        i <= s.len(),
    ensures
        j as int == digits_end(s@, i as int),
        i <= j <= s.len(),
{
    let mut j = i;
    while j < s.len() && digit_char(s[j])
        invariant
            i <= j <= s.len(),
            digits_end(s@, i as int) == digits_end(s@, j as int),
        decreases s.len() - j,
    {
        j += 1;
    }
    j
}

/// Decides `has_lit_at`.
pub(crate) fn has_lit_at_pos(s: &Vec<char>, i: usize, lit: &Vec<char>) -> (r: bool)
    requires
        i <= s.len(),
    ensures
        r == has_lit_at(s@, i as int, lit@),
{
    let n = s.len();
    if lit.len() > n - i {
        return false;
    }
    let mut k: usize = 0;
    while k < lit.len()
        invariant
            i + lit@.len() <= s@.len() <= usize::MAX,
            k <= lit@.len(),
            forall|t: int| 0 <= t < k ==> s@[i + t] == lit@[t],
        decreases lit.len() - k,
    {
        if s[i + k] != lit[k] {
            proof {
                assert(s@.subrange(i as int, i + lit@.len())[k as int] != lit@[k as int]);
            }
            return false;
        }
        k += 1;
    }
    proof {
        assert(s@.subrange(i as int, i + lit@.len()) =~= lit@);
    }
    true
}

/// Decides `has_hex_run_at`.
pub(crate) fn has_hex_run_at_pos(s: &Vec<char>, i: usize, n: usize) -> (r: bool)
    requires
        i <= s.len(),
    ensures
        r == has_hex_run_at(s@, i as int, n as int),
{
    if n > s.len() - i {
        return false;
    }
    let mut k: usize = 0;
    while k < n
        invariant
            i + n <= s@.len() <= usize::MAX,
            k <= n,
            forall|t: int| i <= t < i + k ==> is_hex_digit(#[trigger] s@[t]),
        decreases n - k,
    {
        if !hex_digit_char(s[i + k]) {
            return false;
        }
        k += 1;
    }
    true
}

/// Appends a copy of `src` to `out`.
pub(crate) fn append_copy(out: &mut Vec<char>, src: &Vec<char>)
    ensures
        final(out)@ == old(out)@ + src@,
{
    let mut k: usize = 0;
    while k < src.len()
        invariant
            k <= src@.len(),
            out@ == old(out)@ + src@.subrange(0, k as int),
        decreases src.len() - k,
    {
        out.push(src[k]);
        proof {
            assert(old(out)@ + src@.subrange(0, k as int) + seq![src@[k as int]] =~= old(out)@
                + src@.subrange(0, k + 1));
        }
        k += 1;
    }
    proof {
        assert(src@.subrange(0, src@.len() as int) =~= src@);
    }
}

/// Appends a copy of `s[a..b]` to `out`.
pub(crate) fn append_range(out: &mut Vec<char>, s: &Vec<char>, a: usize, b: usize)
    requires
        a <= b <= s.len(),
    ensures
        final(out)@ == old(out)@ + s@.subrange(a as int, b as int),
{
    let mut k = a;
    while k < b
        invariant
            a <= k <= b <= s@.len(),
            out@ == old(out)@ + s@.subrange(a as int, k as int),
        decreases b - k,
    {
        out.push(s[k]);
        proof {
            assert(old(out)@ + s@.subrange(a as int, k as int) + seq![s@[k as int]] =~= old(out)@
                + s@.subrange(a as int, k + 1));
        }
        k += 1;
    }
}

/// The literal fragments of the grammar, held as vectors so that the
/// matchers can run against them; built once per engine run.
pub(crate) struct LitTable {
    pub fs: Vec<char>,
    pub text: Vec<char>,
    pub font_weight: Vec<char>,
    pub font: Vec<char>,
    pub lh: Vec<char>,
    pub line_height: Vec<char>,
    pub leading: Vec<char>,
    pub br: Vec<char>,
    pub border_radius: Vec<char>,
    pub rounded: Vec<char>,
    pub opacity: Vec<char>,
    pub text_hash: Vec<char>,
    pub grid_template_columns: Vec<char>,
}

impl LitTable {
    /// Each field holds exactly its literal.
    pub(crate) open spec fn wf(&self) -> bool {
        &&& self.fs@ == lit_fs()
        &&& self.text@ == lit_text()
        &&& self.font_weight@ == lit_font_weight()
        &&& self.font@ == lit_font()
        &&& self.lh@ == lit_lh()
        &&& self.line_height@ == lit_line_height()
        &&& self.leading@ == lit_leading()
        &&& self.br@ == lit_br()
        &&& self.border_radius@ == lit_border_radius()
        &&& self.rounded@ == lit_rounded()
        &&& self.opacity@ == lit_opacity()
        &&& self.text_hash@ == lit_text_hash()
        &&& self.grid_template_columns@ == lit_grid_template_columns()
    }

    pub(crate) fn new() -> (t: LitTable)
        ensures
            t.wf(),
    {
        let t = LitTable {
            fs: vec!['f', 's'],
            text: vec!['t', 'e', 'x', 't', '-'],
            font_weight: vec!['f', 'o', 'n', 't', '-', 'w', 'e', 'i', 'g', 'h', 't', '-'],
            font: vec!['f', 'o', 'n', 't', '-'],
            lh: vec!['l', 'h'],
            line_height: vec!['l', 'i', 'n', 'e', '-', 'h', 'e', 'i', 'g', 'h', 't'],
            leading: vec!['l', 'e', 'a', 'd', 'i', 'n', 'g', '-'],
            br: vec!['b', 'r'],
            border_radius: vec![
                'b', 'o', 'r', 'd', 'e', 'r', '-', 'r', 'a', 'd', 'i', 'u', 's', '-',
            ],
            rounded: vec!['r', 'o', 'u', 'n', 'd', 'e', 'd', '-'],
            opacity: vec!['o', 'p', 'a', 'c', 'i', 't', 'y', '-'],
            text_hash: vec!['t', 'e', 'x', 't', '-', '#'],
            grid_template_columns: vec![
                'g', 'r', 'i', 'd', '-', 't', 'e', 'm', 'p', 'l', 'a', 't', 'e', '-', 'c', 'o',
                'l', 'u', 'm', 'n', 's', '-',
            ],
        };
        proof {
            assert(t.fs@ =~= lit_fs());
            assert(t.text@ =~= lit_text());
            assert(t.font_weight@ =~= lit_font_weight());
            assert(t.font@ =~= lit_font());
            assert(t.lh@ =~= lit_lh());
            assert(t.line_height@ =~= lit_line_height());
            assert(t.leading@ =~= lit_leading());
            assert(t.br@ =~= lit_br());
            assert(t.border_radius@ =~= lit_border_radius());
            assert(t.rounded@ =~= lit_rounded());
            assert(t.opacity@ =~= lit_opacity());
            assert(t.text_hash@ =~= lit_text_hash());
            assert(t.grid_template_columns@ =~= lit_grid_template_columns());
        }
        t
    }
}

/// What one rule produces at one position, executably: the analogue of
/// `SpecMatch` with the body materialized.
pub(crate) struct FoundMatch {
    pub len: usize,
    pub body: Vec<char>,
    pub wrapped: bool,
}

/// The executable match agrees with the given spec-level match.
pub(crate) open spec fn found_matches(mo: Option<FoundMatch>, sm: Option<SpecMatch>) -> bool {
    match (mo, sm) {
        (Some(e), Some(m)) => e.len as int == m.len && e.body@ == m.body && e.wrapped
            == m.wrapped,
        (None, None) => true,
        _ => false,
    }
}

/// Matches the margin/padding rule at `i`.
fn match_spacing_pos(s: &Vec<char>, i: usize) -> (mo: Option<FoundMatch>)
    requires
        i < s.len(),
    ensures
        found_matches(mo, match_spacing_at(s@, i as int)),
{
    let n = s.len();
    if n - i > 2 && (s[i] == 'm' || s[i] == 'p') && (s[i + 1] == 't' || s[i + 1] == 'r' || s[i + 1]
        == 'b' || s[i + 1] == 'l') && digit_char(s[i + 2]) {
        let de = digits_end_pos(s, i + 2);
        let has_r = de < n && s[de] == 'r';
        let end = if has_r { de + 1 } else { de };
        let mut body: Vec<char> = Vec::new();
        body.push(s[i]);
        body.push(s[i + 1]);
        body.push('-');
        append_range(&mut body, s, i + 2, de);
        if has_r {
            body.push('r');
        }
        proof {
            let m = match_spacing_at(s@, i as int).unwrap();
            assert(body@ =~= m.body);
        }
        Some(FoundMatch { len: end - i, body, wrapped: has_r })
    } else {
        None
    }
}

/// Matches the font-size rule at `i`.
fn match_font_size_pos(s: &Vec<char>, i: usize, lits: &LitTable) -> (mo: Option<FoundMatch>)
    requires
        i < s.len(),
        lits.wf(),
    ensures
        found_matches(mo, match_font_size_at(s@, i as int)),
{
    let n = s.len();
    if !has_lit_at_pos(s, i, &lits.fs) {
        return None;
    }
    let d0 = if n - i > 2 && digit_char(s[i + 2]) {
        i + 2
    } else if n - i > 3 && s[i + 2] == '-' && digit_char(s[i + 3]) {
        i + 3
    } else {
        i
    };
    if d0 == i {
        return None;
    }
    let de = digits_end_pos(s, d0);
    let has_r = de < n && s[de] == 'r';
    let end = if has_r { de + 1 } else { de };
    let mut body: Vec<char> = Vec::new();
    append_copy(&mut body, &lits.text);
    append_range(&mut body, s, d0, de);
    if has_r {
        body.push('r');
    }
    proof {
        let m = match_font_size_at(s@, i as int).unwrap();
        assert(body@ =~= m.body);
    }
    Some(FoundMatch { len: end - i, body, wrapped: has_r })
}

/// Matches the font-weight rule at `i`.
fn match_font_weight_pos(s: &Vec<char>, i: usize, lits: &LitTable) -> (mo: Option<FoundMatch>)
    requires
        i < s.len(),
        lits.wf(),
    ensures
        found_matches(mo, match_font_weight_at(s@, i as int)),
{
    let n = s.len();
    if has_lit_at_pos(s, i, &lits.font_weight) && n - i > 12 && digit_char(s[i + 12]) {
        let de = digits_end_pos(s, i + 12);
        let mut body: Vec<char> = Vec::new();
        append_copy(&mut body, &lits.font);
        append_range(&mut body, s, i + 12, de);
        proof {
            let m = match_font_weight_at(s@, i as int).unwrap();
            assert(body@ =~= m.body);
        }
        Some(FoundMatch { len: de - i, body, wrapped: false })
    } else {
        None
    }
}

/// Matches the shared line-height/border-radius tail after a prefix that
/// ends at `p`, producing a token that starts with `out`.
fn match_unit_tail_pos(s: &Vec<char>, i: usize, p: usize, out: &Vec<char>) -> (mo: Option<
    FoundMatch,
>)
    requires
        i < p <= s.len(),
    ensures
        found_matches(mo, match_unit_tail(s@, i as int, p as int, out@)),
{
    let n = s.len();
    let d0 = if p < n && digit_char(s[p]) {
        p
    } else if n - p > 1 && s[p] == '-' && digit_char(s[p + 1]) {
        p + 1
    } else {
        i
    };
    if d0 == i {
        return None;
    }
    let de = digits_end_pos(s, d0);
    let unit_r = de < n && s[de] == 'r';
    let unit_p = de < n && s[de] == 'p';
    let end = if unit_r || unit_p { de + 1 } else { de };
    let mut body: Vec<char> = Vec::new();
    append_copy(&mut body, out);
    append_range(&mut body, s, d0, de);
    if unit_r {
        body.push('r');
    } else if unit_p {
        body.push('%');
    }
    proof {
        let m = match_unit_tail(s@, i as int, p as int, out@).unwrap();
        assert(body@ =~= m.body);
    }
    Some(FoundMatch { len: end - i, body, wrapped: unit_r })
}

/// Matches the line-height rule at `i`.
fn match_line_height_pos(s: &Vec<char>, i: usize, lits: &LitTable) -> (mo: Option<FoundMatch>)
    requires
        i < s.len(),
        lits.wf(),
    ensures
        found_matches(mo, match_line_height_at(s@, i as int)),
{
    if has_lit_at_pos(s, i, &lits.lh) {
        match_unit_tail_pos(s, i, i + 2, &lits.leading)
    } else if has_lit_at_pos(s, i, &lits.line_height) {
        match_unit_tail_pos(s, i, i + 11, &lits.leading)
    } else {
        None
    }
}

/// Matches the border-radius rule at `i`.
fn match_border_radius_pos(s: &Vec<char>, i: usize, lits: &LitTable) -> (mo: Option<FoundMatch>)
    requires
        i < s.len(),
        lits.wf(),
    ensures
        found_matches(mo, match_border_radius_at(s@, i as int)),
{
    if has_lit_at_pos(s, i, &lits.border_radius) {
        match_unit_tail_pos(s, i, i + 14, &lits.rounded)
    } else if has_lit_at_pos(s, i, &lits.br) {
        match_unit_tail_pos(s, i, i + 2, &lits.rounded)
    } else {
        None
    }
}

/// Matches the opacity rule at `i`.
fn match_opacity_pos(s: &Vec<char>, i: usize, lits: &LitTable) -> (mo: Option<FoundMatch>)
    requires
        i < s.len(),
        lits.wf(),
    ensures
        found_matches(mo, match_opacity_at(s@, i as int)),
{
    let n = s.len();
    if has_lit_at_pos(s, i, &lits.opacity) && n - i > 8 && digit_char(s[i + 8]) {
        let de = digits_end_pos(s, i + 8);
        let mut body: Vec<char> = Vec::new();
        append_copy(&mut body, &lits.opacity);
        append_range(&mut body, s, i + 8, de);
        proof {
            let m = match_opacity_at(s@, i as int).unwrap();
            assert(body@ =~= m.body);
        }
        Some(FoundMatch { len: de - i, body, wrapped: true })
    } else {
        None
    }
}

/// Matches the text-color rule at `i`.
fn match_text_color_pos(s: &Vec<char>, i: usize, lits: &LitTable) -> (mo: Option<FoundMatch>)
    requires
        i < s.len(),
        lits.wf(),
    ensures
        found_matches(mo, match_text_color_at(s@, i as int)),
{
    let n = s.len();
    if s[i] != 'c' {
        return None;
    }
    let h0 = if n - i > 1 && s[i + 1] == '-' {
        i + 2
    } else {
        i + 1
    };
    let width = if has_hex_run_at_pos(s, h0, 6) {
        6
    } else if has_hex_run_at_pos(s, h0, 3) {
        3
    } else {
        0
    };
    if width == 0 {
        return None;
    }
    let mut body: Vec<char> = Vec::new();
    append_copy(&mut body, &lits.text_hash);
    append_range(&mut body, s, h0, h0 + width);
    proof {
        let m = match_text_color_at(s@, i as int).unwrap();
        assert(body@ =~= m.body);
    }
    Some(FoundMatch { len: h0 + width - i, body, wrapped: false })
}

/// Matches the grid-template-columns rule at `i`.
fn match_grid_pos(s: &Vec<char>, i: usize, lits: &LitTable) -> (mo: Option<FoundMatch>)
    requires
        i < s.len(),
        lits.wf(),
    ensures
        found_matches(mo, match_grid_at(s@, i as int)),
{
    let n = s.len();
    if has_lit_at_pos(s, i, &lits.grid_template_columns) && n - i > 22 && digit_char(s[i + 22]) {
        let de = digits_end_pos(s, i + 22);
        let mut body: Vec<char> = Vec::new();
        append_copy(&mut body, &lits.grid_template_columns);
        append_range(&mut body, s, i + 22, de);
        proof {
            let m = match_grid_at(s@, i as int).unwrap();
            assert(body@ =~= m.body);
        }
        Some(FoundMatch { len: de - i, body, wrapped: true })
    } else {
        None
    }
}

/// Matches the rule of kind `k` at position `i`.
pub(crate) fn match_at_pos(k: &RuleKind, s: &Vec<char>, i: usize, lits: &LitTable) -> (mo: Option<
    FoundMatch,
>)
    requires
        i < s.len(),
        lits.wf(),
    ensures
        found_matches(mo, match_at(*k, s@, i as int)),
{
    match k {
        RuleKind::Spacing => match_spacing_pos(s, i),
        RuleKind::FontSize => match_font_size_pos(s, i, lits),
        RuleKind::FontWeight => match_font_weight_pos(s, i, lits),
        RuleKind::LineHeight => match_line_height_pos(s, i, lits),
        RuleKind::BorderRadius => match_border_radius_pos(s, i, lits),
        RuleKind::Opacity => match_opacity_pos(s, i, lits),
        RuleKind::TextColor => match_text_color_pos(s, i, lits),
        RuleKind::GridTemplateColumns => match_grid_pos(s, i, lits),
    }
}

/// The run configuration that the rule table is built from: the two marker
/// strings that wrap every rewrite flagged for manual review.
pub struct RunConfig {
    pub warn_prefix: Vec<char>,
    pub warn_suffix: Vec<char>,
}

/// One entry of the rule table: a rule kind together with the warn markers
/// the rule's handler captured when the table was built.  Entries are never
/// mutated after construction; workers share the table read-only.
pub struct TransformReg {
    pub kind: RuleKind,
    pub warn_prefix: Vec<char>,
    pub warn_suffix: Vec<char>,
}

/// The fixed order of the rule table.  Order is semantically significant:
/// each rule's pass runs over the cumulative output of the passes before it.
pub open spec fn standard_rule_kind(j: int) -> RuleKind {
    if j == 0 {
        RuleKind::Spacing
    } else if j == 1 {
        RuleKind::FontSize
    } else if j == 2 {
        RuleKind::FontWeight
    } else if j == 3 {
        RuleKind::LineHeight
    } else if j == 4 {
        RuleKind::BorderRadius
    } else if j == 5 {
        RuleKind::Opacity
    } else if j == 6 {
        RuleKind::TextColor
    } else {
        RuleKind::GridTemplateColumns
    }
}

/// A clone of a character vector is the same sequence of characters.
pub(crate) fn clone_chars(v: &Vec<char>) -> (r: Vec<char>)
    ensures
        r@ == v@,
{
    let r = v.clone();
    proof {
        assert(r@ =~= v@);
    }
    r
}

/// Builds the rule table from the run configuration: the eight rules in
/// their fixed order, each holding its own copy of the warn markers.  This
/// is the only place configuration is read; building the table cannot fail,
/// and the `Result` reports the fatal configuration error a malformed
/// pattern would be.
pub fn get_transform_reg_vec(arg: &RunConfig) -> (r: Result<Vec<TransformReg>, TailwindifyError>)
    ensures
        r is Ok,
        ({
            let rules = r->Ok_0;
            &&& rules@.len() == 8
            &&& forall|j: int|
                0 <= j < 8 ==> (#[trigger] rules@[j]).kind == standard_rule_kind(j)
                    && rules@[j].warn_prefix@ == arg.warn_prefix@ && rules@[j].warn_suffix@
                    == arg.warn_suffix@
        }),
{
    let mut rules: Vec<TransformReg> = Vec::new();
    let kinds: [RuleKind; 8] = [
        RuleKind::Spacing,
        RuleKind::FontSize,
        RuleKind::FontWeight,
        RuleKind::LineHeight,
        RuleKind::BorderRadius,
        RuleKind::Opacity,
        RuleKind::TextColor,
        RuleKind::GridTemplateColumns,
    ];
    let mut j: usize = 0;
    while j < 8
        invariant
            j <= 8,
            rules@.len() == j,
            kinds@.len() == 8,
            forall|t: int| 0 <= t < 8 ==> #[trigger] kinds@[t] == standard_rule_kind(t),
            forall|t: int|
                0 <= t < j ==> (#[trigger] rules@[t]).kind == standard_rule_kind(t)
                    && rules@[t].warn_prefix@ == arg.warn_prefix@ && rules@[t].warn_suffix@
                    == arg.warn_suffix@,
        decreases 8 - j,
    {
        rules.push(
            TransformReg {
                kind: kinds[j],
                warn_prefix: clone_chars(&arg.warn_prefix),
                warn_suffix: clone_chars(&arg.warn_suffix),
            },
        );
        j += 1;
    }
    Ok(rules)
}

} // verus!
