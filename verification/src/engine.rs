use vstd::prelude::*;

use crate::rules::{
    LitTable, RuleKind, SpecMatch, TransformReg, append_copy, clone_chars, lemma_match_at_bounds,
    match_at, match_at_pos,
};

verus! {

// ---------------------------------------------------------------------------
// The rule engine.
//
// One rule is applied as a full-document pass: scan the content left to
// right; where the rule matches, emit the replacement and continue after the
// matched characters; elsewhere keep the character.  The whole engine runs
// the rule table in order, each pass over the cumulative output of the
// passes before it, and reports whether any pass matched at all — that flag,
// not equality of input and output, decides whether the file is written.
// ---------------------------------------------------------------------------

/// What a match contributes to the output: its body, wrapped in the run's
/// warn markers exactly when the match is flagged as ambiguous.
pub open spec fn replacement_of(m: SpecMatch, pre: Seq<char>, suf: Seq<char>) -> Seq<char> {
    if m.wrapped {
        pre + m.body + suf
    } else {
        m.body
    }
}

/// The output of one rule's pass over `s`, from position `i` on.
pub open spec fn pass_from(k: RuleKind, pre: Seq<char>, suf: Seq<char>, s: Seq<char>, i: int) -> Seq<
    char,
>
    decreases s.len() - i,
    via pass_from_decreases
{
    if !(0 <= i < s.len()) {
        Seq::empty()
    } else {
        match match_at(k, s, i) {
            Some(m) => replacement_of(m, pre, suf) + pass_from(k, pre, suf, s, i + m.len),
            None => seq![s[i]] + pass_from(k, pre, suf, s, i + 1),
        }
    }
}

#[via_fn]
proof fn pass_from_decreases(k: RuleKind, pre: Seq<char>, suf: Seq<char>, s: Seq<char>, i: int) {
    lemma_match_at_bounds(k, s, i);
}

/// Whether one rule's pass over `s` matches anywhere at or after position `i`.
pub open spec fn pass_hit_from(k: RuleKind, s: Seq<char>, i: int) -> bool
    decreases s.len() - i,
    via pass_hit_from_decreases
{
    if !(0 <= i < s.len()) {
        false
    } else {
        match match_at(k, s, i) {
            Some(m) => true,
            None => pass_hit_from(k, s, i + 1),
        }
    }
}

#[via_fn]
proof fn pass_hit_from_decreases(k: RuleKind, s: Seq<char>, i: int) {
    lemma_match_at_bounds(k, s, i);
}

/// The output of one whole pass of the rule-table entry `r` over `s`.
pub open spec fn pass_output(r: TransformReg, s: Seq<char>) -> Seq<char> {
    pass_from(r.kind, r.warn_prefix@, r.warn_suffix@, s, 0)
}

/// Whether one whole pass of the rule-table entry `r` over `s` matches at all.
pub open spec fn pass_hit(r: TransformReg, s: Seq<char>) -> bool {
    pass_hit_from(r.kind, s, 0)
}

/// The output of running the rules in order, each pass over the cumulative
/// output of the passes before it.
pub open spec fn rules_output(rules: Seq<TransformReg>, s: Seq<char>) -> Seq<char>
    decreases rules.len(),
{
    if rules.len() == 0 {
        s
    } else {
        rules_output(rules.drop_first(), pass_output(rules[0], s))
    }
}

/// Whether any pass of the run matched in its own (cumulative) input.
pub open spec fn rules_hit(rules: Seq<TransformReg>, s: Seq<char>) -> bool
    decreases rules.len(),
{
    if rules.len() == 0 {
        false
    } else {
        pass_hit(rules[0], s) || rules_hit(rules.drop_first(), pass_output(rules[0], s))
    }
}

/// Runs one rule's pass over `s`: every non-overlapping match, found left to
/// right, is replaced; the second component reports whether the pass matched
/// anywhere.
pub(crate) fn apply_pass(r: &TransformReg, lits: &LitTable, s: &Vec<char>) -> (out: (Vec<char>, bool))
    requires
        lits.wf(),
    ensures
        out.0@ == pass_output(*r, s@),
        out.1 == pass_hit(*r, s@),
{
    let mut acc: Vec<char> = Vec::new();
    let mut hit = false;
    let mut i: usize = 0;
    while i < s.len()
        invariant
            i <= s.len(),
            lits.wf(),
            acc@ + pass_from(r.kind, r.warn_prefix@, r.warn_suffix@, s@, i as int) == pass_from(
                r.kind,
                r.warn_prefix@,
                r.warn_suffix@,
                s@,
                0,
            ),
            (hit || pass_hit_from(r.kind, s@, i as int)) == pass_hit_from(r.kind, s@, 0),
        decreases s.len() - i,
    {
        let ghost pre = r.warn_prefix@;
        let ghost suf = r.warn_suffix@;
        let ghost i0 = i as int;
        let ghost acc0 = acc@;
        match match_at_pos(&r.kind, s, i, lits) {
            Some(m) => {
                proof {
                    lemma_match_at_bounds(r.kind, s@, i0);
                }
                if m.wrapped {
                    append_copy(&mut acc, &r.warn_prefix);
                    append_copy(&mut acc, &m.body);
                    append_copy(&mut acc, &r.warn_suffix);
                } else {
                    append_copy(&mut acc, &m.body);
                }
                hit = true;
                i = i + m.len;
                proof {
                    let sm = match_at(r.kind, s@, i0).unwrap();
                    let rep = replacement_of(sm, pre, suf);
                    assert(acc@ =~= acc0 + rep);
                    assert(pass_from(r.kind, pre, suf, s@, i0) == rep + pass_from(
                        r.kind,
                        pre,
                        suf,
                        s@,
                        i0 + sm.len,
                    ));
                    assert(acc@ + pass_from(r.kind, pre, suf, s@, i as int) =~= acc0 + pass_from(
                        r.kind,
                        pre,
                        suf,
                        s@,
                        i0,
                    ));
                }
            },
            None => {
                acc.push(s[i]);
                i = i + 1;
                proof {
                    assert(pass_from(r.kind, pre, suf, s@, i0) == seq![s@[i0]] + pass_from(
                        r.kind,
                        pre,
                        suf,
                        s@,
                        i0 + 1,
                    ));
                    assert(acc@ + pass_from(r.kind, pre, suf, s@, i as int) =~= acc0 + pass_from(
                        r.kind,
                        pre,
                        suf,
                        s@,
                        i0,
                    ));
                }
            },
        }
    }
    (acc, hit)
}

/// Runs the whole rule table over `content`, in table order, each pass over
/// the cumulative output of the passes before it.  The second component
/// reports whether any pass matched — the original content is rewritten in
/// place exactly when it is true, even where the final output happens to
/// equal the input.
pub fn rewrite_content(rules: &Vec<TransformReg>, content: &Vec<char>) -> (out: (Vec<char>, bool))
    ensures
        out.0@ == rules_output(rules@, content@),
        out.1 == rules_hit(rules@, content@),
{
    let lits = LitTable::new();
    let mut cur: Vec<char> = clone_chars(content);
    let mut changed = false;
    let mut j: usize = 0;
    proof {
        assert(rules@.subrange(0, rules@.len() as int) =~= rules@);
    }
    while j < rules.len()
        invariant
            j <= rules.len(),
            lits.wf(),
            rules_output(rules@, content@) == rules_output(
                rules@.subrange(j as int, rules@.len() as int),
                cur@,
            ),
            rules_hit(rules@, content@) == (changed || rules_hit(
                rules@.subrange(j as int, rules@.len() as int),
                cur@,
            )),
        decreases rules.len() - j,
    {
        let ghost j0 = j as int;
        let ghost cur0 = cur@;
        let (next, hit) = apply_pass(&rules[j], &lits, &cur);
        cur = next;
        changed = changed || hit;
        j += 1;
        proof {
            let all = rules@.len() as int;
            let tail = rules@.subrange(j0, all);
            assert(tail[0] == rules@[j0]);
            assert(tail.drop_first() =~= rules@.subrange(j0 + 1, all));
            assert(rules_output(tail, cur0) == rules_output(
                rules@.subrange(j0 + 1, all),
                pass_output(rules@[j0], cur0),
            ));
            assert(rules_hit(tail, cur0) == (pass_hit(rules@[j0], cur0) || rules_hit(
                rules@.subrange(j0 + 1, all),
                pass_output(rules@[j0], cur0),
            )));
        }
    }
    proof {
        assert(rules@.subrange(rules@.len() as int, rules@.len() as int) =~= Seq::<
            TransformReg,
        >::empty());
    }
    (cur, changed)
}

/// The compute core of processing one file: runs the rule table over the
/// content and decides whether a write is owed.  Returns the rewritten
/// content exactly when some pass matched — never when the content contains
/// no rule pattern — and `None` otherwise, in which case no write is to be
/// attempted.
pub fn transform_content(rules: &Vec<TransformReg>, content: &Vec<char>) -> (r: Option<Vec<char>>)
    ensures
        r is Some <==> rules_hit(rules@, content@),
        r matches Some(v) ==> v@ == rules_output(rules@, content@),
{
    let (out, changed) = rewrite_content(rules, content);
    if changed {
        Some(out)
    } else {
        None
    }
}

/// A pass that matches nowhere at or after `i` reproduces the rest of its
/// input exactly.
pub proof fn lemma_pass_no_match(k: RuleKind, pre: Seq<char>, suf: Seq<char>, s: Seq<char>, i: int)
    requires
        0 <= i <= s.len(),
        forall|j: int| i <= j < s.len() ==> match_at(k, s, j) is None,
    ensures
        pass_from(k, pre, suf, s, i) =~= s.subrange(i, s.len() as int),
        !pass_hit_from(k, s, i),
    decreases s.len() - i,
{
    if i < s.len() {
        lemma_pass_no_match(k, pre, suf, s, i + 1);
    }
}

/// The law that content free of the rule patterns passes through the engine
/// unchanged: if no rule of the table matches anywhere in `s`, the engine's
/// output is exactly `s`, and no pass reports a match — so no write is ever
/// attempted for such content.
pub proof fn lemma_unmatched_content_unchanged(rules: Seq<TransformReg>, s: Seq<char>)
    requires
        forall|r: int, j: int|
            0 <= r < rules.len() && 0 <= j < s.len() ==> #[trigger] match_at(
                rules[r].kind,
                s,
                j,
            ) is None,
    ensures
        rules_output(rules, s) == s,
        !rules_hit(rules, s),
    decreases rules.len(),
{
    if rules.len() > 0 {
        lemma_pass_no_match(rules[0].kind, rules[0].warn_prefix@, rules[0].warn_suffix@, s, 0);
        assert(s.subrange(0, s.len() as int) =~= s);
        assert(pass_output(rules[0], s) == s);
        assert(forall|r: int, j: int|
            0 <= r < rules.drop_first().len() && 0 <= j < s.len() ==> #[trigger] match_at(
                rules.drop_first()[r].kind,
                s,
                j,
            ) is None);
        lemma_unmatched_content_unchanged(rules.drop_first(), s);
    }
}

} // verus!
