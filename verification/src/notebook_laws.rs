use vstd::prelude::*;

use crate::notebook::{fts_phrases, fts_query, lookup_after, AnswerView, StepView};
use crate::notebook::lookup_start;
use crate::text::{
    in_class, is_white, split_white, split_white_scan, trim_end_class, trim_start_class, trim_white,
    CharClass,
};

verus! {

// ---------------------------------------------------------------------------
// Search queries
// ---------------------------------------------------------------------------

/// Some character of `q` is not whitespace.
pub open spec fn has_non_white(q: Seq<char>) -> bool {
    exists|i: int| 0 <= i < q.len() && !is_white(#[trigger] q[i])
}

proof fn lemma_scan_words_non_white(q: Seq<char>)
    ensures
        (split_white_scan(q).0.len() > 0 || split_white_scan(q).1.len() > 0) ==> has_non_white(q),
    decreases q.len(),
{
    if q.len() > 0 {
        let qp = q.drop_last();
        lemma_scan_words_non_white(qp);
        if has_non_white(qp) {
            let i = choose|i: int| 0 <= i < qp.len() && !is_white(#[trigger] qp[i]);
            assert(q[i] == qp[i]);
        }
        if !is_white(q.last()) {
            assert(q[q.len() - 1] == q.last());
        }
    }
}

proof fn lemma_phrases_need_words(words: Seq<Seq<char>>)
    ensures
        fts_phrases(words).len() <= words.len(),
    decreases words.len(),
{
    if words.len() > 0 {
        lemma_phrases_need_words(words.drop_last());
    }
}

proof fn lemma_all_white_trims_away(q: Seq<char>)
    requires
        !has_non_white(q),
    ensures
        trim_start_class(q, CharClass::White).len() == 0,
    decreases q.len(),
{
    if q.len() > 0 {
        assert(is_white(q[0]));
        let t = q.drop_first();
        assert forall|i: int| 0 <= i < t.len() implies is_white(#[trigger] t[i]) by {
            assert(t[i] == q[i + 1]);
            assert(is_white(q[i + 1]));
        }
        lemma_all_white_trims_away(t);
    }
}

proof fn lemma_trim_start_keeps_non_white(q: Seq<char>)
    requires
        has_non_white(q),
    ensures
        trim_start_class(q, CharClass::White).len() > 0,
        !is_white(trim_start_class(q, CharClass::White)[0]),
    decreases q.len(),
{
    if is_white(q[0]) {
        let i = choose|i: int| 0 <= i < q.len() && !is_white(#[trigger] q[i]);
        let t = q.drop_first();
        assert(t[i - 1] == q[i]);
        lemma_trim_start_keeps_non_white(t);
    }
}

proof fn lemma_trim_end_keeps_first(t: Seq<char>, k: CharClass)
    requires
        t.len() > 0,
        !in_class(k, t[0]),
    ensures
        trim_end_class(t, k).len() > 0,
    decreases t.len(),
{
    if in_class(k, t.last()) {
        assert(t.len() > 1);
        assert(t.drop_last()[0] == t[0]);
        lemma_trim_end_keeps_first(t.drop_last(), k);
    }
}

proof fn lemma_trim_white_empty(q: Seq<char>)
    ensures
        trim_white(q).len() == 0 <==> !has_non_white(q),
{
    if has_non_white(q) {
        lemma_trim_start_keeps_non_white(q);
        lemma_trim_end_keeps_first(trim_start_class(q, CharClass::White), CharClass::White);
    } else {
        lemma_all_white_trims_away(q);
    }
}

/// A search text yields no match expression exactly when it is blank.
pub proof fn law_fts_query_absent_iff_blank(q: Seq<char>)
    ensures
        fts_query(q) is None <==> trim_white(q).len() == 0,
{
    lemma_trim_white_empty(q);
    lemma_phrases_need_words(split_white(q));
    lemma_scan_words_non_white(q);
}

// ---------------------------------------------------------------------------
// The default page lookup
// ---------------------------------------------------------------------------

/// An answer of the kind that a step asks for.
pub open spec fn answer_fits(step: StepView, a: AnswerView) -> bool {
    match step {
        StepView::ConfiguredExists(_) => a is Exists,
        StepView::ActiveExists(_) => a is Exists,
        StepView::ActivePage => a is Found,
        StepView::InboxPage => a is Found,
        StepView::FirstPage => a is Found,
        StepView::Finished(_) => true,
    }
}

/// Every answer is of the kind that the step before it asks for.
pub open spec fn answers_fit(configured: Option<Seq<char>>, answers: Seq<AnswerView>) -> bool
    decreases answers.len(),
{
    if answers.len() == 0 {
        true
    } else {
        answers_fit(configured, answers.drop_last()) && answer_fits(
            lookup_after(configured, answers.drop_last()),
            answers.last(),
        )
    }
}

/// The most queries that a step may still ask.
pub open spec fn lookup_rank(step: StepView) -> int {
    match step {
        StepView::ConfiguredExists(_) => 1,
        StepView::ActivePage => 4,
        StepView::ActiveExists(_) => 3,
        StepView::InboxPage => 2,
        StepView::FirstPage => 1,
        StepView::Finished(_) => 0,
    }
}

proof fn lemma_lookup_rank(configured: Option<Seq<char>>, answers: Seq<AnswerView>)
    requires
        answers_fit(configured, answers),
    ensures
        lookup_rank(lookup_after(configured, answers)) <= if answers.len() >= 4 {
            0
        } else {
            4 - answers.len()
        },
        lookup_rank(lookup_after(configured, answers)) == 0 ==> lookup_after(configured, answers) is Finished,
    decreases answers.len(),
{
    if answers.len() > 0 {
        lemma_lookup_rank(configured, answers.drop_last());
    }
}

/// The default page lookup asks at most four queries: after four answers
/// of the kinds it asked for, it has finished.
pub proof fn law_lookup_ends_within_four_answers(
    configured: Option<Seq<char>>,
    answers: Seq<AnswerView>,
)
    requires
        answers_fit(configured, answers),
        answers.len() >= 4,
    ensures
        lookup_after(configured, answers) is Finished,
{
    lemma_lookup_rank(configured, answers);
}

/// Once the lookup has finished, further answers leave its outcome as it
/// is.
pub proof fn law_lookup_outcome_is_final(
    configured: Option<Seq<char>>,
    answers: Seq<AnswerView>,
    more: AnswerView,
)
    requires
        lookup_after(configured, answers) is Finished,
    ensures
        lookup_after(configured, answers.push(more)) == lookup_after(configured, answers),
{
    assert(answers.push(more).drop_last() =~= answers);
}

proof fn lemma_finished_stays(configured: Option<Seq<char>>, s: Seq<AnswerView>, rest: Seq<AnswerView>)
    requires
        lookup_after(configured, s) is Finished,
    ensures
        lookup_after(configured, s + rest) == lookup_after(configured, s),
    decreases rest.len(),
{
    if rest.len() == 0 {
        assert(s + rest =~= s);
    } else {
        lemma_finished_stays(configured, s, rest.drop_last());
        assert((s + rest).drop_last() =~= s + rest.drop_last());
    }
}

/// Without a configured page, an active page that the database knows is
/// the default page, whatever is asked afterwards.
pub proof fn law_lookup_uses_existing_active_page(
    configured: Option<Seq<char>>,
    active: Seq<char>,
    rest: Seq<AnswerView>,
)
    requires
        configured is None || trim_white(configured->Some_0).len() == 0,
        trim_white(active).len() > 0,
    ensures
        lookup_after(
            configured,
            seq![AnswerView::Found(Some(active)), AnswerView::Exists(Ok(true))] + rest,
        ) == StepView::Finished(Ok::<Seq<char>, Seq<char>>(active)),
{
    let s = seq![AnswerView::Found(Some(active)), AnswerView::Exists(Ok(true))];
    assert(lookup_start(configured) == StepView::ActivePage);
    assert(s.drop_last().drop_last() =~= Seq::<AnswerView>::empty());
    assert(lookup_after(configured, Seq::<AnswerView>::empty()) == StepView::ActivePage);
    assert(s.drop_last().last() == AnswerView::Found(Some(active)));
    assert(lookup_after(configured, s.drop_last()) == StepView::ActiveExists(active));
    assert(s.last() == AnswerView::Exists(Ok::<bool, Seq<char>>(true)));
    lemma_finished_stays(configured, s, rest);
}

/// A configured page that the database knows is the default page, whatever
/// is asked afterwards.
pub proof fn law_lookup_uses_existing_configured_page(configured: Seq<char>, rest: Seq<AnswerView>)
    requires
        trim_white(configured).len() > 0,
    ensures
        lookup_after(Some(configured), seq![AnswerView::Exists(Ok(true))] + rest)
            == StepView::Finished(Ok::<Seq<char>, Seq<char>>(trim_white(configured))),
{
    let s = seq![AnswerView::Exists(Ok(true))];
    assert(s.drop_last() =~= Seq::<AnswerView>::empty());
    assert(lookup_after(Some(configured), Seq::<AnswerView>::empty()) == StepView::ConfiguredExists(
        trim_white(configured),
    ));
    assert(s.last() == AnswerView::Exists(Ok::<bool, Seq<char>>(true)));
    lemma_finished_stays(Some(configured), s, rest);
}

/// Without a configured page, when there is no usable active page (none,
/// or one the database does not know), the inbox page is the default page.
pub proof fn law_lookup_falls_back_to_inbox(
    configured: Option<Seq<char>>,
    missing_active: Seq<AnswerView>,
    inbox: Seq<char>,
    rest: Seq<AnswerView>,
)
    requires
        configured is None || trim_white(configured->Some_0).len() == 0,
        missing_active == seq![AnswerView::Found(None)] || exists|a: Seq<char>|
            trim_white(a).len() > 0 && missing_active == seq![
                AnswerView::Found(Some(a)),
                AnswerView::Exists(Ok(false)),
            ],
    ensures
        lookup_after(configured, missing_active + seq![AnswerView::Found(Some(inbox))] + rest)
            == StepView::Finished(Ok::<Seq<char>, Seq<char>>(inbox)),
{
    let s = missing_active + seq![AnswerView::Found(Some(inbox))];
    assert(lookup_start(configured) == StepView::ActivePage);
    if missing_active == seq![AnswerView::Found(None)] {
        assert(s.drop_last() =~= missing_active);
        assert(missing_active.drop_last() =~= Seq::<AnswerView>::empty());
        assert(lookup_after(configured, Seq::<AnswerView>::empty()) == StepView::ActivePage);
        assert(missing_active.last() == AnswerView::Found(None));
        assert(lookup_after(configured, missing_active) == StepView::InboxPage);
    } else {
        let a = choose|a: Seq<char>|
            trim_white(a).len() > 0 && missing_active == seq![
                AnswerView::Found(Some(a)),
                AnswerView::Exists(Ok(false)),
            ];
        assert(s.drop_last() =~= missing_active);
        assert(missing_active.drop_last().drop_last() =~= Seq::<AnswerView>::empty());
        assert(lookup_after(configured, Seq::<AnswerView>::empty()) == StepView::ActivePage);
        assert(missing_active.drop_last().last() == AnswerView::Found(Some(a)));
        assert(lookup_after(configured, missing_active.drop_last()) == StepView::ActiveExists(a));
        assert(missing_active.last() == AnswerView::Exists(Ok::<bool, Seq<char>>(false)));
        assert(lookup_after(configured, missing_active) == StepView::InboxPage);
    }
    assert(s.last() == AnswerView::Found(Some(inbox)));
    assert(s.last() == AnswerView::Found(Some(inbox)));
    lemma_finished_stays(configured, s, rest);
}

} // verus!
