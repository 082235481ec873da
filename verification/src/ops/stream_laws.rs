//! What holds of the sequence of registrations as a whole: the elements it
//! hands out are the pages' leaves, flattened in order, whatever the
//! follow-up fetches bring.

use super::get_package_versions::{
    as_items, initial_state, poll_spec, resolved_items, supply_spec, Registration,
    RegistrationLeaf, RegistrationPage, StreamState, StreamStep,
};
use crate::err::Error;
use vstd::prelude::*;

verus! {

/// The elements that the pages `pages` contribute, in order, when the
/// follow-up fetches are answered by `answers`, one answer for each page
/// that does not inline its leaves. A page's leaves all come before those of
/// the next page; a failed fetch contributes one error. Where the answers
/// run out, the elements end.
pub open spec fn flattened(
    pages: Seq<RegistrationPage>,
    answers: Seq<Result<Vec<RegistrationLeaf>, Error>>,
) -> Seq<Registration>
    decreases pages.len(),
{
    if pages.len() == 0 {
        Seq::empty()
    } else {
        match pages[0].items {
            Some(items) => as_items(items@) + flattened(pages.drop_first(), answers),
            None => if answers.len() == 0 {
                Seq::empty()
            } else {
                resolved_items(answers[0]) + flattened(pages.drop_first(), answers.drop_first())
            },
        }
    }
}

/// The elements that a sequence in state `st` has yet to hand out under the
/// answers `answers`: those that are ready, then those of the awaited page,
/// then those of the pages not yet looked at.
pub open spec fn remaining(
    st: StreamState,
    answers: Seq<Result<Vec<RegistrationLeaf>, Error>>,
) -> Seq<Registration> {
    st.ready + if st.awaiting is Some {
        if answers.len() == 0 {
            Seq::empty()
        } else {
            resolved_items(answers[0]) + flattened(st.pages, answers.drop_first())
        }
    } else {
        flattened(st.pages, answers)
    }
}

/// A page that inlines its leaves and has none.
pub open spec fn is_empty_inline(page: RegistrationPage) -> bool {
    page.items is Some && page.items->0@.len() == 0
}

/// The pull from state `st` asks for the document of the page at position
/// `k` of the pages not yet looked at: that page does not inline its leaves,
/// every page before it is inlined and empty, the URL asked for is the
/// page's `id`, and the pages after it are those left to look at.
pub open spec fn fetches_page(st: StreamState, k: int) -> bool {
    &&& 0 <= k < st.pages.len()
    &&& st.pages[k].items is None
    &&& poll_spec(st).1 == StreamStep::Fetch(st.pages[k].id)
    &&& poll_spec(st).0.pages == st.pages.skip(k + 1)
    &&& forall|j: int| 0 <= j < k ==> is_empty_inline(#[trigger] st.pages[j])
}

/// A fresh sequence has all the flattened elements of its pages to hand out.
pub proof fn fresh_stream_has_all(
    pages: Seq<RegistrationPage>,
    answers: Seq<Result<Vec<RegistrationLeaf>, Error>>,
)
    ensures
        remaining(initial_state(pages), answers) == flattened(pages, answers),
{
}

/// A pull that gives an element gives the first of those that remain, and
/// leaves the rest: the sequence hands out the flattened elements in order.
pub proof fn pull_gives_the_next_element(
    st: StreamState,
    answers: Seq<Result<Vec<RegistrationLeaf>, Error>>,
)
    requires
        poll_spec(st).1 is Item,
    ensures
        remaining(st, answers) == seq![poll_spec(st).1->Item_0] + remaining(
            poll_spec(st).0,
            answers,
        ),
    decreases st.pages.len(),
{
    if st.ready.len() == 0 {
        let items = st.pages[0].items->0;
        let inner = StreamState {
            pages: st.pages.drop_first(),
            ready: as_items(items@),
            awaiting: None,
        };
        pull_gives_the_next_element(inner, answers);
    }
}

/// A pull asks for a fetch only when no element is ready, and only for the
/// page whose turn it is. Until the answer is supplied every further pull
/// asks for the same fetch again, so no second page is asked for meanwhile.
/// Asking changes nothing about what remains; nor does supplying the answer.
pub proof fn pull_fetches_on_demand(
    st: StreamState,
    answers: Seq<Result<Vec<RegistrationLeaf>, Error>>,
)
    requires
        poll_spec(st).1 is Fetch,
    ensures
        st.ready.len() == 0,
        poll_spec(st).0.ready.len() == 0,
        poll_spec(st).0.awaiting == Some(poll_spec(st).1->Fetch_0),
        poll_spec(poll_spec(st).0) == (poll_spec(st).0, poll_spec(st).1),
        st.awaiting is None ==> exists|k: int| fetches_page(st, k),
        remaining(poll_spec(st).0, answers) == remaining(st, answers),
        answers.len() > 0 ==> remaining(
            supply_spec(poll_spec(st).0, answers[0]),
            answers.drop_first(),
        ) == remaining(st, answers),
    decreases st.pages.len(),
{
    if st.ready.len() == 0 && st.awaiting is None {
        match st.pages[0].items {
            Some(items) => {
                let inner = StreamState {
                    pages: st.pages.drop_first(),
                    ready: as_items(items@),
                    awaiting: None,
                };
                pull_fetches_on_demand(inner, answers);
                let k = choose|k: int| fetches_page(inner, k);
                assert(inner.pages.skip(k + 1) =~= st.pages.skip(k + 2));
                assert forall|j: int| 0 <= j < k + 1 implies is_empty_inline(
                    #[trigger] st.pages[j],
                ) by {
                    if j > 0 {
                        assert(inner.pages[j - 1] == st.pages[j]);
                    }
                }
                assert(fetches_page(st, k + 1));
            },
            None => {
                assert(fetches_page(st, 0));
            },
        }
    }
}

/// A pull that reports the end leaves nothing behind, and every later pull
/// reports the end again.
pub proof fn end_is_final(st: StreamState, answers: Seq<Result<Vec<RegistrationLeaf>, Error>>)
    requires
        poll_spec(st).1 is Done,
    ensures
        remaining(st, answers).len() == 0,
        poll_spec(poll_spec(st).0) == (poll_spec(st).0, StreamStep::Done),
    decreases st.pages.len(),
{
    if st.ready.len() == 0 && st.awaiting is None && st.pages.len() > 0 {
        let items = st.pages[0].items->0;
        let inner = StreamState {
            pages: st.pages.drop_first(),
            ready: as_items(items@),
            awaiting: None,
        };
        end_is_final(inner, answers);
    }
}

/// How far a sequence in state `st` is from its end, counted in pages: the
/// pages not yet looked at, and one more while a fetch is awaited.
pub open spec fn pages_ahead(st: StreamState) -> nat {
    st.pages.len() + if st.awaiting is Some {
        1nat
    } else {
        0nat
    }
}

/// Every pull that does not report the end brings the sequence nearer to it:
/// an element is taken from those ready or a page is used up, and a fetch is
/// asked for with nothing ready and the page already counted as awaited.
proof fn lemma_pull_makes_progress(st: StreamState)
    ensures
        poll_spec(st).1 is Item ==> pages_ahead(poll_spec(st).0) < pages_ahead(st) || (pages_ahead(
            poll_spec(st).0,
        ) == pages_ahead(st) && poll_spec(st).0.ready.len() < st.ready.len()),
        poll_spec(st).1 is Fetch ==> poll_spec(st).0.awaiting is Some && pages_ahead(
            poll_spec(st).0,
        ) <= pages_ahead(st),
    decreases st.pages.len(),
{
    if st.ready.len() == 0 && st.awaiting is None && st.pages.len() > 0 {
        if let Some(items) = st.pages[0].items {
            lemma_pull_makes_progress(
                StreamState {
                    pages: st.pages.drop_first(),
                    ready: as_items(items@),
                    awaiting: None,
                },
            );
        }
    }
}

/// Everything that a sequence in state `st` hands out when it is pulled to
/// its end and each fetch it asks for is answered by the next of `answers`.
/// Where the answers run out, so do the elements.
pub open spec fn pulled(
    st: StreamState,
    answers: Seq<Result<Vec<RegistrationLeaf>, Error>>,
) -> Seq<Registration>
    decreases pages_ahead(st), st.ready.len(),
    via pulled_terminates
{
    let (next, step) = poll_spec(st);
    match step {
        StreamStep::Item(item) => seq![item] + pulled(next, answers),
        StreamStep::Fetch(_) => if answers.len() == 0 {
            Seq::empty()
        } else {
            pulled(supply_spec(next, answers[0]), answers.drop_first())
        },
        StreamStep::Done => Seq::empty(),
    }
}

#[via_fn]
proof fn pulled_terminates(st: StreamState, answers: Seq<Result<Vec<RegistrationLeaf>, Error>>) {
    lemma_pull_makes_progress(st);
}

/// Pulling a sequence to its end hands out exactly the elements that remain,
/// in their order.
pub proof fn pulling_hands_out_what_remains(
    st: StreamState,
    answers: Seq<Result<Vec<RegistrationLeaf>, Error>>,
)
    ensures
        pulled(st, answers) == remaining(st, answers),
    decreases pages_ahead(st), st.ready.len(),
{
    lemma_pull_makes_progress(st);
    let (next, step) = poll_spec(st);
    match step {
        StreamStep::Item(item) => {
            pull_gives_the_next_element(st, answers);
            pulling_hands_out_what_remains(next, answers);
        },
        StreamStep::Fetch(_) => {
            pull_fetches_on_demand(st, answers);
            if answers.len() > 0 {
                pulling_hands_out_what_remains(
                    supply_spec(next, answers[0]),
                    answers.drop_first(),
                );
            }
        },
        StreamStep::Done => {
            end_is_final(st, answers);
        },
    }
}

/// A sequence over the pages of an index, pulled to its end, hands out the
/// leaves of all pages, flattened: page after page in the order of the
/// index, each page's leaves in the page's order, one error in place of each
/// page that failed.
pub proof fn stream_flattens_the_index(
    pages: Seq<RegistrationPage>,
    answers: Seq<Result<Vec<RegistrationLeaf>, Error>>,
)
    ensures
        pulled(initial_state(pages), answers) == flattened(pages, answers),
{
    pulling_hands_out_what_remains(initial_state(pages), answers);
    fresh_stream_has_all(pages, answers);
}

} // verus!
