//! The extraction rules: which candidates become records, which are passed
//! over, and which end the run.

use vstd::prelude::*;
use vstd::string::*;
use crate::error::ExtractError;
use crate::record::{copy_text, Candidate, CandidateView, ExtractedRecord, RecordView};

verus! {

/// Whether the page layout carries a rank marker in every item.
#[derive(Debug, Clone, Copy, PartialEq, Eq)]
pub enum RankPolicy {
    /// Every item must carry a rank marker; one without is a failure.
    Required,
    /// A rank is taken where it is found and not missed where it is not.
    Optional,
}

/// The title of the page's navigation control, which matches the same
/// structural query as the stories and is passed over.
pub const LOGIN_TITLE: &'static str = "login";

/// `LOGIN_TITLE`, as a sequence of characters.
pub open spec fn login_title() -> Seq<char> {
    LOGIN_TITLE@
}

/// The record that a candidate with all required fields stands for.
pub open spec fn record_of(c: CandidateView) -> RecordView
    recommends
        !missing(c.title),
        !missing(c.href),
{
    RecordView { rank: c.rank, title: c.title->0, url: c.href->0 }
}

/// A required text is missing where nothing was found for it, and also
/// where what was found holds no character.
pub open spec fn missing(text: Option<Seq<char>>) -> bool {
    text is None || text->0.len() == 0
}

/// The first required field that `c` lacks, in the order rank, title, link
/// target. The rank is required only under `RankPolicy::Required`, and only
/// to be there; the title and the link target must hold text.
pub open spec fn defect(c: CandidateView, policy: RankPolicy) -> Option<ExtractError> {
    if policy == RankPolicy::Required && c.rank is None {
        Some(ExtractError::MissingRank)
    } else if missing(c.title) {
        Some(ExtractError::MissingTitle)
    } else if missing(c.href) {
        Some(ExtractError::MissingHref)
    } else {
        None
    }
}

/// A complete candidate is passed over exactly when it is the login control.
pub open spec fn skipped(c: CandidateView) -> bool {
    c.title == Some(login_title())
}

/// The fate of one candidate: a failure, nothing, or a record.
pub open spec fn extract_one(c: CandidateView, policy: RankPolicy) -> Result<
    Option<RecordView>,
    ExtractError,
> {
    match defect(c, policy) {
        Some(e) => Err(e),
        None => if skipped(c) {
            Ok(None)
        } else {
            Ok(Some(record_of(c)))
        },
    }
}

/// The outcome of a whole run over `cs`: the failure of the first defective
/// candidate, or else the records of all candidates that are not passed
/// over, in the order of `cs`.
pub open spec fn extract_all(cs: Seq<CandidateView>, policy: RankPolicy) -> Result<
    Seq<RecordView>,
    ExtractError,
>
    decreases cs.len(),
{
    if cs.len() == 0 {
        Ok(Seq::empty())
    } else {
        match extract_all(cs.drop_last(), policy) {
            Err(e) => Err(e),
            Ok(records) => match extract_one(cs.last(), policy) {
                Err(e) => Err(e),
                Ok(None) => Ok(records),
                Ok(Some(r)) => Ok(records.push(r)),
            },
        }
    }
}

/// A failure within a prefix is the failure of every longer run.
pub proof fn lemma_failure_persists(cs: Seq<CandidateView>, policy: RankPolicy, n: int)
    requires
        0 <= n <= cs.len(),
        extract_all(cs.take(n), policy) is Err,
    ensures
        extract_all(cs, policy) == extract_all(cs.take(n), policy),
    decreases cs.len() - n,
{
    if n == cs.len() {
        assert(cs.take(n) =~= cs);
    } else {
        assert(cs.take(n + 1).drop_last() =~= cs.take(n));
        lemma_failure_persists(cs, policy, n + 1);
    }
}

/// The positions in `cs` of the candidates that are not passed over, ascending.
pub open spec fn kept_positions(cs: Seq<CandidateView>) -> Seq<int>
    decreases cs.len(),
{
    if cs.len() == 0 {
        Seq::empty()
    } else if skipped(cs.last()) {
        kept_positions(cs.drop_last())
    } else {
        kept_positions(cs.drop_last()).push(cs.len() - 1)
    }
}

/// The kept positions are exactly the positions of the candidates that are
/// not passed over, each once and in ascending order.
pub proof fn lemma_kept_positions(cs: Seq<CandidateView>)
    ensures
        forall|k: int|
            0 <= k < kept_positions(cs).len() ==> 0 <= #[trigger] kept_positions(cs)[k] < cs.len()
                && !skipped(cs[kept_positions(cs)[k]]),
        forall|j: int, k: int|
            0 <= j < k < kept_positions(cs).len() ==> kept_positions(cs)[j] < kept_positions(
                cs,
            )[k],
        forall|i: int|
            0 <= i < cs.len() && !skipped(#[trigger] cs[i]) ==> kept_positions(cs).contains(i),
    decreases cs.len(),
{
    if cs.len() > 0 {
        let front = cs.drop_last();
        lemma_kept_positions(front);
        let at = kept_positions(cs);
        let before = kept_positions(front);
        assert forall|i: int| 0 <= i < cs.len() && !skipped(#[trigger] cs[i]) implies at.contains(
            i,
        ) by {
            if i < cs.len() - 1 {
                assert(front[i] == cs[i]);
                let k = choose|k: int| 0 <= k < before.len() && before[k] == i;
                assert(at[k] == i);
            } else {
                assert(at[at.len() - 1] == i);
            }
        }
    }
}

/// A run succeeds exactly when no candidate in it is defective.
pub proof fn lemma_success_iff_no_defect(cs: Seq<CandidateView>, policy: RankPolicy)
    ensures
        extract_all(cs, policy) is Ok <==> forall|i: int|
            0 <= i < cs.len() ==> defect(#[trigger] cs[i], policy) is None,
    decreases cs.len(),
{
    if cs.len() > 0 {
        let front = cs.drop_last();
        lemma_success_iff_no_defect(front, policy);
        if extract_all(cs, policy) is Ok {
            assert forall|i: int| 0 <= i < cs.len() implies defect(
                #[trigger] cs[i],
                policy,
            ) is None by {
                if i < cs.len() - 1 {
                    assert(front[i] == cs[i]);
                }
            }
        } else if extract_all(front, policy) is Ok {
            assert(defect(cs[cs.len() - 1], policy) is Some);
        } else {
            let i = choose|i: int| 0 <= i < front.len() && !(defect(
                #[trigger] front[i],
                policy,
            ) is None);
            assert(cs[i] == front[i]);
        }
    }
}

/// A failed run reports the defect of the first defective candidate.
pub proof fn lemma_failure_is_first_defect(cs: Seq<CandidateView>, policy: RankPolicy) -> (at: int)
    requires
        extract_all(cs, policy) is Err,
    ensures
        0 <= at < cs.len(),
        defect(cs[at], policy) == Some(extract_all(cs, policy)->Err_0),
        forall|j: int| 0 <= j < at ==> defect(#[trigger] cs[j], policy) is None,
    decreases cs.len(),
{
    let front = cs.drop_last();
    if extract_all(front, policy) is Err {
        let at = lemma_failure_is_first_defect(front, policy);
        assert(front[at] == cs[at]);
        assert forall|j: int| 0 <= j < at implies defect(#[trigger] cs[j], policy) is None by {
            assert(front[j] == cs[j]);
        }
        at
    } else {
        lemma_success_iff_no_defect(front, policy);
        assert forall|j: int| 0 <= j < cs.len() - 1 implies defect(
            #[trigger] cs[j],
            policy,
        ) is None by {
            assert(front[j] == cs[j]);
        }
        cs.len() - 1
    }
}

/// The records that a run yields: those of `extract_all` where it succeeds,
/// none where it fails.
pub open spec fn yielded(cs: Seq<CandidateView>, policy: RankPolicy) -> Seq<RecordView> {
    match extract_all(cs, policy) {
        Ok(records) => records,
        Err(_) => Seq::empty(),
    }
}

/// Records keep the order of their candidates: a successful run yields one
/// record for each candidate that is not passed over, and the record at
/// place `k` stands for the candidate at the `k`-th kept position.
pub proof fn lemma_records_keep_order(cs: Seq<CandidateView>, policy: RankPolicy)
    ensures
        extract_all(cs, policy) is Ok ==> yielded(cs, policy).len() == kept_positions(cs).len(),
        forall|k: int|
            0 <= k < yielded(cs, policy).len() ==> #[trigger] yielded(cs, policy)[k] == record_of(
                cs[kept_positions(cs)[k]],
            ),
    decreases cs.len(),
{
    if cs.len() > 0 && extract_all(cs, policy) is Ok {
        let front = cs.drop_last();
        lemma_records_keep_order(front, policy);
        lemma_kept_positions(front);
        assert forall|k: int| 0 <= k < yielded(cs, policy).len() implies #[trigger] yielded(
            cs,
            policy,
        )[k] == record_of(cs[kept_positions(cs)[k]]) by {
            if k < kept_positions(front).len() {
                assert(yielded(front, policy)[k] == record_of(front[kept_positions(front)[k]]));
                assert(front[kept_positions(front)[k]] == cs[kept_positions(front)[k]]);
            }
        }
    }
}

/// No record that a run yields bears the title of the login control,
/// wherever in the run a candidate with that title stands.
pub proof fn lemma_no_login_record(cs: Seq<CandidateView>, policy: RankPolicy)
    ensures
        forall|k: int|
            0 <= k < yielded(cs, policy).len() ==> (#[trigger] yielded(cs, policy)[k]).title
                != login_title(),
{
    lemma_records_keep_order(cs, policy);
    lemma_kept_positions(cs);
    lemma_success_iff_no_defect(cs, policy);
    assert forall|k: int| 0 <= k < yielded(cs, policy).len() implies (#[trigger] yielded(
        cs,
        policy,
    )[k]).title != login_title() by {
        let i = kept_positions(cs)[k];
        assert(defect(cs[i], policy) is None);
        assert(!skipped(cs[i]));
    }
}

/// Every record that a run yields takes its title and its link target from
/// fields that its candidate has, and a run in which any candidate lacks a
/// title or a link target fails and yields nothing.
pub proof fn lemma_required_fields_present(cs: Seq<CandidateView>, policy: RankPolicy)
    ensures
        forall|k: int|
            0 <= k < yielded(cs, policy).len() ==> {
                let c = cs[kept_positions(cs)[k]];
                let r = #[trigger] yielded(cs, policy)[k];
                c.title == Some(r.title) && c.href == Some(r.url) && c.rank == r.rank
            },
        forall|i: int|
            0 <= i < cs.len() && (missing((#[trigger] cs[i]).title) || missing(cs[i].href))
                ==> extract_all(cs, policy) is Err && yielded(cs, policy).len() == 0,
{
    lemma_success_iff_no_defect(cs, policy);
    lemma_records_keep_order(cs, policy);
    lemma_kept_positions(cs);
    assert forall|k: int| 0 <= k < yielded(cs, policy).len() implies {
        let c = cs[kept_positions(cs)[k]];
        let r = #[trigger] yielded(cs, policy)[k];
        c.title == Some(r.title) && c.href == Some(r.url) && c.rank == r.rank
    } by {
        assert(defect(cs[kept_positions(cs)[k]], policy) is None);
    }
    assert forall|i: int|
        0 <= i < cs.len() && (missing((#[trigger] cs[i]).title) || missing(
            cs[i].href,
        )) implies extract_all(cs, policy) is Err && yielded(cs, policy).len() == 0 by {
        assert(defect(cs[i], policy) is Some);
    }
}

/// Every record that a run yields has a non-empty title and a non-empty
/// link target.
pub proof fn lemma_records_nonempty(cs: Seq<CandidateView>, policy: RankPolicy)
    ensures
        forall|k: int|
            0 <= k < yielded(cs, policy).len() ==> (#[trigger] yielded(cs, policy)[k]).title.len()
                > 0 && yielded(cs, policy)[k].url.len() > 0,
{
    lemma_required_fields_present(cs, policy);
    lemma_records_keep_order(cs, policy);
    lemma_success_iff_no_defect(cs, policy);
    lemma_kept_positions(cs);
    assert forall|k: int| 0 <= k < yielded(cs, policy).len() implies (#[trigger] yielded(
        cs,
        policy,
    )[k]).title.len() > 0 && yielded(cs, policy)[k].url.len() > 0 by {
        let at = kept_positions(cs)[k];
        assert(defect(cs[at], policy) is None);
    }
}

/// Where a run holds one candidate that lacks its link target and no other
/// defect, the run fails with `MissingHref` and yields nothing, wherever in
/// the run that candidate stands.
pub proof fn lemma_missing_href_ends_run(cs: Seq<CandidateView>, policy: RankPolicy, at: int)
    requires
        0 <= at < cs.len(),
        defect(cs[at], policy) == Some(ExtractError::MissingHref),
        forall|i: int| 0 <= i < cs.len() && i != at ==> defect(#[trigger] cs[i], policy) is None,
    ensures
        extract_all(cs, policy) == Err::<Seq<RecordView>, ExtractError>(ExtractError::MissingHref),
        yielded(cs, policy).len() == 0,
{
    lemma_success_iff_no_defect(cs, policy);
    assert(extract_all(cs, policy) is Err);
    let first = lemma_failure_is_first_defect(cs, policy);
    assert(first == at);
}

/// Applies the extraction rules to one candidate.
pub fn extract_candidate(c: &Candidate, policy: RankPolicy) -> (r: Result<
    Option<ExtractedRecord>,
    ExtractError,
>)
    ensures
        match r {
            Ok(Some(record)) => extract_one(c.deep_view(), policy) == Ok::<
                Option<RecordView>,
                ExtractError,
            >(Some(record.deep_view())),
            Ok(None) => extract_one(c.deep_view(), policy) == Ok::<
                Option<RecordView>,
                ExtractError,
            >(None),
            Err(e) => extract_one(c.deep_view(), policy) == Err::<
                Option<RecordView>,
                ExtractError,
            >(e),
        },
{
    if matches!(policy, RankPolicy::Required) && c.rank.is_none() {
        return Err(ExtractError::MissingRank);
    }
    let title = match &c.title {
        Some(t) => t.clone(),
        None => { return Err(ExtractError::MissingTitle); },
    };
    if title.as_str().is_empty() {
        return Err(ExtractError::MissingTitle);
    }
    let url = match &c.href {
        Some(h) => h.clone(),
        None => { return Err(ExtractError::MissingHref); },
    };
    if url.as_str().is_empty() {
        return Err(ExtractError::MissingHref);
    }
    if title == String::from_str(LOGIN_TITLE) {
        return Ok(None);
    }
    Ok(Some(ExtractedRecord { rank: copy_text(&c.rank), title, url }))
}

/// Applies the extraction rules to a run of candidates, in order, and stops
/// at the first defective one.
pub fn extract(candidates: &Vec<Candidate>, policy: RankPolicy) -> (r: Result<
    Vec<ExtractedRecord>,
    ExtractError,
>)
    ensures
        match r {
            Ok(records) => extract_all(candidates.deep_view(), policy) == Ok::<
                Seq<RecordView>,
                ExtractError,
            >(records.deep_view()),
            Err(e) => extract_all(candidates.deep_view(), policy) == Err::<
                Seq<RecordView>,
                ExtractError,
            >(e),
        },
{
    let ghost cs = candidates.deep_view();
    let mut records: Vec<ExtractedRecord> = Vec::new();
    let mut i: usize = 0;
    assert(cs.take(0) =~= Seq::<CandidateView>::empty());
    assert(records.deep_view() =~= Seq::<RecordView>::empty());
    while i < candidates.len()
        invariant
            i <= candidates.len(),
            cs == candidates.deep_view(),
            extract_all(cs.take(i as int), policy) == Ok::<Seq<RecordView>, ExtractError>(
                records.deep_view(),
            ),
        decreases candidates.len() - i,
    {
        let ghost before = records.deep_view();
        assert(cs.take(i + 1).drop_last() =~= cs.take(i as int));
        assert(cs.take(i + 1).last() == candidates@[i as int].deep_view());
        match extract_candidate(&candidates[i], policy) {
            Err(e) => {
                proof {
                    lemma_failure_persists(cs, policy, i + 1);
                }
                return Err(e);
            },
            Ok(None) => {},
            Ok(Some(record)) => {
                records.push(record);
                assert(records.deep_view() =~= before.push(record.deep_view()));
            },
        }
        i += 1;
    }
    assert(cs.take(i as int) =~= cs);
    Ok(records)
}

} // verus!
