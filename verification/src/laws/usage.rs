//! Laws of usage.
use vstd::prelude::*;

use crate::events::{EndView, StartView, UpdateView, UsageView};
use crate::json::Json;
use crate::session::SessionView;
use crate::time::{TimeDelta, Timestamp};
use crate::usage::{
    aggregated, any_present, distinct_models, has_model, is_number, merged_model, model_row,
    optional_sum, or_zero, sum_present, with_snapshot, with_snapshots, CostUsageView, CostView,
    ModelUsageView, INFINITY_BITS, SIGN_BIT,
};

verus! {

proof fn lemma_sum_of_zeros(numbers: Seq<Option<u64>>)
    requires
        forall|i: int| 0 <= i < numbers.len() ==> or_zero(#[trigger] numbers[i]) == 0,
    ensures
        sum_present(numbers) == 0,
        or_zero(optional_sum(numbers)) == 0,
    decreases numbers.len(),
{
    if numbers.len() > 0 {
        let rest = numbers.drop_last();
        assert forall|i: int| 0 <= i < rest.len() implies or_zero(#[trigger] rest[i]) == 0 by {
            assert(rest[i] == numbers[i]);
        }
        lemma_sum_of_zeros(rest);
        assert(or_zero(numbers[numbers.len() - 1]) == 0);
    }
}

proof fn lemma_total_present(table: Seq<ModelUsageView>)
    ensures
        aggregated(table).effective_total() is Some ==> aggregated(table).total is Some,
{
    let totals = table.map_values(|row: ModelUsageView| row.tokens.effective_total());
    if !any_present(totals) {
        assert forall|i: int| 0 <= i < table.len() implies (#[trigger] table[i]).tokens.parts()
            == 0 by {
            assert(totals[i] is None);
        }
        let input = table.map_values(|row: ModelUsageView| row.tokens.input);
        let output = table.map_values(|row: ModelUsageView| row.tokens.output);
        let cache_read = table.map_values(|row: ModelUsageView| row.tokens.cache_read);
        let cache_write = table.map_values(|row: ModelUsageView| row.tokens.cache_write);
        assert forall|i: int| 0 <= i < table.len() implies or_zero(#[trigger] input[i]) == 0 by {
            assert(table[i].tokens.parts() == 0);
        }
        assert forall|i: int| 0 <= i < table.len() implies or_zero(#[trigger] output[i]) == 0 by {
            assert(table[i].tokens.parts() == 0);
        }
        assert forall|i: int| 0 <= i < table.len() implies or_zero(#[trigger] cache_read[i])
            == 0 by {
            assert(table[i].tokens.parts() == 0);
        }
        assert forall|i: int| 0 <= i < table.len() implies or_zero(#[trigger] cache_write[i])
            == 0 by {
            assert(table[i].tokens.parts() == 0);
        }
        lemma_sum_of_zeros(input);
        lemma_sum_of_zeros(output);
        lemma_sum_of_zeros(cache_read);
        lemma_sum_of_zeros(cache_write);
    }
}

/// Usage never goes back: whatever a report says, every token count that was
/// known stays known and does not fall.
pub proof fn tokens_never_fall(session: SessionView, usage: UsageView, candidate_cost: CostView)
    ensures
        session.with_usage(usage, candidate_cost).tokens.at_least(session.tokens),
{
    lemma_total_present(session.candidate(usage.model_usage));
}

/// Usage never goes back: a cost that was known stays known and does not fall.
pub proof fn cost_never_falls(session: SessionView, usage: UsageView, candidate_cost: CostView)
    requires
        session.cost.total is Some,
        is_number((session.cost.total->0).bits),
    ensures
        ({
            let after = session.with_usage(usage, candidate_cost).cost.total;
            after is Some && (after->0).at_least(session.cost.total->0)
        }),
{
}

/// The totals match the usage by model: as soon as usage by model is known, the
/// token counts of a session are the sums over its models, and a report of
/// usage by model that is taken in makes the sum of the costs the total cost.
pub proof fn totals_match_usage_by_model(
    session: SessionView,
    usage: UsageView,
    candidate_cost: CostView,
)
    requires
        session.wf(),
    ensures
        ({
            let after = session.with_usage(usage, candidate_cost);
            &&& after.model_usage.len() > 0 ==> after.tokens == aggregated(after.model_usage)
            &&& after.model_usage != session.model_usage ==> after.cost.total == Some(
                candidate_cost,
            )
            &&& usage.model_usage is Some && after != session ==> {
                &&& after.model_usage == session.candidate(usage.model_usage)
                &&& after.cost.total == Some(candidate_cost)
            }
        }),
{
}

/// Once usage by model is known, totals that are reported without it change
/// nothing.
pub proof fn totals_alone_do_not_override_usage_by_model(
    session: SessionView,
    usage: UsageView,
    candidate_cost: CostView,
)
    requires
        session.model_usage.len() > 0,
        usage.model_usage is None,
    ensures
        session.with_usage(usage, candidate_cost) == session,
{
}

/// A report of usage touches nothing but the usage.
pub proof fn usage_leaves_the_rest_alone(
    session: SessionView,
    usage: UsageView,
    candidate_cost: CostView,
)
    ensures
        ({
            let after = session.with_usage(usage, candidate_cost);
            after == (SessionView {
                tokens: after.tokens,
                cost: after.cost,
                model_usage: after.model_usage,
                ..session
            })
        }),
{
}

/// To start a session with the same request once more changes nothing further.
pub proof fn restart_is_idempotent(session: SessionView, req: StartView)
    ensures
        session.restarted(req).restarted(req) == session.restarted(req),
        SessionView::started(req, session.started_at, session.project_name).restarted(req)
            == SessionView::started(req, session.started_at, session.project_name),
{
    if let Some(Json::Object(new)) = req.metadata {
        assert(new.union_prefer_right(new) =~= new);
        if let Some(Json::Object(existing)) = session.metadata {
            assert(existing.union_prefer_right(new).union_prefer_right(new)
                =~= existing.union_prefer_right(new));
        }
    }
}

/// Whether the second table has every row of the first in its place, and none
/// of its counts and costs is lower there.
pub open spec fn keeps_rows(before: Seq<ModelUsageView>, after: Seq<ModelUsageView>) -> bool {
    &&& before.len() <= after.len()
    &&& forall|i: int|
        0 <= i < before.len() ==> row_is_kept(#[trigger] before[i], after[i])
}

/// Whether the row is of the same model, and none of its counts nor its cost is
/// lower.
pub open spec fn row_is_kept(before: ModelUsageView, after: ModelUsageView) -> bool {
    &&& after.model == before.model
    &&& after.tokens.at_least(before.tokens)
    &&& is_number(before.cost.bits) ==> after.cost.at_least(before.cost)
}

pub(crate) proof fn lemma_snapshot_keeps_rows(table: Seq<ModelUsageView>, incoming: ModelUsageView)
    ensures
        keeps_rows(table, with_snapshot(table, incoming)),
        exists|i: int|
            0 <= i < with_snapshot(table, incoming).len() && row_is_kept(
                incoming,
                #[trigger] with_snapshot(table, incoming)[i],
            ),
{
    let after = with_snapshot(table, incoming);
    if has_model(table, incoming.model) {
        assert(row_is_kept(incoming, after[model_row(table, incoming.model)]));
    } else {
        assert(row_is_kept(incoming, after[table.len() as int]));
    }
}

pub(crate) proof fn lemma_later_snapshots_keep_rows(
    table: Seq<ModelUsageView>,
    incoming: Seq<ModelUsageView>,
    k: int,
)
    requires
        0 <= k <= incoming.len(),
    ensures
        keeps_rows(with_snapshots(table, incoming.take(k)), with_snapshots(table, incoming)),
    decreases incoming.len(),
{
    if k == incoming.len() {
        assert(incoming.take(k) =~= incoming);
    } else {
        let fewer = incoming.drop_last();
        lemma_later_snapshots_keep_rows(table, fewer, k);
        assert(fewer.take(k) =~= incoming.take(k));
        let early = with_snapshots(table, incoming.take(k));
        let middle = with_snapshots(table, fewer);
        let late = with_snapshots(table, incoming);
        lemma_snapshot_keeps_rows(middle, incoming.last());
        assert forall|i: int| 0 <= i < early.len() implies row_is_kept(
            #[trigger] early[i],
            late[i],
        ) by {
            assert(row_is_kept(early[i], middle[i]));
            assert(row_is_kept(middle[i], late[i]));
        }
    }
}

/// No row of usage by model is lost or lowered, whatever a report says: each
/// stays where it is, and none of its counts nor its cost falls.
pub proof fn rows_are_never_lost_or_lowered(
    session: SessionView,
    usage: UsageView,
    candidate_cost: CostView,
)
    ensures
        keeps_rows(
            session.model_usage,
            session.with_usage(usage, candidate_cost).model_usage,
        ),
{
    if let Some(incoming) = usage.model_usage {
        lemma_later_snapshots_keep_rows(session.model_usage, incoming, 0);
        assert(incoming.take(0) =~= Seq::<ModelUsageView>::empty());
    }
}

pub(crate) proof fn lemma_snapshots_keep_models_distinct(
    table: Seq<ModelUsageView>,
    incoming: Seq<ModelUsageView>,
)
    requires
        distinct_models(table),
    ensures
        distinct_models(with_snapshots(table, incoming)),
    decreases incoming.len(),
{
    if incoming.len() > 0 {
        lemma_snapshots_keep_models_distinct(table, incoming.drop_last());
        crate::session::lemma_snapshot_keeps_models_distinct(
            with_snapshots(table, incoming.drop_last()),
            incoming.last(),
        );
    }
}

/// Whether a table that the first `k` snapshots were merged into for a second
/// time has come back to `full`, the table with all of them, but for costs that
/// are no numbers; these are as after the first time.
spec fn is_back(
    again: Seq<ModelUsageView>,
    full: Seq<ModelUsageView>,
    early: Seq<ModelUsageView>,
) -> bool {
    &&& again.len() == full.len()
    &&& forall|i: int| 0 <= i < full.len() ==> row_is_back(#[trigger] again[i], full[i], early, i)
}

spec fn row_is_back(
    again: ModelUsageView,
    full: ModelUsageView,
    early: Seq<ModelUsageView>,
    i: int,
) -> bool {
    &&& again.model == full.model
    &&& again.tokens == full.tokens
    &&& again.cost == full.cost || (!is_number(full.cost.bits) && i < early.len() && again.cost
        == early[i].cost)
}

proof fn lemma_back_again(table: Seq<ModelUsageView>, incoming: Seq<ModelUsageView>, k: int)
    requires
        distinct_models(table),
        0 <= k <= incoming.len(),
    ensures
        is_back(
            with_snapshots(with_snapshots(table, incoming), incoming.take(k)),
            with_snapshots(table, incoming),
            with_snapshots(table, incoming.take(k)),
        ),
    decreases k,
{
    let full = with_snapshots(table, incoming);
    let early = with_snapshots(table, incoming.take(k));
    let again = with_snapshots(full, incoming.take(k));
    lemma_snapshots_keep_models_distinct(table, incoming);
    if k == 0 {
        assert(incoming.take(0) =~= Seq::<ModelUsageView>::empty());
    } else {
        let x = incoming[k - 1];
        let earlier = with_snapshots(table, incoming.take(k - 1));
        let before = with_snapshots(full, incoming.take(k - 1));
        lemma_back_again(table, incoming, k - 1);
        assert(incoming.take(k).drop_last() =~= incoming.take(k - 1));
        assert(incoming.take(k).last() == x);
        assert(early == with_snapshot(earlier, x));
        assert(again == with_snapshot(before, x));
        lemma_later_snapshots_keep_rows(table, incoming, k);
        lemma_later_snapshots_keep_rows(table, incoming, k - 1);
        lemma_snapshot_keeps_rows(earlier, x);
        // The row that the snapshot went into the first time.
        let row = if has_model(earlier, x.model) {
            model_row(earlier, x.model)
        } else {
            earlier.len() as int
        };
        assert(early[row].model == x.model && row_is_kept(x, early[row]));
        assert(row_is_kept(early[row], full[row]));
        assert(row_is_back(before[row], full[row], earlier, row));
        assert(before[row].model == x.model);
        assert(has_model(before, x.model));
        // It is the same one the second time.
        let found = model_row(before, x.model);
        assert(0 <= found < before.len() && before[found].model == x.model);
        assert(row_is_back(before[found], full[found], earlier, found));
        assert(full[found].model == full[row].model);
        assert(found == row);
        let merged = merged_model(before[row], x);
        assert(merged.tokens == full[row].tokens);
        if is_number(full[row].cost.bits) {
            assert(merged.cost == full[row].cost);
        } else {
            if row < earlier.len() {
                assert(row_is_kept(earlier[row], full[row]));
            }
            assert(merged.cost == x.cost);
            assert(early[row].cost == x.cost);
        }
        assert forall|i: int| 0 <= i < full.len() implies row_is_back(
            #[trigger] again[i],
            full[i],
            early,
            i,
        ) by {
            if i != row {
                assert(again[i] == before[i]);
                assert(row_is_back(before[i], full[i], earlier, i));
                if i < earlier.len() {
                    assert(early[i] == earlier[i]);
                }
            }
        }
    }
}

/// To merge the same snapshots in once more changes nothing.
pub proof fn snapshots_merge_once(table: Seq<ModelUsageView>, incoming: Seq<ModelUsageView>)
    requires
        distinct_models(table),
    ensures
        with_snapshots(with_snapshots(table, incoming), incoming) == with_snapshots(
            table,
            incoming,
        ),
{
    let full = with_snapshots(table, incoming);
    let again = with_snapshots(full, incoming);
    lemma_back_again(table, incoming, incoming.len() as int);
    assert(incoming.take(incoming.len() as int) =~= incoming);
    assert forall|i: int| 0 <= i < full.len() implies again[i] == full[i] by {
        assert(row_is_back(again[i], full[i], full, i));
    }
    assert(again =~= full);
}

/// Usage is a snapshot, not an increment: once a report was taken in, or was
/// found to be partial, the same report changes nothing further.
pub proof fn the_same_usage_counts_once(
    session: SessionView,
    after: SessionView,
    usage: UsageView,
    candidate_cost: CostView,
)
    requires
        distinct_models(session.model_usage),
        after.tokens == session.with_usage(usage, candidate_cost).tokens,
        after.cost == session.with_usage(usage, candidate_cost).cost,
        after.model_usage == session.with_usage(usage, candidate_cost).model_usage,
    ensures
        after.with_usage(usage, candidate_cost) == after,
{
    if let Some(incoming) = usage.model_usage {
        snapshots_merge_once(session.model_usage, incoming);
    }
}

/// Whether the number that the amount is reported as is the amount that is
/// compared; an amount that is not finite is reported as `null`.
pub open spec fn reports_its_bits(cost: CostView) -> bool {
    cost.number == if is_number(cost.bits) && cost.bits != INFINITY_BITS && cost.bits != SIGN_BIT
        + INFINITY_BITS {
        Json::Float(cost.bits)
    } else {
        Json::Null
    }
}

/// Whether the total cost, if it is known, is reported as it is.
pub open spec fn total_reports_its_bits(cost: CostUsageView) -> bool {
    cost.total is Some ==> reports_its_bits(cost.total->0)
}

/// Whether the cost of each row is reported as it is.
pub open spec fn rows_report_their_bits(table: Seq<ModelUsageView>) -> bool {
    forall|i: int| 0 <= i < table.len() ==> reports_its_bits((#[trigger] table[i]).cost)
}

proof fn lemma_snapshots_report_their_bits(
    table: Seq<ModelUsageView>,
    incoming: Seq<ModelUsageView>,
)
    requires
        rows_report_their_bits(table),
        rows_report_their_bits(incoming),
    ensures
        rows_report_their_bits(with_snapshots(table, incoming)),
    decreases incoming.len(),
{
    if incoming.len() > 0 {
        let fewer = incoming.drop_last();
        assert forall|i: int| 0 <= i < fewer.len() implies reports_its_bits(
            (#[trigger] fewer[i]).cost,
        ) by {
            assert(fewer[i] == incoming[i]);
        }
        lemma_snapshots_report_their_bits(table, fewer);
        let before = with_snapshots(table, fewer);
        let after = with_snapshots(table, incoming);
        assert(reports_its_bits(incoming[incoming.len() - 1].cost));
        assert forall|i: int| 0 <= i < after.len() implies reports_its_bits(
            (#[trigger] after[i]).cost,
        ) by {
            if i < before.len() {
                assert(reports_its_bits(before[i].cost));
            }
        }
    }
}

/// The amount that is reported is the amount that was compared: where this
/// holds of a session and of what comes in, it holds of the larger of two
/// amounts, of merged totals, of merged usage by model, and of the session once
/// the report is taken in.
pub proof fn costs_are_reported_as_they_compare(
    session: SessionView,
    usage: UsageView,
    candidate_cost: CostView,
    one: CostView,
    other: CostView,
)
    requires
        total_reports_its_bits(session.cost),
        rows_report_their_bits(session.model_usage),
        usage.cost is Some ==> total_reports_its_bits(usage.cost->0),
        usage.model_usage is Some ==> rows_report_their_bits(usage.model_usage->0),
        reports_its_bits(candidate_cost),
        reports_its_bits(one),
        reports_its_bits(other),
    ensures
        reports_its_bits(one.larger(other)),
        total_reports_its_bits(session.cost.merged_with(usage.cost)),
        rows_report_their_bits(session.candidate(usage.model_usage)),
        total_reports_its_bits(session.with_usage(usage, candidate_cost).cost),
        rows_report_their_bits(session.with_usage(usage, candidate_cost).model_usage),
{
    if let Some(incoming) = usage.model_usage {
        lemma_snapshots_report_their_bits(session.model_usage, incoming);
    }
}

/// Whether the total cost is the sum of the costs by model, for the given way
/// of adding amounts up, as soon as usage by model is known.
pub open spec fn total_is_sum(session: SessionView, sum: spec_fn(Seq<u64>) -> CostView) -> bool {
    session.model_usage.len() > 0 ==> session.cost.total == Some(
        sum(session.model_usage.map_values(|row: ModelUsageView| row.cost.bits)),
    )
}

/// The total cost always matches the usage by model, however amounts are added
/// up: it does at the start of a session, and nothing that a session goes
/// through changes that, if each report comes with the sum of the costs that it
/// leads to.
pub proof fn total_cost_matches_usage_by_model(
    session: SessionView,
    sum: spec_fn(Seq<u64>) -> CostView,
    start: StartView,
    update: UpdateView,
    end: EndView,
    usage: UsageView,
    at: Timestamp,
    name: Seq<char>,
    ttl: TimeDelta,
)
    ensures
        total_is_sum(SessionView::started(start, at, name), sum),
        total_is_sum(session, sum) ==> {
            &&& total_is_sum(
                session.with_usage(usage, sum(session.candidate_costs(usage.model_usage))),
                sum,
            )
            &&& total_is_sum(
                session.updated(update, sum(session.candidate_costs(update.usage.model_usage))),
                sum,
            )
            &&& total_is_sum(
                session.ended(end, sum(session.candidate_costs(end.usage.model_usage))),
                sum,
            )
            &&& total_is_sum(session.restarted(start), sum)
            &&& total_is_sum(session.marked(at, ttl), sum)
            &&& total_is_sum(session.finished_at(at), sum)
            &&& total_is_sum(session.finished(), sum)
        },
{
}

} // verus!
