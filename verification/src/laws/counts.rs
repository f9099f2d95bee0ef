//! Laws of counts and amounts: how they are added up, compared and merged.
use vstd::prelude::*;

use crate::events::UsageView;
use crate::laws::fields::{is_total, known};
use crate::laws::usage::{
    lemma_later_snapshots_keep_rows, lemma_snapshot_keeps_rows,
    lemma_snapshots_keep_models_distinct, row_is_kept,
};
use crate::session::SessionView;
use crate::usage::{
    aggregated, any_present, distinct_models, has_model, is_number, model_row, optional_covers,
    optional_plus, optional_sum, rank, sum_present, usage_is_covered, with_snapshot,
    with_snapshots, CostUsageView, CostView, ModelUsageView, TokenUsage, INFINITY_BITS, SIGN_BIT,
};

verus! {

/// The total of some tokens is the one that is reported, or else what the four
/// counts come to, a missing one being nothing; it is no smaller than any of
/// them.
pub proof fn the_total_counts_every_token(tokens: TokenUsage)
    ensures
        is_total(tokens.effective_total(), tokens),
        tokens.total is None && tokens.input is Some && tokens.input->0 > 0
            ==> tokens.effective_total() is Some && tokens.effective_total()->0 >= tokens.input->0,
        tokens.total is None && tokens.output is Some && tokens.output->0 > 0
            ==> tokens.effective_total() is Some && tokens.effective_total()->0
            >= tokens.output->0,
        tokens.total is None && tokens.cache_read is Some && tokens.cache_read->0 > 0
            ==> tokens.effective_total() is Some && tokens.effective_total()->0
            >= tokens.cache_read->0,
        tokens.total is None && tokens.cache_write is Some && tokens.cache_write->0 > 0
            ==> tokens.effective_total() is Some && tokens.effective_total()->0
            >= tokens.cache_write->0,
{
}

/// Whether the count is known where the other one is, and no smaller.
pub open spec fn reaches(count: Option<u64>, other: Option<u64>) -> bool {
    other is Some ==> count is Some && count->0 >= other->0
}

/// Whether the result is the larger of two counts, of those that are known.
pub open spec fn is_larger_count(result: Option<u64>, a: Option<u64>, b: Option<u64>) -> bool {
    &&& reaches(result, a)
    &&& reaches(result, b)
    &&& result == a || result == b
}

/// Whether each count of the result is the larger one of the two.
pub open spec fn has_larger_counts(result: TokenUsage, a: TokenUsage, b: TokenUsage) -> bool {
    &&& is_larger_count(result.input, a.input, b.input)
    &&& is_larger_count(result.output, a.output, b.output)
    &&& is_larger_count(result.cache_read, a.cache_read, b.cache_read)
    &&& is_larger_count(result.cache_write, a.cache_write, b.cache_write)
    &&& is_larger_count(result.total, a.total, b.total)
}

/// Whether every count of the other usage is reached, one by one.
pub open spec fn reaches_all(tokens: TokenUsage, other: TokenUsage) -> bool {
    &&& reaches(tokens.input, other.input)
    &&& reaches(tokens.output, other.output)
    &&& reaches(tokens.cache_read, other.cache_read)
    &&& reaches(tokens.cache_write, other.cache_write)
    &&& reaches(tokens.total, other.total)
}

/// The tokens of an optional report, none of them known where there is none.
pub open spec fn reported_tokens(tokens: Option<TokenUsage>) -> TokenUsage {
    if tokens is Some {
        tokens->0
    } else {
        TokenUsage { input: None, output: None, cache_read: None, cache_write: None, total: None }
    }
}

/// Merged usage has of each count the larger one. Usage is at least another if
/// every count of that one is reached.
pub proof fn merging_keeps_the_larger_counts(
    tokens: TokenUsage,
    incoming: Option<TokenUsage>,
    other: TokenUsage,
)
    ensures
        has_larger_counts(tokens.merged(other), tokens, other),
        has_larger_counts(tokens.merged_with(incoming), tokens, reported_tokens(incoming)),
        tokens.at_least(other) <==> reaches_all(tokens, other),
{
}

/// Whether the sum is what two counts come to, as far as a number goes, and is
/// known where one of them is.
pub open spec fn adds_up(sum: Option<u64>, a: Option<u64>, b: Option<u64>) -> bool {
    &&& sum is Some <==> a is Some || b is Some
    &&& sum is Some ==> sum->0 == if known(a) + known(b) <= u64::MAX {
        known(a) + known(b)
    } else {
        u64::MAX as int
    }
}

/// Counts add up, and one count covers another where it reaches it.
pub proof fn counts_add_up_and_cover(a: Option<u64>, b: Option<u64>)
    ensures
        adds_up(optional_plus(a, b), a, b),
        optional_covers(a, b) <==> reaches(a, b),
{
}

proof fn lemma_sum_of_one_more(numbers: Seq<Option<u64>>, more: Option<u64>)
    ensures
        adds_up(optional_sum(numbers.push(more)), optional_sum(numbers), more),
{
    let longer = numbers.push(more);
    assert(longer.drop_last() =~= numbers);
    assert(sum_present(longer) == sum_present(numbers) + known(more));
    if any_present(numbers) {
        let i = choose|i: int| 0 <= i < numbers.len() && (#[trigger] numbers[i]) is Some;
        assert(longer[i] is Some);
    } else {
        lemma_nothing_present(numbers);
    }
    if more is Some {
        assert(longer[numbers.len() as int] is Some);
    }
    if any_present(longer) && more is None {
        let i = choose|i: int| 0 <= i < longer.len() && (#[trigger] longer[i]) is Some;
        assert(numbers[i] is Some);
    }
}

proof fn lemma_nothing_present(numbers: Seq<Option<u64>>)
    requires
        !any_present(numbers),
    ensures
        sum_present(numbers) == 0,
    decreases numbers.len(),
{
    if numbers.len() > 0 {
        let rest = numbers.drop_last();
        assert(!(numbers[numbers.len() - 1] is Some));
        if any_present(rest) {
            let i = choose|i: int| 0 <= i < rest.len() && (#[trigger] rest[i]) is Some;
            assert(numbers[i] is Some);
        }
        lemma_nothing_present(rest);
    }
}

/// The usage in total is the usage by model added up: without a model there is
/// none, and each further model adds its own counts, and its own total to the
/// total.
pub proof fn every_model_adds_its_counts(table: Seq<ModelUsageView>, row: ModelUsageView)
    ensures
        table.len() == 0 ==> aggregated(table) == (TokenUsage {
            input: None,
            output: None,
            cache_read: None,
            cache_write: None,
            total: None,
        }),
        ({
            let before = aggregated(table);
            let after = aggregated(table.push(row));
            &&& adds_up(after.input, before.input, row.tokens.input)
            &&& adds_up(after.output, before.output, row.tokens.output)
            &&& adds_up(after.cache_read, before.cache_read, row.tokens.cache_read)
            &&& adds_up(after.cache_write, before.cache_write, row.tokens.cache_write)
            &&& exists|total: Option<u64>| #[trigger]
                is_total(total, row.tokens) && adds_up(after.total, before.total, total)
        }),
{
    let longer = table.push(row);
    let input = |row: ModelUsageView| row.tokens.input;
    let output = |row: ModelUsageView| row.tokens.output;
    let cache_read = |row: ModelUsageView| row.tokens.cache_read;
    let cache_write = |row: ModelUsageView| row.tokens.cache_write;
    let total = |row: ModelUsageView| row.tokens.effective_total();
    lemma_sum_of_one_more(table.map_values(input), row.tokens.input);
    lemma_sum_of_one_more(table.map_values(output), row.tokens.output);
    lemma_sum_of_one_more(table.map_values(cache_read), row.tokens.cache_read);
    lemma_sum_of_one_more(table.map_values(cache_write), row.tokens.cache_write);
    lemma_sum_of_one_more(table.map_values(total), row.tokens.effective_total());
    assert(longer.map_values(input) =~= table.map_values(input).push(row.tokens.input));
    assert(longer.map_values(output) =~= table.map_values(output).push(row.tokens.output));
    assert(longer.map_values(cache_read) =~= table.map_values(cache_read).push(
        row.tokens.cache_read,
    ));
    assert(longer.map_values(cache_write) =~= table.map_values(cache_write).push(
        row.tokens.cache_write,
    ));
    assert(longer.map_values(total) =~= table.map_values(total).push(
        row.tokens.effective_total(),
    ));
    the_total_counts_every_token(row.tokens);
    assert(is_total(row.tokens.effective_total(), row.tokens));
    if table.len() == 0 {
        lemma_nothing_present(table.map_values(input));
    }
}

/// Amounts compare as the numbers that their bits are: of two that are not
/// negative the one with the larger bits is larger, the sign turns that around,
/// anything negative is below anything positive, both zeros are the same, and
/// what is no number compares with nothing.
pub proof fn amounts_compare_as_numbers(a: CostView, b: CostView)
    ensures
        a.bits <= INFINITY_BITS && b.bits <= INFINITY_BITS ==> (a.at_least(b) <==> a.bits
            >= b.bits),
        SIGN_BIT <= a.bits <= SIGN_BIT + INFINITY_BITS && SIGN_BIT <= b.bits <= SIGN_BIT
            + INFINITY_BITS ==> (a.at_least(b) <==> a.bits <= b.bits),
        a.bits <= INFINITY_BITS && SIGN_BIT <= b.bits <= SIGN_BIT + INFINITY_BITS ==> a.at_least(b),
        a.bits <= INFINITY_BITS && SIGN_BIT <= b.bits <= SIGN_BIT + INFINITY_BITS ==> (b.at_least(a)
            <==> a.bits == 0 && b.bits == SIGN_BIT),
        INFINITY_BITS < a.bits < SIGN_BIT || a.bits > SIGN_BIT + INFINITY_BITS ==> !a.at_least(b)
            && !b.at_least(a) && !a.not_negative() && !is_number(a.bits),
        a.not_negative() <==> a.bits <= INFINITY_BITS || a.bits == SIGN_BIT,
        a.at_least(b) ==> rank(a.bits) >= rank(b.bits) && is_number(a.bits) && is_number(b.bits),
{
}

/// Whether the result is the larger of two amounts, of those that are known; one
/// that is no number counts for nothing beside another.
pub open spec fn is_larger_cost(
    result: Option<CostView>,
    a: Option<CostView>,
    b: Option<CostView>,
) -> bool {
    &&& result is Some <==> a is Some || b is Some
    &&& result == a || result == b
    &&& a is Some && is_number((a->0).bits) ==> (result->0).at_least(a->0)
    &&& b is Some && is_number((b->0).bits) ==> (result->0).at_least(b->0)
}

/// The total cost of an optional report, if it is known.
pub open spec fn reported_total(cost: Option<CostUsageView>) -> Option<CostView> {
    if cost is Some {
        (cost->0).total
    } else {
        None
    }
}

/// Whether the currency is the reported one, or the one before where none is
/// reported.
pub open spec fn is_latest_currency(
    result: Option<Seq<char>>,
    before: Option<Seq<char>>,
    reported: Option<CostUsageView>,
) -> bool {
    result == if reported is Some && (reported->0).currency is Some {
        (reported->0).currency
    } else {
        before
    }
}

/// Merged costs have the larger total and the currency that was reported last.
pub proof fn merging_keeps_the_larger_cost(
    cost: CostUsageView,
    incoming: Option<CostUsageView>,
    one: CostView,
    other: CostView,
)
    ensures
        is_larger_cost(Some(one.larger(other)), Some(one), Some(other)),
        is_larger_cost(
            cost.merged_with(incoming).total,
            cost.total,
            reported_total(incoming),
        ),
        is_latest_currency(cost.merged_with(incoming).currency, cost.currency, incoming),
        incoming is Some ==> cost.merged_with(incoming) == cost.merged(incoming->0),
{
}

/// Whether the row is one of those that were known or came in.
pub open spec fn is_source(
    table: Seq<ModelUsageView>,
    incoming: Seq<ModelUsageView>,
    row: ModelUsageView,
) -> bool {
    table.contains(row) || incoming.contains(row)
}

/// Whether the row has what the source reports: it is of the same model, and
/// reaches each of its counts and its cost.
pub open spec fn has_what_source_reports(row: ModelUsageView, source: ModelUsageView) -> bool {
    &&& row.model == source.model
    &&& reaches_all(row.tokens, source.tokens)
    &&& is_number(source.cost.bits) ==> row.cost.at_least(source.cost)
}

/// Whether all that the row says comes from rows of its model.
pub open spec fn is_made_of_sources(
    row: ModelUsageView,
    table: Seq<ModelUsageView>,
    incoming: Seq<ModelUsageView>,
) -> bool {
    &&& exists|r: ModelUsageView| #[trigger]
        is_source(table, incoming, r) && r.model == row.model && r.cost == row.cost
    &&& exists|r: ModelUsageView| #[trigger]
        is_source(table, incoming, r) && r.model == row.model && r.tokens.input == row.tokens.input
    &&& exists|r: ModelUsageView| #[trigger]
        is_source(table, incoming, r) && r.model == row.model && r.tokens.output
            == row.tokens.output
    &&& exists|r: ModelUsageView| #[trigger]
        is_source(table, incoming, r) && r.model == row.model && r.tokens.cache_read
            == row.tokens.cache_read
    &&& exists|r: ModelUsageView| #[trigger]
        is_source(table, incoming, r) && r.model == row.model && r.tokens.cache_write
            == row.tokens.cache_write
    &&& exists|r: ModelUsageView| #[trigger]
        is_source(table, incoming, r) && r.model == row.model && r.tokens.total == row.tokens.total
}

proof fn lemma_made_of_more_sources(
    row: ModelUsageView,
    table: Seq<ModelUsageView>,
    incoming: Seq<ModelUsageView>,
)
    requires
        incoming.len() > 0,
        is_made_of_sources(row, table, incoming.drop_last()),
    ensures
        is_made_of_sources(row, table, incoming),
{
    let fewer = incoming.drop_last();
    assert forall|r: ModelUsageView| is_source(table, fewer, r) implies #[trigger] is_source(
        table,
        incoming,
        r,
    ) by {
        if fewer.contains(r) {
            let k = choose|k: int| 0 <= k < fewer.len() && fewer[k] == r;
            assert(incoming[k] == r);
        }
    }
    let cost = choose|r: ModelUsageView| #[trigger]
        is_source(table, fewer, r) && r.model == row.model && r.cost == row.cost;
    let input = choose|r: ModelUsageView| #[trigger]
        is_source(table, fewer, r) && r.model == row.model && r.tokens.input == row.tokens.input;
    let output = choose|r: ModelUsageView| #[trigger]
        is_source(table, fewer, r) && r.model == row.model && r.tokens.output == row.tokens.output;
    let cache_read = choose|r: ModelUsageView| #[trigger]
        is_source(table, fewer, r) && r.model == row.model && r.tokens.cache_read
            == row.tokens.cache_read;
    let cache_write = choose|r: ModelUsageView| #[trigger]
        is_source(table, fewer, r) && r.model == row.model && r.tokens.cache_write
            == row.tokens.cache_write;
    let total = choose|r: ModelUsageView| #[trigger]
        is_source(table, fewer, r) && r.model == row.model && r.tokens.total == row.tokens.total;
    assert(is_source(table, incoming, cost));
    assert(is_source(table, incoming, input));
    assert(is_source(table, incoming, output));
    assert(is_source(table, incoming, cache_read));
    assert(is_source(table, incoming, cache_write));
    assert(is_source(table, incoming, total));
}

proof fn lemma_made_of_sources(table: Seq<ModelUsageView>, incoming: Seq<ModelUsageView>, i: int)
    requires
        0 <= i < with_snapshots(table, incoming).len(),
    ensures
        is_made_of_sources(with_snapshots(table, incoming)[i], table, incoming),
    decreases incoming.len(),
{
    let after = with_snapshots(table, incoming);
    if incoming.len() == 0 {
        assert(is_source(table, incoming, after[i]));
    } else {
        let fewer = incoming.drop_last();
        let before = with_snapshots(table, fewer);
        let x = incoming[incoming.len() - 1];
        assert(is_source(table, incoming, x));
        if i < before.len() {
            lemma_made_of_sources(table, fewer, i);
            lemma_made_of_more_sources(before[i], table, incoming);
            if has_model(before, x.model) && i == model_row(before, x.model) {
                merging_keeps_the_larger_counts(before[i].tokens, None, x.tokens);
                merging_keeps_the_larger_cost(
                    CostUsageView { total: None, currency: None },
                    None,
                    before[i].cost,
                    x.cost,
                );
                assert(after[i].tokens == before[i].tokens.merged(x.tokens));
                assert(after[i].model == x.model);
            } else {
                assert(after[i] == before[i]);
            }
        } else {
            assert(after[i] == x);
        }
    }
}

/// Usage by model is what was reported of each model: no two rows are of one
/// model, each report is reached by the row of its model in every count and in
/// cost, and each count and each cost of a row is one that was reported of its
/// model.
pub proof fn rows_hold_the_largest_reports(
    table: Seq<ModelUsageView>,
    incoming: Seq<ModelUsageView>,
)
    requires
        distinct_models(table),
    ensures
        ({
            let after = with_snapshots(table, incoming);
            &&& forall|i: int, j: int|
                0 <= i < j < after.len() ==> (#[trigger] after[i]).model != (
                #[trigger] after[j]).model
            &&& forall|source: ModelUsageView| #[trigger]
                is_source(table, incoming, source) ==> exists|i: int|
                    0 <= i < after.len() && has_what_source_reports(#[trigger] after[i], source)
            &&& forall|i: int|
                0 <= i < after.len() ==> is_made_of_sources(#[trigger] after[i], table, incoming)
        }),
{
    let after = with_snapshots(table, incoming);
    lemma_snapshots_keep_models_distinct(table, incoming);
    assert forall|source: ModelUsageView| #[trigger]
        is_source(table, incoming, source) implies exists|i: int|
        0 <= i < after.len() && has_what_source_reports(#[trigger] after[i], source) by {
        if table.contains(source) {
            let i = choose|i: int| 0 <= i < table.len() && table[i] == source;
            lemma_later_snapshots_keep_rows(table, incoming, 0);
            assert(incoming.take(0) =~= Seq::<ModelUsageView>::empty());
            assert(row_is_kept(table[i], after[i]));
            assert(has_what_source_reports(after[i], source));
        } else {
            let k = choose|k: int| 0 <= k < incoming.len() && incoming[k] == source;
            let earlier = with_snapshots(table, incoming.take(k));
            let early = with_snapshots(table, incoming.take(k + 1));
            assert(incoming.take(k + 1).drop_last() =~= incoming.take(k));
            assert(incoming.take(k + 1).last() == source);
            assert(early == with_snapshot(earlier, source));
            lemma_snapshot_keeps_rows(earlier, source);
            lemma_later_snapshots_keep_rows(table, incoming, k + 1);
            let i = choose|i: int|
                0 <= i < early.len() && row_is_kept(source, #[trigger] early[i]);
            assert(row_is_kept(early[i], after[i]));
            assert(has_what_source_reports(after[i], source));
        }
    }
    assert forall|i: int| 0 <= i < after.len() implies is_made_of_sources(
        #[trigger] after[i],
        table,
        incoming,
    ) by {
        lemma_made_of_sources(table, incoming, i);
    }
}

/// Usage in total that is reported without usage by model, while none is known,
/// raises each count and the cost to the reported one, and takes over the
/// reported currency.
pub proof fn totals_are_raised_to_the_reported_ones(
    session: SessionView,
    usage: UsageView,
    candidate_cost: CostView,
)
    requires
        usage.model_usage is None,
        session.model_usage.len() == 0,
    ensures
        ({
            let after = session.with_usage(usage, candidate_cost);
            &&& has_larger_counts(after.tokens, session.tokens, reported_tokens(usage.tokens))
            &&& is_larger_cost(after.cost.total, session.cost.total, reported_total(usage.cost))
            &&& is_latest_currency(after.cost.currency, session.cost.currency, usage.cost)
            &&& after.model_usage.len() == 0
        }),
{
    merging_keeps_the_larger_counts(session.tokens, usage.tokens, session.tokens);
    merging_keeps_the_larger_cost(session.cost, usage.cost, candidate_cost, candidate_cost);
}

/// Whether the amount reaches both of the others, as far as these are known and
/// are numbers; where neither is known, whether it is not negative.
pub open spec fn amount_reaches(
    amount: CostView,
    a: Option<CostView>,
    b: Option<CostView>,
) -> bool {
    let a_counts = a is Some && is_number((a->0).bits);
    let b_counts = b is Some && is_number((b->0).bits);
    if a is None && b is None {
        amount.bits <= INFINITY_BITS || amount.bits == SIGN_BIT
    } else {
        &&& a_counts || b_counts
        &&& a_counts ==> amount.at_least(a->0)
        &&& b_counts ==> amount.at_least(b->0)
    }
}

/// A report of usage by model is taken in exactly if what it leads to, added up,
/// reaches everything that was known and everything that is reported in total:
/// each count, the total, and the cost. It is then all of it taken in, and
/// otherwise none of it. `baseline` has of each count the larger one of the known
/// and the reported.
pub proof fn usage_by_model_is_taken_in_if_it_reaches_everything(
    session: SessionView,
    usage: UsageView,
    candidate_cost: CostView,
    baseline: TokenUsage,
    total: Option<u64>,
    baseline_total: Option<u64>,
)
    requires
        usage.model_usage is Some,
        has_larger_counts(baseline, session.tokens, reported_tokens(usage.tokens)),
        is_total(
            total,
            aggregated(with_snapshots(session.model_usage, usage.model_usage->0)),
        ),
        is_total(baseline_total, baseline),
    ensures
        ({
            let table = with_snapshots(session.model_usage, usage.model_usage->0);
            let sums = aggregated(table);
            let after = session.with_usage(usage, candidate_cost);
            if reaches(sums.input, baseline.input) && reaches(sums.output, baseline.output)
                && reaches(sums.cache_read, baseline.cache_read) && reaches(
                sums.cache_write,
                baseline.cache_write,
            ) && reaches(total, baseline_total) && amount_reaches(
                candidate_cost,
                session.cost.total,
                reported_total(usage.cost),
            ) {
                &&& after.model_usage == table
                &&& after.tokens == sums
                &&& after.cost.total == Some(candidate_cost)
                &&& is_latest_currency(after.cost.currency, session.cost.currency, usage.cost)
            } else {
                after == session
            }
        }),
{
    merging_keeps_the_larger_counts(session.tokens, usage.tokens, session.tokens);
    merging_keeps_the_larger_cost(session.cost, usage.cost, candidate_cost, candidate_cost);
    assert(baseline == session.tokens.merged_with(usage.tokens));
    the_total_counts_every_token(baseline);
    the_total_counts_every_token(
        aggregated(with_snapshots(session.model_usage, usage.model_usage->0)),
    );
}

/// Usage covers other usage exactly if it reaches each of its counts, its total
/// and its cost.
pub proof fn covering_usage_reaches_everything(
    candidate: TokenUsage,
    candidate_cost: CostView,
    baseline: TokenUsage,
    baseline_cost: Option<CostView>,
    total: Option<u64>,
    baseline_total: Option<u64>,
)
    requires
        is_total(total, candidate),
        is_total(baseline_total, baseline),
    ensures
        usage_is_covered(candidate, candidate_cost, baseline, baseline_cost) <==> {
            &&& reaches(candidate.input, baseline.input)
            &&& reaches(candidate.output, baseline.output)
            &&& reaches(candidate.cache_read, baseline.cache_read)
            &&& reaches(candidate.cache_write, baseline.cache_write)
            &&& reaches(total, baseline_total)
            &&& amount_reaches(candidate_cost, baseline_cost, None)
        },
{
    the_total_counts_every_token(baseline);
    the_total_counts_every_token(candidate);
}

/// The costs that are to be added up are those of the rows of usage by model
/// once the report is merged in, one for each row. Without a report they are
/// those that are known.
pub proof fn each_row_gives_one_cost(
    session: SessionView,
    reported: Option<Seq<ModelUsageView>>,
    i: int,
)
    ensures
        ({
            let costs = session.candidate_costs(reported);
            let rows = if reported is Some {
                with_snapshots(session.model_usage, reported->0)
            } else {
                session.model_usage
            };
            &&& costs.len() == rows.len()
            &&& 0 <= i < rows.len() ==> costs[i] == rows[i].cost.bits
            &&& session.candidate(reported) == rows
        }),
        TokenUsage::nothing() == reported_tokens(None),
        CostUsageView::nothing().total is None && CostUsageView::nothing().currency is None,
{
}

} // verus!
