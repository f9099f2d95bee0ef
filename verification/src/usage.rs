//! Token and cost usage, in total and by model.
use vstd::prelude::*;

use crate::json::{json, Json};
use crate::text::optional_view;

verus! {

/// Token counts. Each is optional: an agent reports those that it knows.
#[derive(Clone, Copy, PartialEq, Eq, Debug)]
pub struct TokenUsage {
    pub input: Option<u64>,
    pub output: Option<u64>,
    pub cache_read: Option<u64>,
    pub cache_write: Option<u64>,
    pub total: Option<u64>,
}

/// The number, or zero where there is none.
pub open spec fn or_zero(number: Option<u64>) -> nat {
    match number {
        Some(number) => number as nat,
        None => 0,
    }
}

/// The number cut off at the largest `u64`.
pub open spec fn saturated(number: nat) -> u64 {
    if number <= u64::MAX {
        number as u64
    } else {
        u64::MAX
    }
}

/// The larger of two numbers, of those that are there.
pub open spec fn optional_max(a: Option<u64>, b: Option<u64>) -> Option<u64> {
    match (a, b) {
        (Some(a), Some(b)) => Some(if a >= b { a } else { b }),
        (Some(a), None) => Some(a),
        (None, b) => b,
    }
}

/// Whether the first number is there and no smaller wherever the second is
/// there.
pub open spec fn optional_covers(candidate: Option<u64>, baseline: Option<u64>) -> bool {
    match (candidate, baseline) {
        (_, None) => true,
        (Some(candidate), Some(baseline)) => candidate >= baseline,
        (None, Some(_)) => false,
    }
}

impl Default for TokenUsage {
    fn default() -> (usage: TokenUsage)
        ensures
            usage == TokenUsage::nothing(),
    {
        TokenUsage { input: None, output: None, cache_read: None, cache_write: None, total: None }
    }
}

impl TokenUsage {
    /// The usage that reports nothing.
    pub open spec fn nothing() -> TokenUsage {
        TokenUsage { input: None, output: None, cache_read: None, cache_write: None, total: None }
    }

    /// The sum of the four parts.
    pub open spec fn parts(self) -> nat {
        or_zero(self.input) + or_zero(self.output) + or_zero(self.cache_read) + or_zero(
            self.cache_write,
        )
    }

    /// The reported total, or else the sum of the parts unless it is zero.
    pub open spec fn effective_total(self) -> Option<u64> {
        if self.total is Some {
            self.total
        } else if self.parts() > 0 {
            Some(saturated(self.parts()))
        } else {
            None
        }
    }

    /// Field by field the larger count.
    pub open spec fn merged(self, incoming: TokenUsage) -> TokenUsage {
        TokenUsage {
            input: optional_max(self.input, incoming.input),
            output: optional_max(self.output, incoming.output),
            cache_read: optional_max(self.cache_read, incoming.cache_read),
            cache_write: optional_max(self.cache_write, incoming.cache_write),
            total: optional_max(self.total, incoming.total),
        }
    }

    /// The usage merged with another, if there is another.
    pub open spec fn merged_with(self, incoming: Option<TokenUsage>) -> TokenUsage {
        match incoming {
            Some(incoming) => self.merged(incoming),
            None => self,
        }
    }

    /// Whether every count that the other usage reports is reported here, and
    /// is no smaller.
    pub open spec fn at_least(self, other: TokenUsage) -> bool {
        &&& optional_covers(self.input, other.input)
        &&& optional_covers(self.output, other.output)
        &&& optional_covers(self.cache_read, other.cache_read)
        &&& optional_covers(self.cache_write, other.cache_write)
        &&& optional_covers(self.total, other.total)
    }

    /// The reported total, or else the sum of the parts unless it is zero.
    pub fn total_or_sum(&self) -> (total: Option<u64>)
        ensures
            total == self.effective_total(),
    {
        if self.total.is_some() {
            return self.total;
        }
        let sum: u64 = self.input.unwrap_or(0).saturating_add(
            self.output.unwrap_or(0),
        ).saturating_add(self.cache_read.unwrap_or(0)).saturating_add(self.cache_write.unwrap_or(0));
        if sum > 0 {
            Some(sum)
        } else {
            None
        }
    }

    /// Raises each count to the incoming one.
    pub fn merge_max(&mut self, incoming: TokenUsage)
        ensures
            *final(self) == old(self).merged(incoming),
    {
        merge_optional_max(&mut self.input, incoming.input);
        merge_optional_max(&mut self.output, incoming.output);
        merge_optional_max(&mut self.cache_read, incoming.cache_read);
        merge_optional_max(&mut self.cache_write, incoming.cache_write);
        merge_optional_max(&mut self.total, incoming.total);
    }
}

/// Raises the number to the incoming one, if there is one.
pub fn merge_optional_max(target: &mut Option<u64>, incoming: Option<u64>)
    ensures
        *final(target) == optional_max(*old(target), incoming),
{
    if let Some(incoming) = incoming {
        let merged: u64 = match *target {
            Some(current) => if current >= incoming {
                current
            } else {
                incoming
            },
            None => incoming,
        };
        *target = Some(merged);
    }
}

/// The first number with the second added to it, if that is there.
pub open spec fn optional_plus(a: Option<u64>, b: Option<u64>) -> Option<u64> {
    match b {
        Some(b) => Some(saturated(or_zero(a) + b as nat)),
        None => a,
    }
}

/// Adds the incoming number, if there is one, and stays at the largest `u64`
/// rather than to pass it.
pub fn add_optional(target: &mut Option<u64>, incoming: Option<u64>)
    ensures
        *final(target) == optional_plus(*old(target), incoming),
{
    if let Some(incoming) = incoming {
        let sum: u64 = target.unwrap_or(0).saturating_add(incoming);
        *target = Some(sum);
    }
}

/// Whether the candidate is there and no smaller wherever the baseline is
/// there.
pub fn optional_at_least(candidate: Option<u64>, baseline: Option<u64>) -> (at_least: bool)
    ensures
        at_least == optional_covers(candidate, baseline),
{
    match (candidate, baseline) {
        (_, None) => true,
        (Some(candidate), Some(baseline)) => candidate >= baseline,
        (None, Some(_)) => false,
    }
}

/// The bit of a binary64 number that holds its sign.
pub const SIGN_BIT: u64 = 0x8000_0000_0000_0000;

/// The bit pattern of positive infinity.
pub const INFINITY_BITS: u64 = 0x7ff0_0000_0000_0000;

/// Whether these are the bits of a number, and not of a NaN.
pub open spec fn is_number(bits: u64) -> bool {
    bits <= INFINITY_BITS || SIGN_BIT <= bits <= SIGN_BIT + INFINITY_BITS
}

/// The place of a binary64 number among all of them: one number is less than
/// another just where its rank is.
pub open spec fn rank(bits: u64) -> int {
    if bits < SIGN_BIT {
        bits as int
    } else {
        SIGN_BIT - bits
    }
}

/// An amount of money: the bits of its binary64 form, by which amounts are
/// compared, and the JSON number that it is reported as.
#[derive(Debug)]
pub struct Cost {
    pub bits: u64,
    pub number: serde_json::Value,
}

/// What a [`Cost`] holds.
pub struct CostView {
    pub bits: u64,
    pub number: Json,
}

impl View for Cost {
    type V = CostView;

    open spec fn view(&self) -> CostView {
        CostView { bits: self.bits, number: json(self.number) }
    }
}

impl CostView {
    /// Whether the amount is no smaller than the other. A NaN is neither
    /// smaller nor larger than anything.
    pub open spec fn at_least(self, other: CostView) -> bool {
        is_number(self.bits) && is_number(other.bits) && rank(self.bits) >= rank(other.bits)
    }

    /// Whether the amount is zero or more.
    pub open spec fn not_negative(self) -> bool {
        is_number(self.bits) && rank(self.bits) >= 0
    }

    /// The larger of the two amounts, or the one that is a number.
    pub open spec fn larger(self, other: CostView) -> CostView {
        if !is_number(self.bits) {
            other
        } else if !is_number(other.bits) || rank(self.bits) >= rank(other.bits) {
            self
        } else {
            other
        }
    }
}

impl Clone for Cost {
    fn clone(&self) -> (copy: Cost)
        ensures
            copy@ == self@,
    {
        Cost { bits: self.bits, number: self.number.clone() }
    }
}

impl Cost {
    fn is_nan(&self) -> (nan: bool)
        ensures
            nan == !is_number(self.bits),
    {
        !(self.bits <= INFINITY_BITS || (self.bits >= SIGN_BIT && self.bits <= SIGN_BIT
            + INFINITY_BITS))
    }

    fn order(&self) -> (order: i128)
        ensures
            order == rank(self.bits),
    {
        if self.bits < SIGN_BIT {
            self.bits as i128
        } else {
            SIGN_BIT as i128 - self.bits as i128
        }
    }

    /// Whether the amount is no smaller than the other.
    pub fn covers(&self, other: &Cost) -> (covers: bool)
        ensures
            covers == self@.at_least(other@),
    {
        !self.is_nan() && !other.is_nan() && self.order() >= other.order()
    }

    /// Whether the amount is zero or more.
    pub fn covers_zero(&self) -> (covers: bool)
        ensures
            covers == self@.not_negative(),
    {
        !self.is_nan() && self.order() >= 0
    }

    /// The larger of the two amounts.
    pub fn max(self, other: Cost) -> (larger: Cost)
        ensures
            larger@ == self@.larger(other@),
    {
        if self.is_nan() {
            other
        } else if other.is_nan() || self.order() >= other.order() {
            self
        } else {
            other
        }
    }
}

/// What the optional amount holds, if it is there.
pub open spec fn optional_cost(cost: Option<Cost>) -> Option<CostView> {
    match cost {
        Some(cost) => Some(cost@),
        None => None,
    }
}

/// Cost in total. Providers bill in many ways, so nothing more is fixed.
#[derive(Debug)]
pub struct CostUsage {
    pub total: Option<Cost>,
    pub currency: Option<String>,
}

/// What a [`CostUsage`] holds.
pub struct CostUsageView {
    pub total: Option<CostView>,
    pub currency: Option<Seq<char>>,
}

impl View for CostUsage {
    type V = CostUsageView;

    open spec fn view(&self) -> CostUsageView {
        CostUsageView { total: optional_cost(self.total), currency: optional_view(self.currency) }
    }
}

/// What the optional cost usage holds, if it is there.
pub open spec fn optional_cost_usage(usage: Option<CostUsage>) -> Option<CostUsageView> {
    match usage {
        Some(usage) => Some(usage@),
        None => None,
    }
}

/// The same cost usage once more, if it is there.
pub(crate) fn copy_optional_cost_usage(usage: &Option<CostUsage>) -> (copy: Option<CostUsage>)
    ensures
        optional_cost_usage(copy) == optional_cost_usage(*usage),
{
    match usage {
        Some(usage) => Some(usage.clone()),
        None => None,
    }
}

impl CostUsageView {
    /// The usage that reports nothing.
    pub open spec fn nothing() -> CostUsageView {
        CostUsageView { total: None, currency: None }
    }

    /// The larger total, and the incoming currency where there is one.
    pub open spec fn merged(self, incoming: CostUsageView) -> CostUsageView {
        CostUsageView {
            total: match (self.total, incoming.total) {
                (Some(current), Some(new)) => Some(current.larger(new)),
                (Some(current), None) => Some(current),
                (None, new) => new,
            },
            currency: if incoming.currency is Some {
                incoming.currency
            } else {
                self.currency
            },
        }
    }

    /// The usage merged with another, if there is another.
    pub open spec fn merged_with(self, incoming: Option<CostUsageView>) -> CostUsageView {
        match incoming {
            Some(incoming) => self.merged(incoming),
            None => self,
        }
    }
}

impl Default for CostUsage {
    fn default() -> (usage: CostUsage)
        ensures
            usage@ == CostUsageView::nothing(),
    {
        CostUsage { total: None, currency: None }
    }
}

impl Clone for CostUsage {
    fn clone(&self) -> (copy: CostUsage)
        ensures
            copy@ == self@,
    {
        let total = match &self.total {
            Some(total) => Some(total.clone()),
            None => None,
        };
        CostUsage { total, currency: self.currency.clone() }
    }
}

/// Raises the total to the incoming one, and takes over the incoming currency.
pub fn merge_cost_usage(target: &mut CostUsage, incoming: CostUsage)
    ensures
        final(target)@ == old(target)@.merged(incoming@),
{
    if let Some(incoming_total) = incoming.total {
        let merged = match target.total.take() {
            Some(current) => current.max(incoming_total),
            None => incoming_total,
        };
        target.total = Some(merged);
    }
    if incoming.currency.is_some() {
        target.currency = incoming.currency;
    }
}

/// Usage of one model.
#[derive(Debug)]
pub struct ModelUsage {
    pub model: String,
    pub tokens: TokenUsage,
    pub cost: Cost,
}

/// What a [`ModelUsage`] holds.
pub struct ModelUsageView {
    pub model: Seq<char>,
    pub tokens: TokenUsage,
    pub cost: CostView,
}

impl View for ModelUsage {
    type V = ModelUsageView;

    open spec fn view(&self) -> ModelUsageView {
        ModelUsageView { model: self.model@, tokens: self.tokens, cost: self.cost@ }
    }
}

impl Clone for ModelUsage {
    fn clone(&self) -> (copy: ModelUsage)
        ensures
            copy@ == self@,
    {
        ModelUsage {
            model: self.model.clone(),
            tokens: self.tokens,
            cost: self.cost.clone(),
        }
    }
}

/// What each usage of a list holds.
pub open spec fn usages_view(usages: Seq<ModelUsage>) -> Seq<ModelUsageView> {
    usages.map_values(|usage: ModelUsage| usage@)
}

/// What each usage of an optional list holds, if the list is there.
pub open spec fn optional_usages(usages: Option<Vec<ModelUsage>>) -> Option<Seq<ModelUsageView>> {
    match usages {
        Some(usages) => Some(usages_view(usages@)),
        None => None,
    }
}

/// The same usages once more.
pub(crate) fn copy_usages(usages: &Vec<ModelUsage>) -> (copy: Vec<ModelUsage>)
    ensures
        usages_view(copy@) == usages_view(usages@),
{
    let mut copy: Vec<ModelUsage> = Vec::new();
    for i in 0..usages.len()
        invariant
            copy.len() == i,
            forall|j: int| 0 <= j < i ==> (#[trigger] copy@[j])@ == usages@[j]@,
    {
        copy.push(usages[i].clone());
    }
    assert(usages_view(copy@) =~= usages_view(usages@));
    copy
}

/// The same usages once more, if they are there.
pub(crate) fn copy_optional_usages(usages: &Option<Vec<ModelUsage>>) -> (copy: Option<
    Vec<ModelUsage>,
>)
    ensures
        optional_usages(copy) == optional_usages(*usages),
{
    match usages {
        Some(usages) => Some(copy_usages(usages)),
        None => None,
    }
}

/// Whether no model occurs twice in the table.
pub open spec fn distinct_models(table: Seq<ModelUsageView>) -> bool {
    forall|i: int, j: int|
        0 <= i < j < table.len() ==> (#[trigger] table[i]).model != (#[trigger] table[j]).model
}

/// Whether the table has a row for the model.
pub open spec fn has_model(table: Seq<ModelUsageView>, model: Seq<char>) -> bool {
    exists|i: int| 0 <= i < table.len() && (#[trigger] table[i]).model == model
}

/// The row of the table that is the model's.
pub open spec fn model_row(table: Seq<ModelUsageView>, model: Seq<char>) -> int {
    choose|i: int| 0 <= i < table.len() && (#[trigger] table[i]).model == model
}

/// Two snapshots of one model's usage, merged: each count and the cost is the
/// larger one.
pub open spec fn merged_model(current: ModelUsageView, incoming: ModelUsageView) -> ModelUsageView {
    ModelUsageView {
        model: current.model,
        tokens: current.tokens.merged(incoming.tokens),
        cost: current.cost.larger(incoming.cost),
    }
}

/// The table with one more snapshot merged into the row of its model, or added
/// as a row where the model has none.
pub open spec fn with_snapshot(
    table: Seq<ModelUsageView>,
    incoming: ModelUsageView,
) -> Seq<ModelUsageView> {
    if has_model(table, incoming.model) {
        let row = model_row(table, incoming.model);
        table.update(row, merged_model(table[row], incoming))
    } else {
        table.push(incoming)
    }
}

/// The table with all the snapshots merged in, in order.
pub open spec fn with_snapshots(
    table: Seq<ModelUsageView>,
    incoming: Seq<ModelUsageView>,
) -> Seq<ModelUsageView>
    decreases incoming.len(),
{
    if incoming.len() == 0 {
        table
    } else {
        with_snapshot(with_snapshots(table, incoming.drop_last()), incoming.last())
    }
}

/// The sum of the numbers that are there.
pub open spec fn sum_present(numbers: Seq<Option<u64>>) -> nat
    decreases numbers.len(),
{
    if numbers.len() == 0 {
        0
    } else {
        sum_present(numbers.drop_last()) + or_zero(numbers.last())
    }
}

/// Whether any number is there.
pub open spec fn any_present(numbers: Seq<Option<u64>>) -> bool {
    exists|i: int| 0 <= i < numbers.len() && (#[trigger] numbers[i]) is Some
}

/// The sum of the numbers that are there, if any is.
pub open spec fn optional_sum(numbers: Seq<Option<u64>>) -> Option<u64> {
    if any_present(numbers) {
        Some(saturated(sum_present(numbers)))
    } else {
        None
    }
}

/// The counts of all the models of a table, added up.
pub open spec fn aggregated(table: Seq<ModelUsageView>) -> TokenUsage {
    TokenUsage {
        input: optional_sum(table.map_values(|row: ModelUsageView| row.tokens.input)),
        output: optional_sum(table.map_values(|row: ModelUsageView| row.tokens.output)),
        cache_read: optional_sum(table.map_values(|row: ModelUsageView| row.tokens.cache_read)),
        cache_write: optional_sum(table.map_values(|row: ModelUsageView| row.tokens.cache_write)),
        total: optional_sum(table.map_values(|row: ModelUsageView| row.tokens.effective_total())),
    }
}

/// Whether the counts and the cost of a table are no smaller, anywhere, than
/// those of a snapshot in total.
pub open spec fn usage_is_covered(
    candidate: TokenUsage,
    candidate_cost: CostView,
    baseline: TokenUsage,
    baseline_cost: Option<CostView>,
) -> bool {
    &&& optional_covers(candidate.input, baseline.input)
    &&& optional_covers(candidate.output, baseline.output)
    &&& optional_covers(candidate.cache_read, baseline.cache_read)
    &&& optional_covers(candidate.cache_write, baseline.cache_write)
    &&& optional_covers(candidate.effective_total(), baseline.effective_total())
    &&& match baseline_cost {
        Some(baseline_cost) => candidate_cost.at_least(baseline_cost),
        None => candidate_cost.not_negative(),
    }
}

/// Whether the candidate is no smaller, anywhere, than the baseline.
pub fn usage_covers(
    candidate: &TokenUsage,
    candidate_cost: &Cost,
    baseline: &TokenUsage,
    baseline_cost: &Option<Cost>,
) -> (covers: bool)
    ensures
        covers == usage_is_covered(
            *candidate,
            candidate_cost@,
            *baseline,
            optional_cost(*baseline_cost),
        ),
{
    let cost_covers = match baseline_cost {
        Some(baseline_cost) => candidate_cost.covers(baseline_cost),
        None => candidate_cost.covers_zero(),
    };
    optional_at_least(candidate.input, baseline.input) && optional_at_least(
        candidate.output,
        baseline.output,
    ) && optional_at_least(candidate.cache_read, baseline.cache_read) && optional_at_least(
        candidate.cache_write,
        baseline.cache_write,
    ) && optional_at_least(candidate.total_or_sum(), baseline.total_or_sum()) && cost_covers
}

proof fn lemma_sum_push(numbers: Seq<Option<u64>>, number: Option<u64>)
    ensures
        optional_sum(numbers.push(number)) == optional_plus(optional_sum(numbers), number),
{
    assert(numbers.push(number).drop_last() =~= numbers);
    let longer = numbers.push(number);
    if any_present(numbers) {
        let i = choose|i: int| 0 <= i < numbers.len() && (#[trigger] numbers[i]) is Some;
        assert(longer[i] is Some);
    } else {
        lemma_sum_of_none(numbers);
        if number is Some {
            assert(longer[numbers.len() as int] is Some);
        } else if any_present(longer) {
            let i = choose|i: int| 0 <= i < longer.len() && (#[trigger] longer[i]) is Some;
            assert(numbers[i] is Some);
        }
    }
}

proof fn lemma_sum_of_none(numbers: Seq<Option<u64>>)
    requires
        !any_present(numbers),
    ensures
        sum_present(numbers) == 0,
    decreases numbers.len(),
{
    if numbers.len() > 0 {
        let rest = numbers.drop_last();
        if any_present(rest) {
            let i = choose|i: int| 0 <= i < rest.len() && (#[trigger] rest[i]) is Some;
            assert(numbers[i] is Some);
        }
        lemma_sum_of_none(rest);
        assert(numbers[numbers.len() - 1] is None);
    }
}

proof fn lemma_aggregate_step(table: Seq<ModelUsageView>, row: ModelUsageView)
    ensures
        ({
            let before = aggregated(table);
            let after = aggregated(table.push(row));
            &&& after.input == optional_plus(before.input, row.tokens.input)
            &&& after.output == optional_plus(before.output, row.tokens.output)
            &&& after.cache_read == optional_plus(before.cache_read, row.tokens.cache_read)
            &&& after.cache_write == optional_plus(before.cache_write, row.tokens.cache_write)
            &&& after.total == optional_plus(before.total, row.tokens.effective_total())
        }),
{
    let input = |row: ModelUsageView| row.tokens.input;
    let output = |row: ModelUsageView| row.tokens.output;
    let cache_read = |row: ModelUsageView| row.tokens.cache_read;
    let cache_write = |row: ModelUsageView| row.tokens.cache_write;
    let total = |row: ModelUsageView| row.tokens.effective_total();
    lemma_sum_push(table.map_values(input), input(row));
    lemma_sum_push(table.map_values(output), output(row));
    lemma_sum_push(table.map_values(cache_read), cache_read(row));
    lemma_sum_push(table.map_values(cache_write), cache_write(row));
    lemma_sum_push(table.map_values(total), total(row));
    assert(table.push(row).map_values(input) =~= table.map_values(input).push(input(row)));
    assert(table.push(row).map_values(output) =~= table.map_values(output).push(output(row)));
    assert(table.push(row).map_values(cache_read) =~= table.map_values(cache_read).push(
        cache_read(row),
    ));
    assert(table.push(row).map_values(cache_write) =~= table.map_values(cache_write).push(
        cache_write(row),
    ));
    assert(table.push(row).map_values(total) =~= table.map_values(total).push(total(row)));
}

/// Adds up the counts of all the models.
pub fn aggregate_model_usage(table: &Vec<ModelUsage>) -> (tokens: TokenUsage)
    ensures
        tokens == aggregated(usages_view(table@)),
{
    let mut tokens = TokenUsage::default();
    let ghost rows = usages_view(table@);
    proof {
        assert(rows.take(0) =~= Seq::<ModelUsageView>::empty());
        assert(aggregated(rows.take(0)) == TokenUsage::nothing());
    }
    for i in 0..table.len()
        invariant
            rows == usages_view(table@),
            tokens == aggregated(rows.take(i as int)),
    {
        proof {
            lemma_aggregate_step(rows.take(i as int), rows[i as int]);
            assert(rows.take(i + 1) =~= rows.take(i as int).push(rows[i as int]));
        }
        let usage = &table[i];
        add_optional(&mut tokens.input, usage.tokens.input);
        add_optional(&mut tokens.output, usage.tokens.output);
        add_optional(&mut tokens.cache_read, usage.tokens.cache_read);
        add_optional(&mut tokens.cache_write, usage.tokens.cache_write);
        add_optional(&mut tokens.total, usage.tokens.total_or_sum());
    }
    proof {
        assert(rows.take(table.len() as int) =~= rows);
    }
    tokens
}

} // verus!
