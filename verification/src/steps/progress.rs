//! Progress indicators: what they show and in which order.

use vstd::prelude::*;

verus! {

/// One increment of a progress indicator.
#[derive(Debug, Clone)]
pub struct ProgressItem {
    pub message: String,
    pub increment: Option<u64>,
    pub delay_ms: Option<u64>,
}

/// A bar with a total, or a spinner.
#[derive(Debug, Clone)]
pub enum ProgressType {
    Bar { total: u64, use_download_template: bool },
    Spinner,
}

/// One indicator of a group shown together.
#[derive(Debug, Clone)]
pub struct ProgressBarConfig {
    pub progress_type: ProgressType,
    pub start_message: String,
    pub stop_message: String,
    pub items: Option<Vec<ProgressItem>>,
}

/// One thing a progress indicator does.
#[derive(Debug, Clone)]
pub enum ProgressOp {
    /// Waits this many milliseconds.
    Pause(u64),
    /// Moves a bar forward by this much.
    Advance(u64),
    /// Shows this message.
    Message(String),
}

/// The work of a progress indicator between its start and its stop.
#[derive(Debug, Clone)]
pub enum ProgressWork {
    /// These operations, in order.
    Steps(Vec<ProgressOp>),
    /// `ticks` times: wait `pause_ms`, then move forward by one.
    Fill { ticks: u64, pause_ms: u64 },
    /// Waits this many milliseconds.
    Wait(u64),
}

/// The operations for one item: its delay, then (for a bar) its increment,
/// then its message when it has one.
pub open spec fn item_ops(item: ProgressItem, bar: bool) -> Seq<ProgressOp> {
    let pause = match item.delay_ms {
        Some(d) => seq![ProgressOp::Pause(d)],
        None => Seq::empty(),
    };
    let advance = if bar {
        seq![
            ProgressOp::Advance(
                match item.increment {
                    Some(n) => n,
                    None => 1,
                },
            ),
        ]
    } else {
        Seq::empty()
    };
    let message = if item.message@.len() > 0 {
        seq![ProgressOp::Message(item.message)]
    } else {
        Seq::empty()
    };
    pause + advance + message
}

/// The operations for the items, in order.
pub open spec fn items_ops(items: Seq<ProgressItem>, bar: bool) -> Seq<ProgressOp>
    decreases items.len(),
{
    if items.len() == 0 {
        Seq::empty()
    } else {
        items_ops(items.drop_last(), bar) + item_ops(items.last(), bar)
    }
}

/// The work for an indicator: the operations of its items when it has
/// items; otherwise a bar fills up one tick at a time and a spinner waits.
pub open spec fn work_is(
    w: ProgressWork,
    bar: Option<u64>,
    items: Option<Vec<ProgressItem>>,
    tick_ms: u64,
    spin_ms: u64,
) -> bool {
    match items {
        Some(v) => w matches ProgressWork::Steps(ops) && ops@ == items_ops(v@, bar is Some),
        None => match bar {
            Some(total) => w == ProgressWork::Fill { ticks: total, pause_ms: tick_ms },
            None => w == ProgressWork::Wait(spin_ms),
        },
    }
}

/// The operations for `items`.
pub fn item_operations(items: &Vec<ProgressItem>, bar: bool) -> (ops: Vec<ProgressOp>)
    ensures
        ops@ == items_ops(items@, bar),
{
    let mut ops: Vec<ProgressOp> = Vec::new();
    let mut i: usize = 0;
    while i < items.len()
        invariant
            i <= items@.len(),
            ops@ == items_ops(items@.take(i as int), bar),
        decreases items@.len() - i,
    {
        let item = &items[i];
        let ghost before = ops@;
        if let Some(d) = item.delay_ms {
            ops.push(ProgressOp::Pause(d));
        }
        if bar {
            let n = match item.increment {
                Some(n) => n,
                None => 1,
            };
            ops.push(ProgressOp::Advance(n));
        }
        if item.message.unicode_len() > 0 {
            ops.push(ProgressOp::Message(item.message.clone()));
        }
        assert(items@.take(i + 1).drop_last() =~= items@.take(i as int));
        assert(ops@ =~= before + item_ops(items@[i as int], bar));
        i = i + 1;
    }
    assert(items@.take(items@.len() as int) =~= items@);
    ops
}

/// The total of a bar, or `None` for a spinner.
pub open spec fn bar_total(t: ProgressType) -> Option<u64> {
    match t {
        ProgressType::Bar { total, .. } => Some(total),
        ProgressType::Spinner => None,
    }
}

fn work_for(progress_type: &ProgressType, items: &Option<Vec<ProgressItem>>, tick_ms: u64, spin_ms: u64) -> (w:
    ProgressWork)
    ensures
        work_is(w, bar_total(*progress_type), *items, tick_ms, spin_ms),
{
    let bar = match progress_type {
        ProgressType::Bar { .. } => true,
        ProgressType::Spinner => false,
    };
    match items {
        Some(v) => ProgressWork::Steps(item_operations(v, bar)),
        None => match progress_type {
            ProgressType::Bar { total, .. } => ProgressWork::Fill { ticks: *total, pause_ms: tick_ms },
            ProgressType::Spinner => ProgressWork::Wait(spin_ms),
        },
    }
}

/// The work of a single progress step: without items a bar fills in steps of
/// 50 ms and a spinner waits two seconds.
pub fn progress_work(progress_type: &ProgressType, items: &Option<Vec<ProgressItem>>) -> (w: ProgressWork)
    ensures
        work_is(w, bar_total(*progress_type), *items, 50, 2000),
{
    work_for(progress_type, items, 50, 2000)
}

/// One indicator of a group, ready to be shown.
#[derive(Debug, Clone)]
pub struct IndicatorPlan {
    pub progress_type: ProgressType,
    pub start_message: String,
    pub stop_message: String,
    pub work: ProgressWork,
}

/// A group of indicators: created in the order of `indicators`, then
/// started, worked and stopped in the order of `order` (all bars first, then
/// all spinners, each in configuration order).
#[derive(Debug, Clone)]
pub struct MultiProgressPlan {
    pub indicators: Vec<IndicatorPlan>,
    pub order: Vec<usize>,
}

/// The positions of the bars (or the spinners) among the first `n`
/// configurations, in order.
pub open spec fn kind_positions(configs: Seq<ProgressBarConfig>, bars: bool, n: nat) -> Seq<usize>
    decreases n,
{
    if n == 0 {
        Seq::empty()
    } else {
        let prev = kind_positions(configs, bars, (n - 1) as nat);
        if (bar_total(configs[n - 1].progress_type) is Some) == bars {
            prev.push((n - 1) as usize)
        } else {
            prev
        }
    }
}

/// The plan of an indicator for its configuration: without items a bar fills
/// in steps of 20 ms and a spinner waits one second.
pub open spec fn indicator_for(p: IndicatorPlan, c: ProgressBarConfig) -> bool {
    &&& p.progress_type == c.progress_type
    &&& p.start_message == c.start_message
    &&& p.stop_message == c.stop_message
    &&& work_is(p.work, bar_total(c.progress_type), c.items, 20, 1000)
}

/// The plan of a group of indicators.
pub fn multi_progress_plan(configs: &Vec<ProgressBarConfig>) -> (plan: MultiProgressPlan)
    ensures
        plan.indicators@.len() == configs@.len(),
        forall|i: int| 0 <= i < configs@.len() ==> indicator_for(#[trigger] plan.indicators@[i], configs@[i]),
        plan.order@ == kind_positions(configs@, true, configs@.len()) + kind_positions(configs@, false, configs@.len()),
{
    let mut indicators: Vec<IndicatorPlan> = Vec::new();
    let mut bars: Vec<usize> = Vec::new();
    let mut spinners: Vec<usize> = Vec::new();
    let mut i: usize = 0;
    while i < configs.len()
        invariant
            i <= configs@.len(),
            indicators@.len() == i,
            forall|j: int| 0 <= j < i ==> indicator_for(#[trigger] indicators@[j], configs@[j]),
            bars@ == kind_positions(configs@, true, i as nat),
            spinners@ == kind_positions(configs@, false, i as nat),
        decreases configs@.len() - i,
    {
        let c = &configs[i];
        let pt = match &c.progress_type {
            ProgressType::Bar { total, use_download_template } => {
                bars.push(i);
                ProgressType::Bar { total: *total, use_download_template: *use_download_template }
            },
            ProgressType::Spinner => {
                spinners.push(i);
                ProgressType::Spinner
            },
        };
        let work = work_for(&c.progress_type, &c.items, 20, 1000);
        indicators.push(
            IndicatorPlan {
                progress_type: pt,
                start_message: c.start_message.clone(),
                stop_message: c.stop_message.clone(),
                work,
            },
        );
        i = i + 1;
    }
    let mut order = bars;
    let mut k: usize = 0;
    let ghost b = order@;
    while k < spinners.len()
        invariant
            k <= spinners@.len(),
            order@ == b + spinners@.take(k as int),
        decreases spinners@.len() - k,
    {
        order.push(spinners[k]);
        k = k + 1;
        assert(order@ =~= b + spinners@.take(k as int));
    }
    assert(spinners@.take(spinners@.len() as int) =~= spinners@);
    MultiProgressPlan { indicators, order }
}

/// A copy of a progress type.
pub fn copy_progress_type(t: &ProgressType) -> (r: ProgressType)
    ensures
        r == *t,
{
    match t {
        ProgressType::Bar { total, use_download_template } => ProgressType::Bar {
            total: *total,
            use_download_template: *use_download_template,
        },
        ProgressType::Spinner => ProgressType::Spinner,
    }
}

} // verus!
