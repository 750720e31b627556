//! Caller-side state: the tool list shown to the user, the view states,
//! and the aggregation of worker events into progress counters.

use vstd::prelude::*;

use crate::catalog::CatalogFile;
use crate::resolver::ResolvedAsset;
use crate::runner::{spec_eta, InstallMsg};
use crate::text::cat;

verus! {

/// One selectable tool: its catalog key, whether it is selected, and its
/// cached resolution for the current run.
pub struct ToolItem {
    pub key: String,
    pub selected: bool,
    pub resolved: Option<ResolvedAsset>,
}

/// Which screen the caller is on.
#[derive(Clone, PartialEq)]
pub enum ViewState {
    Browsing,
    Installing,
    Completed,
    FilePicker { current_dir: String, entries: Vec<String>, cursor: usize },
    Restoring,
}

/// The tool list a loaded catalog presents: one item per entry, in catalog
/// order, selected as its entry defaults, nothing resolved yet.
pub fn tools_from_catalog(catalog: &CatalogFile) -> (r: Vec<ToolItem>)
    ensures
        r@.len() == catalog.software@.len(),
        forall|i: int|
            0 <= i < r@.len() ==> r@[i].key == catalog.software@[i].0 && r@[i].selected
                == catalog.software@[i].1.enabled_by_default && r@[i].resolved is None,
{
    let n: usize = catalog.software.len();
    let mut out: Vec<ToolItem> = Vec::new();
    let mut i: usize = 0;
    while i < n
        invariant
            i <= n,
            n == catalog.software@.len(),
            out@.len() == i,
            forall|j: int|
                0 <= j < i ==> out@[j].key == catalog.software@[j].0 && out@[j].selected
                    == catalog.software@[j].1.enabled_by_default && out@[j].resolved is None,
        decreases n - i,
    {
        out.push(
            ToolItem {
                key: catalog.software[i].0.clone(),
                selected: catalog.software[i].1.enabled_by_default,
                resolved: None,
            },
        );
        i = i + 1;
    }
    out
}

fn clone_asset(a: &ResolvedAsset) -> (r: ResolvedAsset)
    ensures
        r == *a,
{
    let r = ResolvedAsset {
        version: a.version.clone(),
        url: a.url.clone(),
        file_name: a.file_name.clone(),
    };
    r
}

/// The selected items, in list order, each with its cached resolution.
pub open spec fn spec_selected(ts: Seq<ToolItem>) -> Seq<(String, Option<ResolvedAsset>)>
    decreases ts.len(),
{
    if ts.len() == 0 {
        Seq::empty()
    } else {
        spec_selected(ts.drop_last()) + (if ts.last().selected {
            seq![(ts.last().key, ts.last().resolved)]
        } else {
            Seq::empty()
        })
    }
}

pub fn selected_items(tools: &Vec<ToolItem>) -> (r: Vec<(String, Option<ResolvedAsset>)>)
    ensures
        r@ == spec_selected(tools@),
{
    let n: usize = tools.len();
    let mut out: Vec<(String, Option<ResolvedAsset>)> = Vec::new();
    let mut i: usize = 0;
    proof {
        assert(tools@.subrange(0, 0) =~= Seq::<ToolItem>::empty());
    }
    while i < n
        invariant
            i <= n,
            n == tools@.len(),
            out@ == spec_selected(tools@.subrange(0, i as int)),
        decreases n - i,
    {
        proof {
            assert(tools@.subrange(0, i + 1 as int).drop_last() =~= tools@.subrange(0, i as int));
            assert(tools@.subrange(0, i + 1 as int).last() == tools@[i as int]);
        }
        if tools[i].selected {
            let resolved: Option<ResolvedAsset> = match &tools[i].resolved {
                Some(a) => Some(clone_asset(a)),
                None => None,
            };
            out.push((tools[i].key.clone(), resolved));
            proof {
                assert(out@ =~= spec_selected(tools@.subrange(0, i + 1 as int)));
            }
        } else {
            proof {
                assert(out@ + Seq::<(String, Option<ResolvedAsset>)>::empty() =~= out@);
            }
        }
        i = i + 1;
    }
    proof {
        assert(tools@.subrange(0, n as int) =~= tools@);
    }
    out
}

// ---------------- progress aggregation ----------------

/// The caller's rolling view of a run: counters over the Done events, the
/// current phase texts, the sub-progress fraction, and an ETA estimate —
/// all purely observational.
pub struct ProgressInfo {
    pub operation: String,
    pub current: String,
    pub done: usize,
    pub total: usize,
    pub succeeded: usize,
    pub failed: usize,
    pub skipped: usize,
    pub speed: Option<String>,
    pub eta_seconds: Option<u64>,
    pub sub_num: u64,
    pub sub_den: u64,
    pub done_items: Vec<String>,
}

impl ProgressInfo {
    /// A fresh aggregate for a run over `total` items.
    pub fn begin(total: usize) -> (p: ProgressInfo)
        ensures
            p.total == total,
            p.done == 0 && p.succeeded == 0 && p.failed == 0 && p.skipped == 0,
            p.operation@.len() == 0 && p.current@.len() == 0,
            p.speed is None && p.eta_seconds is None,
            p.sub_num == 0 && p.sub_den == 1,
            p.done_items@.len() == 0,
    {
        ProgressInfo {
            operation: String::new(),
            current: String::new(),
            done: 0,
            total,
            succeeded: 0,
            failed: 0,
            skipped: 0,
            speed: None,
            eta_seconds: None,
            sub_num: 0,
            sub_den: 1,
            done_items: Vec::new(),
        }
    }

    /// The items remaining after `done` of `total` reported.
    pub open spec fn spec_remaining(total: int, done: int) -> int {
        if total > done {
            total - done
        } else {
            0
        }
    }

    /// Folds one worker event into the aggregate, as the run's caller does
    /// each tick: a Done event counts one success or failure, resets the
    /// sub-progress, records the item, and refreshes the ETA estimate; the
    /// returned lines are what the caller appends to its log.
    pub fn apply_msg(&mut self, msg: InstallMsg, elapsed_secs: u64) -> (extra_logs: Vec<String>)
        requires
            old(self).done < usize::MAX,
            old(self).succeeded < usize::MAX,
            old(self).failed < usize::MAX,
        ensures
            final(self).total == old(self).total,
            final(self).skipped == old(self).skipped,
            match msg {
                InstallMsg::Progress(k, op, sp) => {
                    &&& final(self).current == k
                    &&& final(self).operation == op
                    &&& final(self).speed == sp
                    &&& final(self).done == old(self).done
                    &&& final(self).succeeded == old(self).succeeded
                    &&& final(self).failed == old(self).failed
                    &&& final(self).eta_seconds == old(self).eta_seconds
                    &&& final(self).sub_num == old(self).sub_num
                    &&& final(self).sub_den == old(self).sub_den
                    &&& final(self).done_items == old(self).done_items
                    &&& extra_logs@.len() == 0
                },
                InstallMsg::SubProgress(n, d) => {
                    &&& final(self).sub_num == n
                    &&& final(self).sub_den == d
                    &&& final(self).done == old(self).done
                    &&& final(self).succeeded == old(self).succeeded
                    &&& final(self).failed == old(self).failed
                    &&& final(self).operation == old(self).operation
                    &&& final(self).current == old(self).current
                    &&& final(self).speed == old(self).speed
                    &&& final(self).eta_seconds == old(self).eta_seconds
                    &&& final(self).done_items == old(self).done_items
                    &&& extra_logs@.len() == 0
                },
                InstallMsg::Log(l) => {
                    &&& *final(self) == *old(self)
                    &&& extra_logs@.len() == 1 && extra_logs@[0] == l
                },
                InstallMsg::Done(k, res) => {
                    &&& final(self).done == old(self).done + 1
                    &&& final(self).done_items@ == old(self).done_items@.push(k)
                    &&& final(self).sub_num == 0 && final(self).sub_den == 1
                    &&& final(self).operation == old(self).operation
                    &&& final(self).current == old(self).current
                    &&& final(self).speed == old(self).speed
                    &&& final(self).eta_seconds == Some(
                        spec_eta(
                            elapsed_secs,
                            old(self).done + 1,
                            Self::spec_remaining(old(self).total as int, old(self).done + 1),
                        ),
                    )
                    &&& match res {
                        Ok(ls) => {
                            &&& final(self).succeeded == old(self).succeeded + 1
                            &&& final(self).failed == old(self).failed
                            &&& extra_logs == ls
                        },
                        Err(e) => {
                            &&& final(self).failed == old(self).failed + 1
                            &&& final(self).succeeded == old(self).succeeded
                            &&& extra_logs@.len() == 1
                            &&& extra_logs@[0]@ == "[error] "@ + k@ + " failed: "@ + e@
                        },
                    }
                },
                InstallMsg::Finished => {
                    &&& final(self).eta_seconds is None
                    &&& final(self).done == old(self).done
                    &&& final(self).succeeded == old(self).succeeded
                    &&& final(self).failed == old(self).failed
                    &&& final(self).operation == old(self).operation
                    &&& final(self).current == old(self).current
                    &&& final(self).speed == old(self).speed
                    &&& final(self).sub_num == old(self).sub_num
                    &&& final(self).sub_den == old(self).sub_den
                    &&& final(self).done_items == old(self).done_items
                    &&& extra_logs@.len() == 0
                },
            },
    {
        match msg {
            InstallMsg::Progress(k, op, sp) => {
                self.current = k;
                self.operation = op;
                self.speed = sp;
                Vec::new()
            },
            InstallMsg::SubProgress(n, d) => {
                self.sub_num = n;
                self.sub_den = d;
                Vec::new()
            },
            InstallMsg::Log(l) => {
                let mut v: Vec<String> = Vec::new();
                v.push(l);
                v
            },
            InstallMsg::Done(k, res) => {
                let (logs, ok): (Vec<String>, bool) = match res {
                    Ok(ls) => (ls, true),
                    Err(e) => {
                        let mut v: Vec<String> = Vec::new();
                        v.push(
                            cat(
                                cat(cat("[error] ", k.as_str()).as_str(), " failed: ").as_str(),
                                e.as_str(),
                            ),
                        );
                        (v, false)
                    },
                };
                if ok {
                    self.succeeded = self.succeeded + 1;
                } else {
                    self.failed = self.failed + 1;
                }
                self.done_items.push(k);
                self.done = self.done + 1;
                self.sub_num = 0;
                self.sub_den = 1;
                let remaining: usize = if self.total > self.done {
                    self.total - self.done
                } else {
                    0
                };
                proof {
                    assert((remaining as int) * (elapsed_secs as int)
                        < 0x100000000000000000000000000000000int) by (nonlinear_arith)
                        requires
                            (remaining as int) < 0x10000000000000000int,
                            (elapsed_secs as int) < 0x10000000000000000int,
                            (remaining as int) >= 0,
                            (elapsed_secs as int) >= 0,
                    {}
                }
                let q: u128 = (remaining as u128) * (elapsed_secs as u128) / (self.done as u128);
                let eta: u64 = if q > u64::MAX as u128 {
                    u64::MAX
                } else {
                    q as u64
                };
                self.eta_seconds = Some(eta);
                logs
            },
            InstallMsg::Finished => {
                self.eta_seconds = None;
                Vec::new()
            },
        }
    }
}

} // verus!
