//! Reconciling a timing report with the graph.
//!
//! A report has one record per compiled unit, and a package may have
//! several units: its library, a build script, a binary. The time of a
//! package is the sum over its units, and its start the earliest of theirs.
//! Build scripts compile early and apart from the rest, so they count only
//! for a package that has no other unit in the report.

use crate::critical_path::{compute_critical_path, critical_path_of};
use crate::model::{BuildGraph, GraphView, NodeView};
use crate::text::{find_subslice, occurs_at, occurs_in};
use crate::time::{Milliseconds, NANOS_PER_MILLI};
use vstd::prelude::*;
use vstd::string::*;
use vstd::utf8::encode_utf8;

verus! {

/// The timing of one compiled unit.
#[derive(Debug)]
pub struct UnitTiming {
    /// The name of the package that the unit belongs to.
    pub name: String,
    /// The version of that package.
    pub version: String,
    /// What kind of unit it is, as the report labels it.
    pub target: String,
    /// When the unit started compiling, from the start of the build.
    pub start: Milliseconds,
    /// How long the unit took to compile.
    pub duration: Milliseconds,
}

/// What a [`UnitTiming`] holds, as plain mathematical values. Times are in
/// nanoseconds.
pub struct UnitView {
    pub name: Seq<char>,
    pub version: Seq<char>,
    pub target: Seq<char>,
    pub start: u64,
    pub duration: u64,
}

impl View for UnitTiming {
    type V = UnitView;

    open spec fn view(&self) -> UnitView {
        UnitView {
            name: self.name@,
            version: self.version@,
            target: self.target@,
            start: self.start.nanos(),
            duration: self.duration.nanos(),
        }
    }
}

/// The views of a list of unit timings, in order.
pub open spec fn unit_views(v: Seq<UnitTiming>) -> Seq<UnitView> {
    Seq::new(v.len(), |i: int| v[i]@)
}

/// A package whose units took less than this many nanoseconds in all was
/// reused from cache.
pub const FRESH_BELOW_NANOS: u64 = NANOS_PER_MILLI;

/// Whether a target label names a build script: its text holds
/// `build script`. Both are taken as UTF-8 bytes.
pub open spec fn is_build_script(target: Seq<char>) -> bool {
    occurs_in(encode_utf8(target), encode_utf8("build script"@))
}

/// Whether the unit `u` counts for the package `name` at `version`; with
/// `skip_build_scripts`, a build script does not.
pub open spec fn counts(u: UnitView, name: Seq<char>, version: Seq<char>, skip_build_scripts: bool)
    -> bool {
    u.name == name && u.version == version && (skip_build_scripts ==> !is_build_script(u.target))
}

/// The sum of the durations of those of the first `upto` units that count.
pub open spec fn total_duration(
    units: Seq<UnitView>,
    name: Seq<char>,
    version: Seq<char>,
    skip_build_scripts: bool,
    upto: nat,
) -> int
    decreases upto,
{
    if upto == 0 || upto > units.len() {
        0
    } else {
        let before = total_duration(units, name, version, skip_build_scripts, (upto - 1) as nat);
        if counts(units[upto - 1], name, version, skip_build_scripts) {
            before + units[upto - 1].duration
        } else {
            before
        }
    }
}

/// The earliest start among those of the first `upto` units that count;
/// `None` if none counts.
pub open spec fn earliest_start(
    units: Seq<UnitView>,
    name: Seq<char>,
    version: Seq<char>,
    skip_build_scripts: bool,
    upto: nat,
) -> Option<u64>
    decreases upto,
{
    if upto == 0 || upto > units.len() {
        None
    } else {
        let before = earliest_start(units, name, version, skip_build_scripts, (upto - 1) as nat);
        if counts(units[upto - 1], name, version, skip_build_scripts) {
            match before {
                Some(s) if s <= units[upto - 1].start => Some(s),
                _ => Some(units[upto - 1].start),
            }
        } else {
            before
        }
    }
}

/// The largest span that can be represented, where `total` is beyond it;
/// else `total`.
pub open spec fn clamp_span(total: int) -> u64 {
    if total > u64::MAX {
        u64::MAX
    } else {
        total as u64
    }
}

/// The start and the duration attributed to a package, in nanoseconds.
pub struct Aggregate {
    pub start: u64,
    pub duration: u64,
}

/// The timing of the package `name` at `version` according to `units`: that
/// of its units other than build scripts if it has any, else that of all its
/// units, else none.
pub open spec fn package_timing(units: Seq<UnitView>, name: Seq<char>, version: Seq<char>)
    -> Option<Aggregate> {
    let n = units.len();
    match earliest_start(units, name, version, true, n) {
        Some(start) => Some(
            Aggregate { start, duration: clamp_span(total_duration(units, name, version, true, n)) },
        ),
        None => match earliest_start(units, name, version, false, n) {
            Some(start) => Some(
                Aggregate {
                    start,
                    duration: clamp_span(total_duration(units, name, version, false, n)),
                },
            ),
            None => None,
        },
    }
}

/// The node `node` with the timing that `units` give its package; unchanged
/// where they give none.
pub open spec fn timed_node(node: NodeView, units: Seq<UnitView>) -> NodeView {
    match package_timing(units, node.name, node.version) {
        Some(t) => NodeView {
            duration: Some(t.duration),
            start: Some(t.start),
            fresh: t.duration < FRESH_BELOW_NANOS,
            ..node
        },
        None => node,
    }
}

/// The graph `g` with every node timed by `units`.
pub open spec fn reconciled(g: GraphView, units: Seq<UnitView>) -> GraphView {
    GraphView { nodes: Seq::new(g.nodes.len(), |i: int| timed_node(g.nodes[i], units)), ..g }
}

/// The graph `g` with its critical path computed.
pub open spec fn solved(g: GraphView) -> GraphView {
    GraphView { critical_path: critical_path_of(g), ..g }
}

/// Whether the target label `target` names a build script.
pub fn names_build_script(target: &str) -> (r: bool)
    ensures
        r == is_build_script(target@),
{
    let found = find_subslice(target.as_bytes(), "build script".as_bytes(), 0);
    proof {
        let hay = encode_utf8(target@);
        let needle = encode_utf8("build script"@);
        if found.is_none() {
            assert forall|at: int| !occurs_at(hay, needle, at) by {
                if at >= 0 {
                    assert(0 <= at);
                }
            }
        }
    }
    found.is_some()
}

/// The earlier of an earliest start so far and `start`.
fn earlier(so_far: Option<u64>, start: u64) -> (r: u64)
    ensures
        Some(r) == match so_far {
            Some(s) if s <= start => Some(s),
            _ => Some(start),
        },
{
    match so_far {
        Some(s) => if s <= start {
            s
        } else {
            start
        },
        None => start,
    }
}

/// The timing of the package `name` at `version` according to `units`.
pub fn aggregate(units: &Vec<UnitTiming>, name: &String, version: &String) -> (r: Option<
    (Milliseconds, Milliseconds),
>)
    ensures
        match r {
            Some(t) => package_timing(unit_views(units@), name@, version@) == Some(
                Aggregate { start: t.0.nanos(), duration: t.1.nanos() },
            ),
            None => package_timing(unit_views(units@), name@, version@).is_none(),
        },
{
    let ghost us = unit_views(units@);
    let mut main_start: Option<u64> = None;
    let mut main_total: u64 = 0;
    let mut all_start: Option<u64> = None;
    let mut all_total: u64 = 0;
    let mut i: usize = 0;
    while i < units.len()
        invariant
            us == unit_views(units@),
            i <= units.len(),
            main_start == earliest_start(us, name@, version@, true, i as nat),
            main_total == clamp_span(total_duration(us, name@, version@, true, i as nat)),
            all_start == earliest_start(us, name@, version@, false, i as nat),
            all_total == clamp_span(total_duration(us, name@, version@, false, i as nat)),
            0 <= total_duration(us, name@, version@, true, i as nat),
            0 <= total_duration(us, name@, version@, false, i as nat),
        decreases units.len() - i,
    {
        let unit = &units[i];
        assert(us[i as int] == unit@);
        if unit.name == *name && unit.version == *version {
            let start: u64 = unit.start.as_nanos();
            let duration: u64 = unit.duration.as_nanos();
            all_start = Some(earlier(all_start, start));
            all_total = all_total.saturating_add(duration);
            if !names_build_script(unit.target.as_str()) {
                main_start = Some(earlier(main_start, start));
                main_total = main_total.saturating_add(duration);
            }
        }
        i += 1;
    }
    match main_start {
        Some(start) => Some((Milliseconds::from_nanos(start), Milliseconds::from_nanos(main_total))),
        None => match all_start {
            Some(start) => Some(
                (Milliseconds::from_nanos(start), Milliseconds::from_nanos(all_total)),
            ),
            None => None,
        },
    }
}

/// Gives every node the timing that `units` hold for its package, then
/// computes the critical path.
///
/// A node whose package has units in the report gets their earliest start
/// and the sum of their durations, and is marked fresh if that sum is below
/// [`FRESH_BELOW_NANOS`]; build scripts count only where the package has no
/// other unit. A sum beyond the largest span is held at the largest span. A
/// node whose package has no unit keeps what it had.
pub fn apply_timings(graph: &mut BuildGraph, units: &Vec<UnitTiming>)
    ensures
        final(graph)@ == solved(reconciled(old(graph)@, unit_views(units@))),
        final(graph)@.well_formed(),
{
    let ghost before = graph@;
    let ghost us = unit_views(units@);
    let n: usize = graph.nodes().len();
    let mut v: usize = 0;
    while v < n
        invariant
            us == unit_views(units@),
            n == before.nodes.len(),
            v <= n,
            graph@.well_formed(),
            graph@.nodes.len() == n,
            forall|i: int| 0 <= i < v ==> #[trigger] graph@.nodes[i] == timed_node(before.nodes[i], us),
            forall|i: int| v <= i < n ==> #[trigger] graph@.nodes[i] == before.nodes[i],
            graph@.edges == before.edges,
            graph@.roots == before.roots,
            graph@.critical_path == before.critical_path,
        decreases n - v,
    {
        let timing = {
            let nodes = graph.nodes();
            assert(nodes@[v as int]@ == graph@.nodes[v as int]);
            aggregate(units, &nodes[v].name, &nodes[v].version)
        };
        match timing {
            Some(t) => {
                let fresh = t.1.as_nanos() < FRESH_BELOW_NANOS;
                graph.set_timing(v, t.0, t.1, fresh);
            },
            None => {},
        }
        v += 1;
    }
    assert(graph@.nodes =~= reconciled(before, us).nodes);
    assert(graph@ == reconciled(before, us));
    compute_critical_path(graph);
}

} // verus!
