use crate::aggregate::calculate_dir_size;
use crate::format::{decimal, push_decimal, size_display};
use crate::listing::{filter_of, listing, listing_in_order};
use crate::models::{
    entry_views,
    event_views,
    Cli,
    FileEntry,
    ProgressEvent,
    ProgressEventView,
    ScanError,
};
use crate::order::{by_name, name_order, picked};
use crate::progress::{
    aggregation_events,
    emit_progress,
    event,
    push_aggregation_events,
    push_search_events,
    search_events,
};
use crate::text::{contains_text, str_contains};
use crate::tree::{dir_size, FsNode};
use crate::walker::{collect_matches, matches_under};
use vstd::prelude::*;
use vstd::string::StringExecFns;

verus! {

/// The distance between two milestones of a listing of `total` entries: a
/// tenth of them, and at least one.
pub open spec fn milestone_step(total: nat) -> nat {
    if total / 10 >= 1 {
        total / 10
    } else {
        1
    }
}

/// The share of a listing that lies before the entry at `index`, in percent,
/// cut off.
pub open spec fn percent_done(index: nat, total: nat) -> nat
    recommends
        index < total,
{
    index * 100 / total
}

/// The status of a milestone: `progress_`, the percentage and `%`.
pub open spec fn milestone_status(index: nat, total: nat) -> Seq<char>
    recommends
        index < total,
{
    "progress_"@ + decimal(percent_done(index, total)) + seq!['%']
}

/// The notifications of listing the entry `node`, the one at `index` of the
/// `total` entries of the root at `root`.
///
/// It is taken up, under its name; where it stands at a milestone, the progress
/// is told. An entry whose stat failed gives no more, nor does, with a filter,
/// one that is no directory. With a filter, a directory that does not match is
/// searched. Any other entry is listed: a directory is summed between two
/// notifications of its own, and the entry is told to be completed.
pub open spec fn listed_events_of(
    root: Seq<char>,
    node: FsNode,
    index: nat,
    total: nat,
    filter: Option<Seq<char>>,
) -> Seq<ProgressEventView> {
    let taken = seq![event(root, node.name@, "processing"@)];
    let told = if index % milestone_step(total) == 0 {
        seq![event(root, node.name@, milestone_status(index, total))]
    } else {
        Seq::empty()
    };
    let rest = match node.meta {
        None => Seq::empty(),
        Some(m) => if filter is Some && !m.is_dir {
            Seq::empty()
        } else if filter is Some && !contains_text(node.name@, filter->0) {
            search_events(node, filter->0)
        } else {
            let summed = if m.is_dir {
                seq![event(root, node.path@, "calculating_directory_size"@)] + aggregation_events(
                    node,
                ) + seq![event(root, node.path@, "directory_calculation_completed"@)]
            } else {
                Seq::empty()
            };
            summed + seq![event(root, node.path@, "completed"@)]
        },
    };
    taken + told + rest
}

/// The notifications of listing the first entries of a root, `s`, out of
/// `total`.
pub open spec fn listed_events_among(
    root: Seq<char>,
    s: Seq<FsNode>,
    total: nat,
    filter: Option<Seq<char>>,
) -> Seq<ProgressEventView>
    decreases s.len(),
{
    if s.len() == 0 {
        Seq::empty()
    } else {
        listed_events_among(root, s.drop_last(), total, filter) + listed_events_of(
            root,
            s.last(),
            (s.len() - 1) as nat,
            total,
            filter,
        )
    }
}

/// The notifications of one listing of a root that could be opened: none
/// without `long_format`, else those of its entries in the order of their
/// names.
pub open spec fn listing_events(root: FsNode, args: Cli) -> Seq<ProgressEventView>
    recommends
        root.children is Some,
{
    if !args.long_format {
        Seq::empty()
    } else {
        listed_events_among(
            root.path@,
            by_name(root.children->0@),
            root.children->0@.len(),
            filter_of(args),
        )
    }
}

/// The status of the milestone at `index` of `total`.
pub fn milestone_tag(index: usize, total: usize) -> (tag: String)
    requires
        index < total,
    ensures
        tag@ == milestone_status(index as nat, total as nat),
{
    let wide: u128 = (index as u128) * 100;
    let percent: u128 = wide / (total as u128);
    proof {
        assert(percent < 100) by (nonlinear_arith)
            requires
                wide == index * 100,
                percent == wide / (total as u128),
                index < total,
        ;
    }
    let mut tag = String::from_str("progress_");
    push_decimal(&mut tag, percent as u64);
    tag.push('%');
    proof {
        assert(tag@ =~= milestone_status(index as nat, total as nat));
    }
    tag
}

/// Appends the notifications of listing the entry at `index` in the order of
/// names.
fn push_listed_events(
    root: &FsNode,
    node: &FsNode,
    index: usize,
    total: usize,
    args: &Cli,
    events: &mut Vec<ProgressEvent>,
)
    requires
        index < total,
    ensures
        event_views(final(events)@) == event_views(old(events)@) + listed_events_of(
            root.path@,
            *node,
            index as nat,
            total as nat,
            filter_of(*args),
        ),
{
    let ghost before = event_views(events@);
    let ghost here = root.path@;
    let ghost taken = seq![event(here, node.name@, "processing"@)];
    emit_progress(events, root.path.as_str(), node.name.as_str(), "processing");
    let step: usize = if total / 10 >= 1 {
        total / 10
    } else {
        1
    };
    let ghost told: Seq<ProgressEventView>;
    if index % step == 0 {
        let tag = milestone_tag(index, total);
        emit_progress(events, root.path.as_str(), node.name.as_str(), tag.as_str());
        proof {
            told = seq![event(here, node.name@, milestone_status(index as nat, total as nat))];
        }
    } else {
        proof {
            told = Seq::empty();
        }
    }
    assert(event_views(events@) =~= before + (taken + told));
    let ghost so_far = event_views(events@);
    let ghost rest: Seq<ProgressEventView>;
    let mut listed_itself: Option<bool> = None;
    match node.meta {
        None => {},
        Some(m) => {
            match &args.name {
                Some(name) => {
                    if !m.is_dir {
                    } else if str_contains(node.name.as_str(), name.as_str()) {
                        listed_itself = Some(true);
                    } else {
                        push_search_events(node, name.as_str(), events);
                    }
                },
                None => {
                    listed_itself = Some(m.is_dir);
                },
            }
        },
    }
    match listed_itself {
        None => {
            proof {
                rest = event_views(events@).skip(so_far.len() as int);
                assert(event_views(events@) =~= so_far + rest);
                if node.meta is Some && args.name is Some && node.meta->0.is_dir {
                    assert(rest =~= search_events(*node, args.name->0@));
                } else {
                    assert(rest =~= Seq::<ProgressEventView>::empty());
                }
            }
        },
        Some(is_dir) => {
            assert(node.meta is Some && is_dir == node.meta->0.is_dir);
            let ghost summed: Seq<ProgressEventView>;
            if is_dir {
                emit_progress(
                    events,
                    root.path.as_str(),
                    node.path.as_str(),
                    "calculating_directory_size",
                );
                push_aggregation_events(node, events);
                emit_progress(
                    events,
                    root.path.as_str(),
                    node.path.as_str(),
                    "directory_calculation_completed",
                );
                proof {
                    summed = seq![event(here, node.path@, "calculating_directory_size"@)]
                        + aggregation_events(*node) + seq![
                        event(here, node.path@, "directory_calculation_completed"@),
                    ];
                }
            } else {
                proof {
                    summed = Seq::empty();
                }
            }
            assert(event_views(events@) =~= so_far + summed);
            emit_progress(events, root.path.as_str(), node.path.as_str(), "completed");
            proof {
                rest = summed + seq![event(here, node.path@, "completed"@)];
                assert(event_views(events@) =~= so_far + rest);
            }
        },
    }
    proof {
        assert(before + (taken + told) + rest =~= before + (taken + told + rest));
    }
}

/// Appends the notifications of listing the entries `children` of `root` in
/// the order `order`.
fn push_listing_events(
    root: &FsNode,
    children: &Vec<FsNode>,
    order: &Vec<usize>,
    args: &Cli,
    events: &mut Vec<ProgressEvent>,
)
    requires
        order@.len() == children@.len(),
        forall|i: int| 0 <= i < order@.len() ==> order@[i] < children@.len(),
    ensures
        event_views(final(events)@) == event_views(old(events)@) + listed_events_among(
            root.path@,
            picked(children@, order@),
            children@.len(),
            filter_of(*args),
        ),
{
    let ghost before = event_views(events@);
    let ghost sorted = picked(children@, order@);
    let ghost filter = filter_of(*args);
    let total: usize = children.len();
    let mut k: usize = 0;
    proof {
        assert(sorted.take(0) =~= Seq::<FsNode>::empty());
        assert(event_views(events@) =~= before + Seq::<ProgressEventView>::empty());
    }
    while k < order.len()
        invariant
            k <= order.len(),
            total == children@.len(),
            order@.len() == children@.len(),
            forall|i: int| 0 <= i < order@.len() ==> order@[i] < children@.len(),
            sorted == picked(children@, order@),
            filter == filter_of(*args),
            event_views(events@) == before + listed_events_among(
                root.path@,
                sorted.take(k as int),
                total as nat,
                filter,
            ),
        decreases order.len() - k,
    {
        let node = &children[order[k]];
        proof {
            assert(sorted[k as int] == *node);
            assert(sorted.take(k as int + 1).drop_last() =~= sorted.take(k as int));
            assert(sorted.take(k as int + 1).last() == sorted[k as int]);
        }
        push_listed_events(root, node, k, total, args, events);
        proof {
            let done = listed_events_among(root.path@, sorted.take(k as int), total as nat, filter);
            let step = listed_events_of(root.path@, *node, k as nat, total as nat, filter);
            assert(before + done + step =~= before + (done + step));
        }
        k = k + 1;
    }
    proof {
        assert(sorted.take(k as int) =~= sorted);
    }
}

/// The bytes under the directory `dir`, as a number and as it is shown, with
/// the notifications of the aggregation appended to `events`.
pub fn calculate_dir_size_with_events_simple(
    dir: &FsNode,
    human_readable: bool,
    parallel: bool,
    events: &mut Vec<ProgressEvent>,
) -> (r: (u64, String))
    requires
        dir_size(*dir) <= u64::MAX,
    ensures
        r.0 == dir_size(*dir),
        r.1@ == size_display(dir_size(*dir), human_readable),
        event_views(final(events)@) == event_views(old(events)@) + aggregation_events(*dir),
{
    push_aggregation_events(dir, events);
    calculate_dir_size(dir, human_readable, parallel)
}

/// Appends to `entries` one entry, with its creation time, for each directory
/// under `dir` whose name contains `name`, as far as the search reaches, and to
/// `events` the notifications of the search.
pub fn calculate_dir_size_with_events(
    dir: &FsNode,
    human_readable: bool,
    parallel: bool,
    name: &str,
    entries: &mut Vec<FileEntry>,
    events: &mut Vec<ProgressEvent>,
)
    requires
        dir_size(*dir) <= u64::MAX,
    ensures
        entry_views(final(entries)@) == entry_views(old(entries)@) + matches_under(
            *dir,
            name@,
            human_readable,
            true,
        ),
        event_views(final(events)@) == event_views(old(events)@) + search_events(*dir, name@),
{
    push_search_events(dir, name, events);
    collect_matches(dir, human_readable, parallel, name, true, entries)
}

/// Lists the entries of the directory `root`, each with its creation time, and
/// appends to `events` the notifications of the listing.
///
/// The one failure is a root that could not be opened; it leaves `events` as
/// they were.
pub fn list_directory_with_events(
    root: &FsNode,
    args: &Cli,
    events: &mut Vec<ProgressEvent>,
) -> (r: Result<Vec<FileEntry>, ScanError>)
    requires
        dir_size(*root) <= u64::MAX,
    ensures
        r is Err <==> root.children is None,
        r is Err ==> r == Err::<Vec<FileEntry>, ScanError>(ScanError::RootUnreadable),
        r is Err ==> event_views(final(events)@) == event_views(old(events)@),
        r is Ok ==> entry_views(r->Ok_0@) == listing(*root, *args, true),
        r is Ok ==> event_views(final(events)@) == event_views(old(events)@) + listing_events(
            *root,
            *args,
        ),
{
    match &root.children {
        None => Err(ScanError::RootUnreadable),
        Some(children) => {
            let order = name_order(children);
            if args.long_format {
                push_listing_events(root, children, &order, args, events);
            } else {
                assert(event_views(events@) =~= event_views(events@) + Seq::<
                    ProgressEventView,
                >::empty());
            }
            Ok(listing_in_order(children, &order, args, true))
        },
    }
}

} // verus!
