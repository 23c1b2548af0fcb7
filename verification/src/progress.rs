use crate::models::{event_views, ProgressEvent, ProgressEventView};
use crate::text::{contains_text, str_contains};
use crate::tree::{lemma_child_is_smaller, FsNode};
use vstd::prelude::*;
use vstd::string::StringExecFns;

verus! {

/// The notification that the scan is at `file` in `dir`, at the stage `status`.
pub open spec fn event(dir: Seq<char>, file: Seq<char>, status: Seq<char>) -> ProgressEventView {
    ProgressEventView { current_path: dir, current_file: file, status: status }
}

/// Appends one notification to the log.
pub fn emit_progress(
    events: &mut Vec<ProgressEvent>,
    current_path: &str,
    current_file: &str,
    status: &str,
)
    ensures
        event_views(final(events)@) == event_views(old(events)@).push(
            event(current_path@, current_file@, status@),
        ),
{
    let e = ProgressEvent {
        current_path: String::from_str(current_path),
        current_file: String::from_str(current_file),
        status: String::from_str(status),
    };
    events.push(e);
    assert(event_views(events@) =~= event_views(old(events)@).push(
        event(current_path@, current_file@, status@),
    ));
}

/// One notification for each enumerated entry of the directory at `dir`, in
/// the order in which they were enumerated.
pub open spec fn enumerated_events(dir: Seq<char>, s: Seq<FsNode>) -> Seq<ProgressEventView> {
    Seq::new(s.len(), |i: int| event(dir, s[i].path@, "processing_file"@))
}

/// The notifications of summing the bytes under `dir`: one for each entry as it
/// is enumerated, then those of the directories among the entries, each summed
/// in its turn. A directory that could not be opened gives none.
pub open spec fn scanned_events(dir: FsNode) -> Seq<ProgressEventView>
    decreases dir, 0int,
{
    match dir.children {
        None => Seq::empty(),
        Some(v) => enumerated_events(dir.path@, v@) + entries_events(v@),
    }
}

/// The notifications of taking one entry into a sum: those of summing it where
/// it is a directory, none for anything else.
pub open spec fn entry_events(node: FsNode) -> Seq<ProgressEventView>
    decreases node, 1int,
{
    match node.meta {
        None => Seq::empty(),
        Some(m) => if m.is_dir {
            scanned_events(node)
        } else {
            Seq::empty()
        },
    }
}

/// The notifications of taking a sequence of entries into a sum, one after the
/// other.
pub open spec fn entries_events(s: Seq<FsNode>) -> Seq<ProgressEventView>
    decreases s, 2int,
{
    if s.len() == 0 {
        Seq::empty()
    } else {
        entries_events(s.drop_last()) + entry_events(s.last())
    }
}

/// The notifications of one aggregation: that it starts on `dir`, then those of
/// the summing.
pub open spec fn aggregation_events(dir: FsNode) -> Seq<ProgressEventView> {
    seq![event(dir.path@, dir.path@, "calculating_directory_size"@)] + scanned_events(dir)
}

/// Appends the notifications of summing the bytes under `dir`.
pub fn push_scanned_events(dir: &FsNode, events: &mut Vec<ProgressEvent>)
    ensures
        event_views(final(events)@) == event_views(old(events)@) + scanned_events(*dir),
    decreases *dir,
{
    let ghost before = event_views(events@);
    match &dir.children {
        None => {
            assert(event_views(events@) =~= before + Seq::<ProgressEventView>::empty());
        },
        Some(children) => {
            let mut i: usize = 0;
            assert(event_views(events@) =~= before + enumerated_events(
                dir.path@,
                children@.take(0),
            ));
            while i < children.len()
                invariant
                    i <= children.len(),
                    event_views(events@) == before + enumerated_events(
                        dir.path@,
                        children@.take(i as int),
                    ),
                decreases children.len() - i,
            {
                emit_progress(events, dir.path.as_str(), children[i].path.as_str(), "processing_file");
                assert(event_views(events@) =~= before + enumerated_events(
                    dir.path@,
                    children@.take(i as int + 1),
                ));
                i = i + 1;
            }
            assert(children@.take(i as int) =~= children@);
            let ghost listed = event_views(events@);
            let mut k: usize = 0;
            assert(event_views(events@) =~= listed + entries_events(children@.take(0)));
            while k < children.len()
                invariant
                    k <= children.len(),
                    dir.children == Some(*children),
                    event_views(events@) == listed + entries_events(children@.take(k as int)),
                decreases children.len() - k,
            {
                let child = &children[k];
                let ghost so_far = event_views(events@);
                proof {
                    assert(children@.take(k as int + 1).drop_last() =~= children@.take(k as int));
                    assert(children@.take(k as int + 1).last() == children@[k as int]);
                    lemma_child_is_smaller(*dir, k as int);
                }
                match child.meta {
                    None => {
                        assert(so_far + Seq::<ProgressEventView>::empty() =~= so_far);
                    },
                    Some(m) => {
                        if m.is_dir {
                            push_scanned_events(child, events);
                        } else {
                            assert(so_far + Seq::<ProgressEventView>::empty() =~= so_far);
                        }
                    },
                }
                proof {
                    let done = entries_events(children@.take(k as int));
                    let step = entry_events(children@[k as int]);
                    assert(listed + done + step =~= listed + (done + step));
                }
                k = k + 1;
            }
            proof {
                assert(children@.take(k as int) =~= children@);
                assert(before + enumerated_events(dir.path@, children@) + entries_events(children@)
                    =~= before + (enumerated_events(dir.path@, children@) + entries_events(
                    children@,
                )));
            }
        },
    }
}

/// Appends the notifications of one aggregation on `dir`.
pub fn push_aggregation_events(dir: &FsNode, events: &mut Vec<ProgressEvent>)
    ensures
        event_views(final(events)@) == event_views(old(events)@) + aggregation_events(*dir),
{
    let ghost before = event_views(events@);
    emit_progress(events, dir.path.as_str(), dir.path.as_str(), "calculating_directory_size");
    push_scanned_events(dir, events);
    proof {
        let first = event(dir.path@, dir.path@, "calculating_directory_size"@);
        assert(before.push(first) + scanned_events(*dir) =~= before + (seq![first] + scanned_events(
            *dir,
        )));
    }
}

/// The notifications of a search for `filter` under `dir`: that the search is
/// in `dir`, then those of its entries in the order in which they were
/// enumerated.
pub open spec fn search_events(dir: FsNode, filter: Seq<char>) -> Seq<ProgressEventView>
    decreases dir, 0int,
{
    seq![event(dir.path@, dir.path@, "searching_in_directory"@)] + match dir.children {
        None => Seq::empty(),
        Some(v) => searched_among(dir.path@, v@, filter),
    }
}

/// The notifications of one entry in a search of the directory at `dir`. An
/// entry whose stat failed gives none. Any other is checked; a directory that
/// matches is then summed between two notifications of its own, and one that
/// does not match is searched.
pub open spec fn searched_of(dir: Seq<char>, node: FsNode, filter: Seq<char>) -> Seq<
    ProgressEventView,
>
    decreases node, 1int,
{
    match node.meta {
        None => Seq::empty(),
        Some(m) => seq![event(dir, node.path@, "checking_file"@)] + (if !m.is_dir {
            Seq::empty()
        } else if contains_text(node.name@, filter) {
            seq![event(dir, node.path@, "calculating_matching_directory"@)] + aggregation_events(
                node,
            ) + seq![event(dir, node.path@, "matching_directory_completed"@)]
        } else {
            search_events(node, filter)
        }),
    }
}

/// The notifications of a sequence of entries in a search, one after the other.
pub open spec fn searched_among(dir: Seq<char>, s: Seq<FsNode>, filter: Seq<char>) -> Seq<
    ProgressEventView,
>
    decreases s, 2int,
{
    if s.len() == 0 {
        Seq::empty()
    } else {
        searched_among(dir, s.drop_last(), filter) + searched_of(dir, s.last(), filter)
    }
}

/// Appends the notifications of a search for `filter` under `dir`.
pub fn push_search_events(dir: &FsNode, filter: &str, events: &mut Vec<ProgressEvent>)
    ensures
        event_views(final(events)@) == event_views(old(events)@) + search_events(*dir, filter@),
    decreases *dir,
{
    let ghost before = event_views(events@);
    let ghost first = event(dir.path@, dir.path@, "searching_in_directory"@);
    emit_progress(events, dir.path.as_str(), dir.path.as_str(), "searching_in_directory");
    match &dir.children {
        None => {
            assert(before.push(first) =~= before + (seq![first] + Seq::<ProgressEventView>::empty()));
        },
        Some(children) => {
            let ghost started = event_views(events@);
            let mut k: usize = 0;
            assert(event_views(events@) =~= started + searched_among(
                dir.path@,
                children@.take(0),
                filter@,
            ));
            while k < children.len()
                invariant
                    k <= children.len(),
                    dir.children == Some(*children),
                    event_views(events@) == started + searched_among(
                        dir.path@,
                        children@.take(k as int),
                        filter@,
                    ),
                decreases children.len() - k,
            {
                let child = &children[k];
                let ghost so_far = event_views(events@);
                proof {
                    assert(children@.take(k as int + 1).drop_last() =~= children@.take(k as int));
                    assert(children@.take(k as int + 1).last() == children@[k as int]);
                    lemma_child_is_smaller(*dir, k as int);
                }
                match child.meta {
                    None => {
                        assert(so_far + Seq::<ProgressEventView>::empty() =~= so_far);
                    },
                    Some(m) => {
                        let ghost checking = event(dir.path@, child.path@, "checking_file"@);
                        emit_progress(
                            events,
                            dir.path.as_str(),
                            child.path.as_str(),
                            "checking_file",
                        );
                        if !m.is_dir {
                            assert(so_far.push(checking) =~= so_far + (seq![checking] + Seq::<
                                ProgressEventView,
                            >::empty()));
                        } else if str_contains(child.name.as_str(), filter) {
                            let ghost opening = event(
                                dir.path@,
                                child.path@,
                                "calculating_matching_directory"@,
                            );
                            let ghost closing = event(
                                dir.path@,
                                child.path@,
                                "matching_directory_completed"@,
                            );
                            emit_progress(
                                events,
                                dir.path.as_str(),
                                child.path.as_str(),
                                "calculating_matching_directory",
                            );
                            push_aggregation_events(child, events);
                            emit_progress(
                                events,
                                dir.path.as_str(),
                                child.path.as_str(),
                                "matching_directory_completed",
                            );
                            assert(event_views(events@) =~= so_far + (seq![checking] + (seq![
                                opening,
                            ] + aggregation_events(*child) + seq![closing])));
                        } else {
                            push_search_events(child, filter, events);
                            assert(event_views(events@) =~= so_far + (seq![checking]
                                + search_events(*child, filter@)));
                        }
                    },
                }
                proof {
                    let done = searched_among(dir.path@, children@.take(k as int), filter@);
                    let step = searched_of(dir.path@, children@[k as int], filter@);
                    assert(started + done + step =~= started + (done + step));
                }
                k = k + 1;
            }
            proof {
                assert(children@.take(k as int) =~= children@);
                assert(before.push(first) + searched_among(dir.path@, children@, filter@) =~= before
                    + (seq![first] + searched_among(dir.path@, children@, filter@)));
            }
        },
    }
}

} // verus!
