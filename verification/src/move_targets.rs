//! Where a message can be moved: the folder hierarchy of its account without the
//! folder it is in.
use crate::folder_tree::{
    folder_display_label, folder_label, has_id, is_child, is_root, lemma_fewer_left, other_id, Label, LabelView,
};
use crate::lists::retain_where;
use crate::model::{MailFolder, MailFolderView};
use vstd::prelude::*;

verus! {

/// A folder of the move menu with the folders below it.
#[derive(Debug)]
pub struct MoveFolderTarget {
    pub id: String,
    pub label: Label,
    pub children: Vec<MoveFolderTarget>,
}

/// A line of the move menu: what it is, and how deep it stands.
#[verifier::ext_equal]
pub struct TargetLine {
    pub id: Seq<char>,
    pub label: LabelView,
    pub depth: nat,
}

/// The lines of a target and of those below it, in menu order.
pub open spec fn target_lines(target: MoveFolderTarget, depth: nat) -> Seq<TargetLine>
    decreases target,
{
    seq![TargetLine { id: target.id@, label: target.label.deep_view(), depth }] + forest_lines(
        target.children@,
        depth + 1,
    )
}

/// The lines of several targets.
pub open spec fn forest_lines(targets: Seq<MoveFolderTarget>, depth: nat) -> Seq<TargetLine>
    decreases targets,
{
    if targets.len() == 0 {
        Seq::empty()
    } else {
        forest_lines(targets.drop_last(), depth) + target_lines(targets.last(), depth)
    }
}

/// Whether a folder is another one than the selected one.
pub open spec fn not_selected(selected: Option<Seq<char>>) -> spec_fn(MailFolderView) -> bool {
    |folder: MailFolderView| selected != Some(folder.id)
}

/// A folder that the walk has yet to visit, and how deep it stands.
#[verifier::ext_equal]
pub struct Stop {
    pub folder: MailFolderView,
    pub depth: nat,
}

/// `folders` as stops, the first to be visited last.
pub open spec fn stops(folders: Seq<MailFolderView>, depth: nat) -> Seq<Stop> {
    Seq::new(folders.len(), |i: int| Stop { folder: folders[folders.len() - 1 - i], depth })
}

/// The lines that the stops and all below them give, and the folders that are then
/// unvisited. The last of `stack` is visited first; a folder whose id was visited
/// before is passed over.
pub open spec fn visit(all: Seq<MailFolderView>, stack: Seq<Stop>, left: Seq<MailFolderView>) -> (
    Seq<TargetLine>,
    Seq<MailFolderView>,
)
    decreases left.len(), stack.len(),
    via visit_ends
{
    if stack.len() == 0 {
        (Seq::empty(), left)
    } else {
        let next = stack.last();
        let id = next.folder.id;
        if !left.any(has_id(id)) {
            visit(all, stack.drop_last(), left)
        } else {
            let below = stops(all.filter(is_child(all, id)), next.depth + 1);
            let (lines, unvisited) = visit(all, stack.drop_last() + below, left.filter(other_id(id)));
            let line = TargetLine { id, label: folder_label(next.folder), depth: next.depth };
            (seq![line] + lines, unvisited)
        }
    }
}

#[via_fn]
proof fn visit_ends(all: Seq<MailFolderView>, stack: Seq<Stop>, left: Seq<MailFolderView>) {
    if stack.len() > 0 {
        let id = stack.last().folder.id;
        if left.any(has_id(id)) {
            lemma_fewer_left(left, id);
        }
    }
}

/// The move menu of an account: the folders at the top with those below them, then
/// what only a cycle leads to. The children of the selected folder stand at the top,
/// because it is no destination itself.
pub open spec fn move_lines(folders: Seq<MailFolderView>, selected: Option<Seq<char>>) -> Seq<TargetLine> {
    let all = folders.filter(not_selected(selected));
    visit(all, stops(all.filter(is_root(all)) + all, 0), all).0
}

/// A walk over two stacks is a walk over the upper one, then over the lower one.
proof fn lemma_visit_split(all: Seq<MailFolderView>, lower: Seq<Stop>, upper: Seq<Stop>, left: Seq<MailFolderView>)
    ensures
        ({
            let (first, between) = visit(all, upper, left);
            let (second, after) = visit(all, lower, between);
            visit(all, lower + upper, left) == (first + second, after)
        }),
        visit(all, upper, left).1.len() <= left.len(),
    decreases left.len(), upper.len(),
{
    let (first, between) = visit(all, upper, left);
    let (second, after) = visit(all, lower, between);
    if upper.len() == 0 {
        assert(lower + upper =~= lower);
        assert(first + second =~= second);
    } else {
        let next = upper.last();
        let id = next.folder.id;
        assert((lower + upper).last() == next);
        assert((lower + upper).drop_last() =~= lower + upper.drop_last());
        if !left.any(has_id(id)) {
            lemma_visit_split(all, lower, upper.drop_last(), left);
        } else {
            lemma_fewer_left(left, id);
            let below = stops(all.filter(is_child(all, id)), next.depth + 1);
            let narrower = left.filter(other_id(id));
            lemma_visit_split(all, lower, upper.drop_last() + below, narrower);
            assert((lower + upper).drop_last() + below =~= lower + (upper.drop_last() + below));
            let (inner, _) = visit(all, upper.drop_last() + below, narrower);
            let line = TargetLine { id, label: folder_label(next.folder), depth: next.depth };
            assert(first == seq![line] + inner);
            assert((seq![line] + inner) + second =~= seq![line] + (inner + second));
        }
    }
}

/// The folders below the folder `id`, in the order of the account.
fn collect_below<'a>(all: &Vec<&'a MailFolder>, id: &String) -> (found: Vec<&'a MailFolder>)
    ensures
        found.deep_view() == all.deep_view().filter(is_child(all.deep_view(), id@)),
{
    retain_where(
        crate::folder_tree::copy_refs(all),
        |folder: &&'a MailFolder| -> (keep: bool)
            ensures
                keep == is_child(all.deep_view(), id@)(folder.deep_view())
            {
            let below = match &folder.parent_id {
                Some(parent) => *parent == *id,
                None => false,
            };
            below && !crate::folder_tree::stands_at_top(all, folder)
        },
        Ghost(is_child(all.deep_view(), id@)),
    )
}

/// Appends the targets of `folders` and of what is below them, returning the folders
/// that are then unvisited.
fn append_targets<'a>(
    all: &Vec<&'a MailFolder>,
    folders: &Vec<&'a MailFolder>,
    left: Vec<&'a MailFolder>,
    targets: &mut Vec<MoveFolderTarget>,
) -> (unvisited: Vec<&'a MailFolder>)
    ensures
        forall|depth: nat|
            #![trigger forest_lines(final(targets)@, depth)]
            forest_lines(final(targets)@, depth) == forest_lines(old(targets)@, depth) + visit(
                all.deep_view(),
                stops(folders.deep_view(), depth),
                left.deep_view(),
            ).0,
        forall|depth: nat|
            #![trigger stops(folders.deep_view(), depth)]
            unvisited.deep_view() == visit(all.deep_view(), stops(folders.deep_view(), depth), left.deep_view()).1,
        unvisited.len() <= left.len(),
    decreases left.len(),
{
    let ghost everything = all.deep_view();
    let ghost shown = folders.deep_view();
    let ghost first = left.deep_view();
    let ghost start = targets@;
    let mut pending = left;
    let mut i: usize = 0;
    proof {
        assert forall|depth: nat| #![trigger forest_lines(targets@, depth)] forest_lines(targets@, depth)
            == forest_lines(start, depth) + visit(everything, stops(shown.take(0), depth), first).0 by {
            assert(stops(shown.take(0), depth) =~= Seq::<Stop>::empty());
            assert(forest_lines(start, depth) + Seq::<TargetLine>::empty() =~= forest_lines(start, depth));
        }
        assert forall|depth: nat| pending.deep_view() == (#[trigger] visit(everything, stops(shown.take(0), depth), first)).1
            by {
            assert(stops(shown.take(0), depth) =~= Seq::<Stop>::empty());
        }
    }
    while i < folders.len()
        invariant
            i <= folders.len(),
            everything == all.deep_view(),
            shown == folders.deep_view(),
            pending.len() <= left.len(),
            first == left.deep_view(),
            forall|depth: nat|
                #![trigger forest_lines(targets@, depth)]
                forest_lines(targets@, depth) == forest_lines(start, depth) + visit(
                    everything,
                    stops(shown.take(i as int), depth),
                    first,
                ).0,
            forall|depth: nat|
                pending.deep_view() == (#[trigger] visit(everything, stops(shown.take(i as int), depth), first)).1,
        decreases folders.len() - i,
    {
        let folder = folders[i];
        let ghost before = pending.deep_view();
        let ghost targets_before = targets@;
        let ghost id = folder.id@;
        assert(shown[i as int] == folder.deep_view());
        assert(pending.deep_view().len() == pending.len());
        proof {
            assert forall|depth: nat| #![trigger stops(shown.take(i + 1), depth)] visit(
                everything,
                stops(shown.take(i + 1), depth),
                first,
            ) == ({
                let (done, between) = visit(everything, stops(shown.take(i as int), depth), first);
                let (more, after) = visit(everything, seq![Stop { folder: shown[i as int], depth }], between);
                (done + more, after)
            }) by {
                let stop = seq![Stop { folder: shown[i as int], depth }];
                assert(stops(shown.take(i + 1), depth) =~= stop + stops(shown.take(i as int), depth));
                lemma_visit_split(everything, stop, stops(shown.take(i as int), depth), first);
            }
        }
        if crate::folder_tree::any_has_id(&pending, &folder.id) {
            pending = retain_where(
                pending,
                |other: &&'a MailFolder| -> (keep: bool)
                    ensures
                        keep == (other.deep_view().id != folder.id@)
                    { other.id != folder.id },
                Ghost(other_id(folder.id@)),
            );
            proof {
                lemma_fewer_left(before, id);
                assert(pending.deep_view().len() == pending.len());
            }
            let ghost narrower = pending.deep_view();
            let nested = collect_below(all, &folder.id);
            let mut children: Vec<MoveFolderTarget> = Vec::new();
            pending = append_targets(all, &nested, pending, &mut children);
            let target = MoveFolderTarget {
                id: folder.id.clone(),
                label: folder_display_label(folder),
                children,
            };
            let ghost whole = target;
            targets.push(target);
            proof {
                assert forall|depth: nat| #![trigger forest_lines(targets@, depth)] forest_lines(targets@, depth)
                    == forest_lines(start, depth) + visit(everything, stops(shown.take(i + 1), depth), first).0 by {
                    let stop = seq![Stop { folder: shown[i as int], depth }];
                    assert(targets@.drop_last() =~= targets_before);
                    assert(forest_lines(targets_before, depth) == forest_lines(start, depth) + visit(
                        everything,
                        stops(shown.take(i as int), depth),
                        first,
                    ).0);
                    lemma_single_stop(everything, shown[i as int], depth, before);
                    let below = stops(nested.deep_view(), depth + 1);
                    assert(forest_lines(whole.children@, depth + 1) == forest_lines(
                        Seq::<MoveFolderTarget>::empty(),
                        depth + 1,
                    ) + visit(everything, below, narrower).0);
                    assert(forest_lines(whole.children@, depth + 1) =~= visit(everything, below, narrower).0);
                    assert(visit(everything, stops(shown.take(i as int), depth), first).1 == before);
                    assert(stops(shown.take(i + 1), depth) == stops(shown.take(i + 1), depth));
                    assert(target_lines(whole, depth) == visit(everything, stop, before).0);
                    assert(forest_lines(targets@, depth) == forest_lines(targets_before, depth) + target_lines(
                        whole,
                        depth,
                    ));
                    assert(forest_lines(targets@, depth) =~= forest_lines(start, depth) + visit(
                        everything,
                        stops(shown.take(i + 1), depth),
                        first,
                    ).0);
                }
                assert forall|depth: nat|
                    pending.deep_view() == (#[trigger] visit(everything, stops(shown.take(i + 1), depth), first)).1 by {
                    lemma_single_stop(everything, shown[i as int], depth, before);
                    assert(visit(everything, stops(shown.take(i as int), depth), first).1 == before);
                    let below = stops(nested.deep_view(), depth + 1);
                    assert(pending.deep_view() == visit(everything, below, narrower).1);
                    assert(stops(shown.take(i + 1), depth) == stops(shown.take(i + 1), depth));
                }
            }
        } else {
            proof {
                assert forall|depth: nat| #![trigger forest_lines(targets@, depth)] forest_lines(targets@, depth)
                    == forest_lines(start, depth) + visit(everything, stops(shown.take(i + 1), depth), first).0 by {
                    lemma_single_stop(everything, shown[i as int], depth, before);
                    assert(visit(everything, stops(shown.take(i as int), depth), first).1 == before);
                    assert(stops(shown.take(i + 1), depth) == stops(shown.take(i + 1), depth));
                    let done = visit(everything, stops(shown.take(i as int), depth), first).0;
                    assert(done + Seq::<TargetLine>::empty() =~= done);
                }
                assert forall|depth: nat|
                    pending.deep_view() == (#[trigger] visit(everything, stops(shown.take(i + 1), depth), first)).1 by {
                    lemma_single_stop(everything, shown[i as int], depth, before);
                    assert(visit(everything, stops(shown.take(i as int), depth), first).1 == before);
                    assert(stops(shown.take(i + 1), depth) == stops(shown.take(i + 1), depth));
                }
            }
        }
        i += 1;
    }
    assert(shown.take(shown.len() as int) =~= shown);
    pending
}

/// A walk from one folder: nothing when it was visited, else its line and what is below.
proof fn lemma_single_stop(all: Seq<MailFolderView>, folder: MailFolderView, depth: nat, left: Seq<MailFolderView>)
    ensures
        ({
            let stop = seq![Stop { folder, depth }];
            if left.any(has_id(folder.id)) {
                let below = stops(all.filter(is_child(all, folder.id)), depth + 1);
                let (lines, after) = visit(all, below, left.filter(other_id(folder.id)));
                visit(all, stop, left) == (
                    seq![TargetLine { id: folder.id, label: folder_label(folder), depth }] + lines,
                    after,
                )
            } else {
                visit(all, stop, left) == (Seq::<TargetLine>::empty(), left)
            }
        }),
{
    let stop = seq![Stop { folder, depth }];
    assert(stop.drop_last() =~= Seq::<Stop>::empty());
    assert(stop.last() == Stop { folder, depth });
    let below = stops(all.filter(is_child(all, folder.id)), depth + 1);
    assert(stop.drop_last() + below =~= below);
    reveal_with_fuel(visit, 2);
}

/// Builds the folder hierarchy of the move menu.
pub fn move_folder_targets(folders: &Vec<MailFolder>, selected_folder_id: Option<&String>) -> (targets: Vec<
    MoveFolderTarget,
>)
    ensures
        forest_lines(targets@, 0) == move_lines(folders.deep_view(), selected_folder_id.deep_view()),
{
    let ghost selected = selected_folder_id.deep_view();
    let mut all: Vec<&MailFolder> = Vec::new();
    let mut i: usize = 0;
    while i < folders.len()
        invariant
            i <= folders.len(),
            all.len() == i,
            forall|j: int| 0 <= j < i ==> *(#[trigger] all[j]) == folders[j],
        decreases folders.len() - i,
    {
        all.push(&folders[i]);
        i += 1;
    }
    assert(all.deep_view() =~= folders.deep_view());
    let all = retain_where(
        all,
        |folder: &&MailFolder| -> (keep: bool)
            ensures
                keep == not_selected(selected)(folder.deep_view())
            {
            match selected_folder_id {
                Some(id) => folder.id != *id,
                None => true,
            }
        },
        Ghost(not_selected(selected)),
    );
    let ghost everything = all.deep_view();
    let mut order = retain_where(
        crate::folder_tree::copy_refs(&all),
        |folder: &&MailFolder| -> (keep: bool)
            ensures
                keep == is_root(all.deep_view())(folder.deep_view())
            { crate::folder_tree::stands_at_top(&all, folder) },
        Ghost(is_root(all.deep_view())),
    );
    let ghost tops = order.deep_view();
    let mut rest = crate::folder_tree::copy_refs(&all);
    order.append(&mut rest);
    assert(order.deep_view() =~= tops + everything);
    let mut targets: Vec<MoveFolderTarget> = Vec::new();
    let left = crate::folder_tree::copy_refs(&all);
    let _unvisited = append_targets(&all, &order, left, &mut targets);
    proof {
        let lines = visit(everything, stops(order.deep_view(), 0), everything).0;
        assert(forest_lines(targets@, 0) == forest_lines(Seq::<MoveFolderTarget>::empty(), 0) + lines);
        assert(forest_lines(targets@, 0) =~= lines);
    }
    targets
}

/// Whether [`move_folder_targets`] would yield at least one entry.
pub fn has_move_folder_targets(folders: &Vec<MailFolder>, selected_folder_id: Option<&String>) -> (any: bool)
    ensures
        any == folders.deep_view().any(not_selected(selected_folder_id.deep_view())),
{
    let ghost selected = selected_folder_id.deep_view();
    crate::lists::any_where(
        folders,
        |folder: &MailFolder| -> (other: bool)
            ensures
                other == not_selected(selected)(folder.deep_view())
            {
            match selected_folder_id {
                Some(id) => folder.id != *id,
                None => true,
            }
        },
        Ghost(not_selected(selected)),
    )
}

/// The ids of lines.
pub open spec fn line_ids(lines: Seq<TargetLine>) -> Seq<Seq<char>> {
    lines.map_values(|line: TargetLine| line.id)
}

proof fn lemma_visit(all: Seq<MailFolderView>, stack: Seq<Stop>, left: Seq<MailFolderView>)
    ensures
        ({
            let (lines, after) = visit(all, stack, left);
            &&& line_ids(lines).no_duplicates()
            &&& forall|id: Seq<char>| #[trigger] line_ids(lines).contains(id) ==> left.any(has_id(id)) && !after.any(
                has_id(id),
            )
            &&& forall|id: Seq<char>| #[trigger] after.any(has_id(id)) ==> left.any(has_id(id))
            &&& forall|id: Seq<char>|
                left.any(has_id(id)) ==> #[trigger] line_ids(lines).contains(id) || after.any(has_id(id))
            &&& forall|i: int| 0 <= i < stack.len() ==> !after.any(has_id((#[trigger] stack[i]).folder.id))
        }),
    decreases left.len(), stack.len(),
{
    let (lines, after) = visit(all, stack, left);
    if stack.len() > 0 {
        let next = stack.last();
        let id = next.folder.id;
        let rest = stack.drop_last();
        if !left.any(has_id(id)) {
            lemma_visit(all, rest, left);
            assert forall|i: int| 0 <= i < stack.len() implies !after.any(
                has_id((#[trigger] stack[i]).folder.id),
            ) by {
                if i < rest.len() {
                    assert(rest[i] == stack[i]);
                }
            }
        } else {
            lemma_fewer_left(left, id);
            let below = stops(all.filter(is_child(all, id)), next.depth + 1);
            let narrower = left.filter(other_id(id));
            let deeper = rest + below;
            lemma_visit(all, deeper, narrower);
            let (inner, _) = visit(all, deeper, narrower);
            assert forall|other: Seq<char>| #[trigger] narrower.any(has_id(other)) <==> left.any(has_id(other))
                && other != id by {
                crate::folder_tree::lemma_any_other(left, id, other);
            }
            assert(!narrower.any(has_id(id)));
            assert forall|i: int| 0 <= i < stack.len() implies !after.any(
                has_id((#[trigger] stack[i]).folder.id),
            ) by {
                if i < rest.len() {
                    assert(deeper[i] == stack[i]);
                }
            }
            assert(line_ids(lines) =~= seq![id] + line_ids(inner));
            assert(!line_ids(inner).contains(id)) by {
                if line_ids(inner).contains(id) {
                    assert(narrower.any(has_id(id)));
                }
            }
            assert forall|other: Seq<char>| #[trigger] line_ids(lines).contains(other) <==> other == id || line_ids(
                inner,
            ).contains(other) by {
                if line_ids(inner).contains(other) {
                    let k = choose|k: int| 0 <= k < line_ids(inner).len() && line_ids(inner)[k] == other;
                    assert(line_ids(lines)[k + 1] == other);
                }
                if other == id {
                    assert(line_ids(lines)[0] == id);
                }
                if line_ids(lines).contains(other) {
                    let k = choose|k: int| 0 <= k < line_ids(lines).len() && line_ids(lines)[k] == other;
                    if k > 0 {
                        assert(line_ids(inner)[k - 1] == other);
                    }
                }
            }
            assert forall|other: Seq<char>| left.any(has_id(other)) implies #[trigger] line_ids(lines).contains(other)
                || after.any(has_id(other)) by {
                if other != id {
                    assert(narrower.any(has_id(other)));
                    assert(line_ids(inner).contains(other) || after.any(has_id(other)));
                }
            }
        }
    }
}

/// The move menu offers each folder but the selected one exactly once, however
/// malformed the hierarchy; it is empty only when there is no other folder.
pub proof fn law_move_menu_offers_each_folder_once(folders: Seq<MailFolderView>, selected: Option<Seq<char>>)
    ensures
        line_ids(move_lines(folders, selected)).no_duplicates(),
        forall|id: Seq<char>|
            #![trigger line_ids(move_lines(folders, selected)).contains(id)]
            line_ids(move_lines(folders, selected)).contains(id) <==> selected != Some(id) && folders.any(has_id(id)),
        move_lines(folders, selected).len() > 0 <==> folders.any(not_selected(selected)),
{
    let all = folders.filter(not_selected(selected));
    let order = all.filter(is_root(all)) + all;
    let stack = stops(order, 0);
    let (lines, after) = visit(all, stack, all);
    let ids = line_ids(move_lines(folders, selected));
    lemma_visit(all, stack, all);
    lemma_kept_ids(folders, selected);
    assert forall|id: Seq<char>| #![trigger ids.contains(id)] ids.contains(id) <==> selected != Some(id)
        && folders.any(has_id(id)) by {
        assert(all.any(has_id(id)) <==> folders.any(has_id(id)) && selected != Some(id));
        if all.any(has_id(id)) {
            let k = choose|k: int| 0 <= k < all.len() && has_id(id)(all[k]);
            let m = all.filter(is_root(all)).len() + k;
            assert(order[m] == all[k]);
            assert(stack[order.len() - 1 - m].folder == all[k]);
            assert(!after.any(has_id(id)));
            assert(line_ids(lines).contains(id) || after.any(has_id(id)));
        }
    }
    if folders.any(not_selected(selected)) {
        let k = choose|k: int| 0 <= k < folders.len() && not_selected(selected)(folders[k]);
        assert(has_id(folders[k].id)(folders[k]));
        assert(ids.contains(folders[k].id));
    }
    if move_lines(folders, selected).len() > 0 {
        let id = ids[0];
        assert(ids.contains(id));
        let k = choose|k: int| 0 <= k < folders.len() && has_id(id)(folders[k]);
        assert(not_selected(selected)(folders[k]));
    }
}

proof fn lemma_kept_ids(folders: Seq<MailFolderView>, selected: Option<Seq<char>>)
    ensures
        forall|id: Seq<char>|
            #[trigger] folders.filter(not_selected(selected)).any(has_id(id)) <==> folders.any(has_id(id)) && selected
                != Some(id),
    decreases folders.len(),
{
    reveal(Seq::filter);
    if folders.len() > 0 {
        let init = folders.drop_last();
        lemma_kept_ids(init, selected);
        assert(init.push(folders.last()) =~= folders);
        assert forall|id: Seq<char>|
            #[trigger] folders.filter(not_selected(selected)).any(has_id(id)) <==> folders.any(has_id(id)) && selected
                != Some(id) by {
            crate::message_list::lemma_any_push(init, folders.last(), has_id(id));
            crate::message_list::lemma_any_push(
                init.filter(not_selected(selected)),
                folders.last(),
                has_id(id),
            );
            assert(init.filter(not_selected(selected)).any(has_id(id)) <==> init.any(has_id(id)) && selected != Some(
                id,
            ));
        }
    }
}

} // verus!
