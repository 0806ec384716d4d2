//! Which editor an answer from outside goes to.
use crate::state::AviaryApp;
use vstd::prelude::*;

verus! {

impl AviaryApp {
    /// Every editor that an answer can go to: those of the composers, then the reply beside
    /// the reader, then the one that is being prepared there.
    pub fn block_editors(&self, inline_reply: Option<u64>, pending: Option<u64>) -> (editors: Vec<u64>)
        ensures
            editors@ == self.composes.deep_view().map_values(
                |handle: crate::state::ComposeHandleView| handle.id,
            ) + one(inline_reply) + one(pending),
    {
        let mut editors: Vec<u64> = Vec::new();
        let ghost all = self.composes.deep_view().map_values(|handle: crate::state::ComposeHandleView| handle.id);
        let mut i: usize = 0;
        while i < self.composes.len()
            invariant
                i <= self.composes.len(),
                all == self.composes.deep_view().map_values(|handle: crate::state::ComposeHandleView| handle.id),
                editors@ == all.take(i as int),
            decreases self.composes.len() - i,
        {
            assert(self.composes.deep_view()[i as int] == self.composes[i as int].deep_view());
            editors.push(self.composes[i].id);
            assert(editors@ =~= all.take(i + 1));
            i += 1;
        }
        assert(all.take(all.len() as int) =~= all);
        if let Some(id) = inline_reply {
            editors.push(id);
        }
        assert(editors@ =~= all + one(inline_reply));
        if let Some(id) = pending {
            editors.push(id);
        }
        assert(editors@ =~= all + one(inline_reply) + one(pending));
        editors
    }
}

/// None or one.
pub open spec fn one(id: Option<u64>) -> Seq<u64> {
    match id {
        Some(id) => seq![id],
        None => Seq::empty(),
    }
}

/// The editor that is offered an answer next, after the first `offered` were: none once one
/// of them took it.
pub fn next_editor(editors: &Vec<u64>, offered: usize, taken: bool) -> (next: Option<u64>)
    ensures
        next == (if !taken && offered < editors.len() {
            Some(editors[offered as int])
        } else {
            None
        }),
{
    if !taken && offered < editors.len() {
        Some(editors[offered])
    } else {
        None
    }
}

} // verus!
