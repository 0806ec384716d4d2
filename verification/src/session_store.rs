//! Which snapshots of the session are written: of those that pile up only the latest, and
//! only where something changed.
use crate::text::text_eq;
use vstd::prelude::*;

verus! {

/// What the store of sessions is asked.
#[derive(Debug)]
pub enum Request<S, A> {
    /// Keep this snapshot.
    Save { snapshot: S },
    /// Say when everything asked so far was done.
    Flush { acknowledge: A },
}

/// Requests that were taken together: the snapshot to keep, and who waits.
#[derive(Debug)]
pub struct Batch<S, A> {
    pub latest: Option<S>,
    pub flushes: Vec<A>,
}

/// What the store does next.
#[derive(Debug)]
pub enum Action<A> {
    /// Write the session in this form.
    Write { form: String },
    /// Tell someone that everything asked so far was done.
    Acknowledge { acknowledge: A },
}

/// Mathematical form of [`Action`].
#[verifier::ext_equal]
pub enum ActionView<A> {
    Write { form: Seq<char> },
    Acknowledge { acknowledge: A },
}

impl<A> Action<A> {
    /// Mathematical form of the action.
    pub open spec fn shown(self) -> ActionView<A> {
        match self {
            Action::Write { form } => ActionView::Write { form: form@ },
            Action::Acknowledge { acknowledge } => ActionView::Acknowledge { acknowledge },
        }
    }
}

/// The actions of a list.
pub open spec fn actions_shown<A>(actions: Seq<Action<A>>) -> Seq<ActionView<A>> {
    actions.map_values(|action: Action<A>| action.shown())
}

/// The last snapshot among requests.
pub open spec fn latest_of<S, A>(requests: Seq<Request<S, A>>) -> Option<S>
    decreases requests.len(),
{
    if requests.len() == 0 {
        None
    } else {
        match requests.last() {
            Request::Save { snapshot } => Some(snapshot),
            Request::Flush { .. } => latest_of(requests.drop_last()),
        }
    }
}

/// Those who wait, in the order in which they asked.
pub open spec fn flushes_of<S, A>(requests: Seq<Request<S, A>>) -> Seq<A>
    decreases requests.len(),
{
    if requests.len() == 0 {
        Seq::empty()
    } else {
        match requests.last() {
            Request::Save { .. } => flushes_of(requests.drop_last()),
            Request::Flush { acknowledge } => flushes_of(requests.drop_last()).push(acknowledge),
        }
    }
}

impl<S, A> Batch<S, A> {
    /// Whether this batch stands for these requests.
    pub open spec fn stands_for(self, requests: Seq<Request<S, A>>) -> bool {
        &&& self.latest == latest_of(requests)
        &&& self.flushes@ == flushes_of(requests)
    }

    /// No request yet.
    pub fn new() -> (batch: Self)
        ensures
            batch.stands_for(Seq::empty()),
    {
        Batch { latest: None, flushes: Vec::new() }
    }

    /// Takes one more request: a snapshot replaces the one before it.
    pub fn accept(&mut self, request: Request<S, A>)
        ensures
            final(self).latest == (match request {
                Request::Save { snapshot } => Some(snapshot),
                Request::Flush { .. } => old(self).latest,
            }),
            final(self).flushes@ == (match request {
                Request::Save { .. } => old(self).flushes@,
                Request::Flush { acknowledge } => old(self).flushes@.push(acknowledge),
            }),
            forall|requests: Seq<Request<S, A>>|
                old(self).stands_for(requests) ==> #[trigger] final(self).stands_for(requests.push(request)),
    {
        let ghost asked = request;
        let ghost before = *self;
        match request {
            Request::Save { snapshot } => {
                self.latest = Some(snapshot);
            },
            Request::Flush { acknowledge } => {
                self.flushes.push(acknowledge);
            },
        }
        assert forall|requests: Seq<Request<S, A>>| before.stands_for(requests) implies #[trigger] self.stands_for(
            requests.push(asked),
        ) by {
            assert(requests.push(asked).drop_last() =~= requests);
        }
    }
}

/// The form in which the session was written last.
#[derive(Debug)]
pub struct Fingerprint {
    pub text: String,
}

impl Fingerprint {
    /// What is to be written of a session in this form: nothing, where it is the form that
    /// was written last.
    pub open spec fn to_write(self, form: Seq<char>) -> Option<Seq<char>> {
        if form == self.text@ {
            None
        } else {
            Some(form)
        }
    }

    /// Takes the form of a session, and says what is to be written.
    pub fn settle(&mut self, form: String) -> (written: Option<String>)
        ensures
            written.deep_view() == old(self).to_write(form@),
            final(self).text@ == form@,
    {
        if text_eq(form.as_str(), self.text.as_str()) {
            None
        } else {
            self.text = form.clone();
            Some(form)
        }
    }

    /// Takes what became of the snapshot of a batch, its form, or nothing where there was no
    /// snapshot or it has no form, and those who wait. Says what is to be done.
    pub fn finish<A>(&mut self, form: Option<String>, flushes: Vec<A>) -> (actions: Vec<Action<A>>)
        ensures
            actions_shown(actions@) == batch_actions(old(self).text@, form.deep_view(), flushes@),
            final(self).text@ == step(old(self).text@, form.deep_view()).0,
    {
        let ghost asked = flushes@;
        let ghost write = step(old(self).text@, form.deep_view()).1;
        let mut actions: Vec<Action<A>> = Vec::new();
        let written = match form {
            Some(form) => self.settle(form),
            None => None,
        };
        assert(written.deep_view() == write);
        if let Some(form) = written {
            actions.push(Action::Write { form });
        }
        let ghost first = actions_shown(actions@);
        assert(first =~= batch_actions(old(self).text@, form.deep_view(), Seq::<A>::empty()));
        let ghost settled = self.text@;
        let mut rest = flushes;
        let ghost mut told: int = 0;
        assert(first + acknowledged(asked.take(0)) =~= first);
        while rest.len() > 0
            invariant
                0 <= told <= asked.len(),
                rest@ == asked.skip(told),
                actions_shown(actions@) == first + acknowledged(asked.take(told)),
                self.text@ == settled,
            decreases rest.len(),
        {
            let ghost before = actions@;
            let acknowledge = rest.remove(0);
            assert(acknowledge == asked[told]);
            actions.push(Action::Acknowledge { acknowledge });
            assert(actions_shown(actions@) =~= actions_shown(before).push(ActionView::Acknowledge { acknowledge }));
            assert(acknowledged(asked.take(told + 1)) =~= acknowledged(asked.take(told)).push(
                ActionView::Acknowledge { acknowledge },
            ));
            assert(actions_shown(actions@) =~= first + acknowledged(asked.take(told + 1)));
            proof {
                told = told + 1;
            }
            assert(rest@ =~= asked.skip(told));
        }
        assert(asked.take(told) =~= asked);
        assert(first + acknowledged(asked) =~= batch_actions(old(self).text@, form.deep_view(), asked));
        actions
    }
}

/// Everyone who waits is told.
pub open spec fn acknowledged<A>(flushes: Seq<A>) -> Seq<ActionView<A>> {
    flushes.map_values(|acknowledge: A| ActionView::Acknowledge { acknowledge })
}

/// What is done for a batch: the form is written if it is new, and then everyone is told.
pub open spec fn batch_actions<A>(settled: Seq<char>, form: Option<Seq<char>>, flushes: Seq<A>) -> Seq<ActionView<A>> {
    (match step(settled, form).1 {
        Some(text) => seq![ActionView::Write { form: text }],
        None => Seq::empty(),
    }) + acknowledged(flushes)
}

/// The form that counts as written once a batch was done, and what was written for it.
pub open spec fn step(settled: Seq<char>, form: Option<Seq<char>>) -> (Seq<char>, Option<Seq<char>>) {
    match form {
        None => (settled, None),
        Some(text) => (text, if text == settled { None } else { Some(text) }),
    }
}

/// The form of the snapshot that is kept of some requests.
pub open spec fn kept_form<S, A>(requests: Seq<Request<S, A>>, form: spec_fn(S) -> Option<Seq<char>>) -> Option<Seq<char>> {
    match latest_of(requests) {
        Some(snapshot) => form(snapshot),
        None => None,
    }
}

/// The form that counts as written once batch after batch was done.
pub open spec fn settled<S, A>(
    first: Seq<char>,
    batches: Seq<Seq<Request<S, A>>>,
    form: spec_fn(S) -> Option<Seq<char>>,
) -> Seq<char>
    decreases batches.len(),
{
    if batches.len() == 0 {
        first
    } else {
        step(settled(first, batches.drop_last(), form), kept_form(batches.last(), form)).0
    }
}

/// What is done for batch after batch.
pub open spec fn trace<S, A>(
    first: Seq<char>,
    batches: Seq<Seq<Request<S, A>>>,
    form: spec_fn(S) -> Option<Seq<char>>,
) -> Seq<ActionView<A>>
    decreases batches.len(),
{
    if batches.len() == 0 {
        Seq::empty()
    } else {
        let front = batches.drop_last();
        trace(first, front, form) + batch_actions(
            settled(first, front, form),
            kept_form(batches.last(), form),
            flushes_of(batches.last()),
        )
    }
}

/// The forms that actions write, oldest first.
pub open spec fn forms_of<A>(actions: Seq<ActionView<A>>) -> Seq<Seq<char>>
    decreases actions.len(),
{
    if actions.len() == 0 {
        Seq::empty()
    } else {
        match actions.last() {
            ActionView::Write { form } => forms_of(actions.drop_last()).push(form),
            ActionView::Acknowledge { .. } => forms_of(actions.drop_last()),
        }
    }
}

/// What is written while batch after batch is done, oldest first.
pub open spec fn written<S, A>(
    first: Seq<char>,
    batches: Seq<Seq<Request<S, A>>>,
    form: spec_fn(S) -> Option<Seq<char>>,
) -> Seq<Seq<char>> {
    forms_of(trace(first, batches, form))
}

/// What is on record once forms were written behind `first`.
pub open spec fn on_record(first: Seq<char>, forms: Seq<Seq<char>>) -> Seq<char> {
    if forms.len() == 0 {
        first
    } else {
        forms.last()
    }
}

/// The requests of all batches, in order.
pub open spec fn in_one<S, A>(batches: Seq<Seq<Request<S, A>>>) -> Seq<Request<S, A>>
    decreases batches.len(),
{
    if batches.len() == 0 {
        Seq::empty()
    } else {
        in_one(batches.drop_last()) + batches.last()
    }
}

/// Snapshots that pile up are coalesced: whatever was asked before it, a snapshot that no
/// other follows is the one that is kept.
pub proof fn law_only_the_latest_is_kept<S, A>(before: Seq<Request<S, A>>, snapshot: S, after: Seq<Request<S, A>>)
    requires
        forall|i: int| 0 <= i < after.len() ==> #[trigger] after[i] is Flush,
    ensures
        latest_of(before.push(Request::Save { snapshot }) + after) == Some(snapshot),
    decreases after.len(),
{
    let first = before.push(Request::Save { snapshot });
    if after.len() == 0 {
        assert(first + after =~= first);
    } else {
        let last = after[after.len() - 1];
        assert((first + after).last() == last);
        assert((first + after).drop_last() =~= first + after.drop_last());
        assert forall|i: int| 0 <= i < after.drop_last().len() implies #[trigger] after.drop_last()[i] is Flush by {
            assert(after.drop_last()[i] == after[i]);
        }
        law_only_the_latest_is_kept(before, snapshot, after.drop_last());
    }
}

/// Whoever asks to be told is told, and nobody else: there are as many answers as such
/// requests, and each request has its own.
pub proof fn law_every_flush_is_acknowledged<S, A>(requests: Seq<Request<S, A>>)
    ensures
        flushes_of(requests).len() == requests.filter(|r: Request<S, A>| r is Flush).len(),
        forall|i: int|
            0 <= i < requests.len() && requests[i] is Flush ==> flushes_of(requests).contains(
                (#[trigger] requests[i])->acknowledge,
            ),
    decreases requests.len(),
{
    reveal(Seq::filter);
    if requests.len() > 0 {
        let front = requests.drop_last();
        law_every_flush_is_acknowledged(front);
        assert forall|i: int| 0 <= i < requests.len() && requests[i] is Flush implies flushes_of(requests).contains(
            (#[trigger] requests[i])->acknowledge,
        ) by {
            let told = flushes_of(front);
            if i < front.len() {
                assert(front[i] == requests[i]);
                let k = choose|k: int| 0 <= k < told.len() && told[k] == requests[i]->acknowledge;
                assert(flushes_of(requests)[k] == told[k]);
            } else {
                assert(flushes_of(requests)[told.len() as int] == requests[i]->acknowledge);
            }
        }
    }
}

proof fn lemma_latest_of_both<S, A>(first: Seq<Request<S, A>>, second: Seq<Request<S, A>>)
    ensures
        latest_of(first + second) == match latest_of(second) {
            Some(snapshot) => Some(snapshot),
            None => latest_of(first),
        },
    decreases second.len(),
{
    if second.len() == 0 {
        assert(first + second =~= first);
    } else {
        assert((first + second).drop_last() =~= first + second.drop_last());
        lemma_latest_of_both(first, second.drop_last());
    }
}

proof fn lemma_forms_of_both<A>(first: Seq<ActionView<A>>, second: Seq<ActionView<A>>)
    ensures
        forms_of(first + second) == forms_of(first) + forms_of(second),
    decreases second.len(),
{
    if second.len() == 0 {
        assert(first + second =~= first);
        assert(forms_of(first) + forms_of(second) =~= forms_of(first));
    } else {
        assert((first + second).drop_last() =~= first + second.drop_last());
        lemma_forms_of_both(first, second.drop_last());
        assert(forms_of(first + second) =~= forms_of(first) + forms_of(second));
    }
}

proof fn lemma_acknowledging_writes_nothing<A>(flushes: Seq<A>)
    ensures
        forms_of(acknowledged(flushes)) == Seq::<Seq<char>>::empty(),
    decreases flushes.len(),
{
    if flushes.len() > 0 {
        assert(acknowledged(flushes).drop_last() =~= acknowledged(flushes.drop_last()));
        lemma_acknowledging_writes_nothing(flushes.drop_last());
    }
}

/// What a batch writes, of which whoever waits is told afterwards: the first `n` of its
/// actions write all of it where one of the others tells someone.
proof fn lemma_batch_writes<A>(settled: Seq<char>, form: Option<Seq<char>>, flushes: Seq<A>, n: int)
    requires
        0 <= n <= batch_actions(settled, form, flushes).len(),
        n < batch_actions(settled, form, flushes).len() ==> batch_actions(settled, form, flushes)[n] is Acknowledge,
    ensures
        forms_of(batch_actions(settled, form, flushes).take(n)) == match step(settled, form).1 {
            Some(text) => seq![text],
            None => Seq::empty(),
        },
{
    let all = batch_actions(settled, form, flushes);
    let none = Seq::<ActionView<A>>::empty();
    match step(settled, form).1 {
        Some(text) => {
            let head = seq![ActionView::<A>::Write { form: text }];
            assert(all[0] == head[0]);
            assert(all.take(n) =~= head + acknowledged(flushes.take(n - 1)));
            lemma_acknowledging_writes_nothing(flushes.take(n - 1));
            lemma_forms_of_both(head, acknowledged(flushes.take(n - 1)));
            assert(head.drop_last() =~= none);
            reveal_with_fuel(forms_of, 2);
            assert(forms_of(head) =~= seq![text]);
            assert(forms_of(all.take(n)) =~= seq![text]);
        },
        None => {
            assert(all.take(n) =~= acknowledged(flushes.take(n)));
            lemma_acknowledging_writes_nothing(flushes.take(n));
        },
    }
}

/// One more batch writes the form of its snapshot, unless that is on record.
proof fn lemma_written<S, A>(
    first: Seq<char>,
    batches: Seq<Seq<Request<S, A>>>,
    form: spec_fn(S) -> Option<Seq<char>>,
)
    requires
        batches.len() > 0,
    ensures
        written(first, batches, form) == written(first, batches.drop_last(), form) + match step(
            settled(first, batches.drop_last(), form),
            kept_form(batches.last(), form),
        ).1 {
            Some(text) => seq![text],
            None => Seq::empty(),
        },
{
    let front = batches.drop_last();
    let own = batch_actions(
        settled(first, front, form),
        kept_form(batches.last(), form),
        flushes_of(batches.last()),
    );
    lemma_forms_of_both(trace(first, front, form), own);
    lemma_batch_writes(
        settled(first, front, form),
        kept_form(batches.last(), form),
        flushes_of(batches.last()),
        own.len() as int,
    );
    assert(own.take(own.len() as int) =~= own);
}

/// Whatever snapshots have no form, what counts as written is what was written last. No form
/// is written twice in a row, and the first is not the one that was there.
pub proof fn law_written_forms_differ<S, A>(
    first: Seq<char>,
    batches: Seq<Seq<Request<S, A>>>,
    form: spec_fn(S) -> Option<Seq<char>>,
)
    ensures
        on_record(first, written(first, batches, form)) == settled(first, batches, form),
        forall|i: int|
            0 <= i < written(first, batches, form).len() ==> #[trigger] written(first, batches, form)[i] != on_record(
                first,
                written(first, batches, form).take(i),
            ),
    decreases batches.len(),
{
    let forms = written(first, batches, form);
    if batches.len() > 0 {
        let front = batches.drop_last();
        let before = written(first, front, form);
        law_written_forms_differ(first, front, form);
        lemma_written(first, batches, form);
        assert forall|i: int| 0 <= i < forms.len() implies #[trigger] forms[i] != on_record(first, forms.take(i)) by {
            assert(forms.take(i) =~= before.take(i));
            if i < before.len() {
                assert(forms[i] == before[i]);
            } else {
                assert(before.take(i) =~= before);
            }
        }
    }
}

/// However the requests fall into batches, what was written last is the form of the last
/// snapshot, where that has a form, or what was there before where there was no snapshot. No
/// form is written twice in a row, and the first is not the one that was there.
pub proof fn law_the_last_snapshot_is_written<S, A>(
    first: Seq<char>,
    batches: Seq<Seq<Request<S, A>>>,
    form: spec_fn(S) -> Option<Seq<char>>,
)
    requires
        latest_of(in_one(batches)) is Some ==> form(latest_of(in_one(batches))->0) is Some,
    ensures
        on_record(first, written(first, batches, form)) == match latest_of(in_one(batches)) {
            Some(snapshot) => form(snapshot)->0,
            None => first,
        },
        forall|i: int|
            0 <= i < written(first, batches, form).len() ==> #[trigger] written(first, batches, form)[i] != on_record(
                first,
                written(first, batches, form).take(i),
            ),
    decreases batches.len(),
{
    law_written_forms_differ(first, batches, form);
    if batches.len() > 0 {
        let front = batches.drop_last();
        lemma_latest_of_both(in_one(front), batches.last());
        if latest_of(batches.last()) is None {
            law_the_last_snapshot_is_written(first, front, form);
            law_written_forms_differ(first, front, form);
        }
    }
}

/// Whoever is told, is told when everything was written: before the action `n` of the last
/// batch that tells someone, the form of the last snapshot is on record.
pub proof fn law_a_flush_is_told_after_the_writing<S, A>(
    first: Seq<char>,
    batches: Seq<Seq<Request<S, A>>>,
    form: spec_fn(S) -> Option<Seq<char>>,
    n: int,
)
    requires
        latest_of(in_one(batches)) is Some ==> form(latest_of(in_one(batches))->0) is Some,
        batches.len() > 0,
        trace(first, batches.drop_last(), form).len() <= n < trace(first, batches, form).len(),
        trace(first, batches, form)[n] is Acknowledge,
    ensures
        on_record(first, forms_of(trace(first, batches, form).take(n))) == match latest_of(in_one(batches)) {
            Some(snapshot) => form(snapshot)->0,
            None => first,
        },
{
    let front = batches.drop_last();
    let before = trace(first, front, form);
    let last = batches.last();
    let own = batch_actions(settled(first, front, form), kept_form(last, form), flushes_of(last));
    let m = n - before.len();
    assert(trace(first, batches, form)[n] == own[m]);
    assert(trace(first, batches, form).take(n) =~= before + own.take(m));
    lemma_forms_of_both(before, own.take(m));
    lemma_batch_writes(settled(first, front, form), kept_form(last, form), flushes_of(last), m);
    lemma_written(first, batches, form);
    assert(forms_of(trace(first, batches, form).take(n)) =~= written(first, batches, form));
    law_the_last_snapshot_is_written(first, batches, form);
}

/// A session that did not change is never written again: a batch whose last snapshot has the
/// form of the one that was saved before it writes nothing.
pub proof fn law_unchanged_sessions_are_not_rewritten<S, A>(
    first: Seq<char>,
    batches: Seq<Seq<Request<S, A>>>,
    form: spec_fn(S) -> Option<Seq<char>>,
    requests: Seq<Request<S, A>>,
)
    requires
        latest_of(in_one(batches)) is Some ==> form(latest_of(in_one(batches))->0) is Some,
        latest_of(requests) is Some ==> form(latest_of(requests)->0) is Some && form(latest_of(requests)->0)->0 == match latest_of(in_one(batches)) {
            Some(snapshot) => form(snapshot)->0,
            None => first,
        },
    ensures
        written(first, batches.push(requests), form) == written(first, batches, form),
{
    law_the_last_snapshot_is_written(first, batches, form);
    law_written_forms_differ(first, batches, form);
    assert(batches.push(requests).drop_last() =~= batches);
    lemma_written(first, batches.push(requests), form);
    assert(written(first, batches.push(requests), form) =~= written(first, batches, form));
}

} // verus!
