//! What the forms of calendar events do with what was entered.
use crate::event_compose::{
    creation_account, form_of, ComposeAccountView, ComposeOpening, EditedEventView, EventComposeModeView,
    EventComposeSessionView, EventComposesView, EventFormView, EventRequestView, FormErrorView, LocalTimesView,
    OnlineMeetingKind,
};
use crate::lists::lemma_first_index;
use crate::model::Provider;
use crate::text::trimmed;
use vstd::prelude::*;

verus! {

/// Whether every attendee has an address.
pub open spec fn all_reachable(attendees: Seq<(Seq<char>, bool)>) -> bool {
    forall|i: int| 0 <= i < attendees.len() ==> (#[trigger] attendees[i]).1
}

/// A form becomes a request exactly where it has a subject, days and readable times, ends
/// no earlier than it may, and names only attendees that can be reached, which an event that
/// is changed need not. Otherwise it stays as it is and says the first thing that is wrong.
pub proof fn law_forms_are_sent_when_complete(
    form: EventFormView,
    start: Option<i64>,
    end: Option<i64>,
    attendees: Seq<(Seq<char>, bool)>,
    provider: Option<Provider>,
    rendered: Seq<char>,
)
    ensures
        ({
            let (after, request) = form.submitted(start, end, attendees, provider, rendered);
            let named = trimmed(form.subject).len() > 0;
            let timed = form.start_day is Some && form.end_day is Some && start is Some && end is Some;
            let ordered = timed && (if form.all_day {
                start->0 <= end->0
            } else {
                start->0 < end->0
            });
            let reachable = form.mode is Edit || all_reachable(attendees);
            &&& request is Some <==> named && ordered && reachable
            &&& request is Some ==> after == (EventFormView { submitting: true, error: None, ..form })
            &&& request is None ==> after == (EventFormView { error: after.error, ..form })
            &&& !named <==> after.error == Some(FormErrorView::Subject) && request is None
            &&& named && !timed ==> after.error == Some(FormErrorView::Dates)
            &&& named && timed && !ordered ==> after.error == Some(FormErrorView::Order)
            &&& named && ordered && !reachable ==> after.error is Some && after.error->0 is Attendee && attendees.contains(
                (after.error->0->value, false),
            )
        }),
{
    lemma_first_index(attendees, crate::event_compose::no_address());
    match crate::lists::first_index(attendees, crate::event_compose::no_address()) {
        Some(i) => {
            assert(!attendees[i].1);
            assert(attendees.contains(attendees[i]));
        },
        None => {
            assert forall|i: int| 0 <= i < attendees.len() implies (#[trigger] attendees[i]).1 by {
                assert(!crate::event_compose::no_address()(attendees[i]));
            }
        },
    }
}

/// The event that is asked for is the one that the form describes: its subject and place
/// without blanks around them, its times, and for a new event its attendees, in order, and a
/// meeting of the provider's own service where one is wanted. It is new or changed as the
/// form says, in the account of the form and under its number.
pub proof fn law_requests_are_what_the_form_says(
    form: EventFormView,
    start: Option<i64>,
    end: Option<i64>,
    attendees: Seq<(Seq<char>, bool)>,
    provider: Option<Provider>,
    rendered: Seq<char>,
)
    requires
        form.submitted(start, end, attendees, provider, rendered).1 is Some,
    ensures
        ({
            let request = form.submitted(start, end, attendees, provider, rendered).1->0;
            let event = match request {
                EventRequestView::Create { event, .. } => event,
                EventRequestView::Update { event, .. } => event,
            };
            &&& match form.mode {
                EventComposeModeView::Create => request is Create && request->Create_request_id == form.id
                    && request->Create_account_id == form.account_id,
                EventComposeModeView::Edit { event_id } => request is Update && request->Update_request_id == form.id
                    && request->Update_account_id == form.account_id && request->event_id == event_id,
            }
            &&& event.subject == trimmed(form.subject)
            &&& event.location == trimmed(form.location)
            &&& trimmed(form.description).len() > 0 ==> event.description == rendered
            &&& trimmed(form.description).len() == 0 ==> event.description.len() == 0
            &&& event.start == start->0
            &&& event.end == end->0
            &&& event.all_day == form.all_day
            &&& form.mode is Edit ==> event.attendees.len() == 0 && event.online_meeting is None
            &&& form.mode is Create ==> {
                &&& event.attendees.len() == attendees.len()
                &&& forall|i: int| 0 <= i < attendees.len() ==> #[trigger] event.attendees[i] == attendees[i].0
                &&& !form.online_meeting ==> event.online_meeting is None
                &&& form.online_meeting && provider == Some(Provider::Microsoft) ==> event.online_meeting == Some(
                    OnlineMeetingKind::Teams,
                )
                &&& form.online_meeting && provider == Some(Provider::Google) ==> event.online_meeting == Some(
                    OnlineMeetingKind::GoogleMeet,
                )
                &&& form.online_meeting && provider == Some(Provider::Imap) ==> event.online_meeting is None
            }
        }),
{
}

/// A new form shows what was kept of one; else the event that it changes, with its days and
/// times; else nothing but an hour in the morning of the day that was chosen.
pub proof fn law_new_forms_show_what_there_is(
    id: u64,
    account_id: Seq<char>,
    day: i32,
    inline: bool,
    mode: EventComposeModeView,
    event: Option<(EditedEventView, LocalTimesView)>,
    restored: Option<EventComposeSessionView>,
)
    ensures
        ({
            let form = form_of(id, account_id, day, inline, mode, event, restored);
            &&& form.id == id && form.account_id == account_id && form.inline == inline && form.mode == mode
            &&& !form.submitting && form.error is None
            &&& restored is Some ==> {
                let kept = restored->0;
                &&& form.subject == kept.subject && form.location == kept.location
                &&& form.attendees == kept.attendees && form.description == kept.description
                &&& form.start_day == Some(kept.start_day) && form.end_day == Some(kept.end_day)
                &&& form.start_time == kept.start_time && form.end_time == kept.end_time
                &&& form.all_day == kept.all_day && form.online_meeting == kept.online_meeting
            }
            &&& restored is None && event is Some ==> {
                let (changed, times) = event->0;
                &&& form.subject == changed.subject && form.location == changed.location
                &&& form.description == changed.preview && form.all_day == changed.all_day
                &&& form.start_day == Some(times.start_day) && form.end_day == Some(times.end_day)
                &&& form.start_time == times.start_time && form.end_time == times.end_time
                &&& form.attendees.len() == 0 && !form.online_meeting
            }
            &&& restored is None && event is None ==> {
                &&& form.subject.len() == 0 && form.location.len() == 0
                &&& form.attendees.len() == 0 && form.description.len() == 0
                &&& form.start_day == Some(day) && form.end_day == Some(day)
                &&& form.start_time == "09:00"@ && form.end_time == "10:00"@
                &&& !form.all_day && !form.online_meeting
            }
        }),
{
}

/// What the form offers: times unless the event lasts all day; attendees, a meeting and the
/// choice of an account only for a new event; and nothing to press while it is on its way.
pub proof fn law_forms_offer_what_can_be_changed(form: EventFormView)
    ensures
        form.face().times == !form.all_day,
        form.face().attendees == form.mode is Create,
        form.face().online_checkbox == form.mode is Create,
        form.face().account_picker == form.mode is Create,
        form.face().submit_enabled == !form.submitting,
        form.face().header == form.inline,
        form.face().header_enabled == !form.submitting,
        form.mode is Create ==> form.face().title == "calendar-new-event-title"@,
        form.mode is Edit ==> form.face().title == "calendar-edit-event-title"@,
        form.face().submit_label == (if form.mode is Edit {
            if form.submitting {
                "status-event-updating"@
            } else {
                "calendar-event-save"@
            }
        } else {
            if form.submitting {
                "status-event-creating"@
            } else {
                "calendar-new-event-create"@
            }
        }),
{
}

/// A new event is made in the preferred account if events can be made there, and otherwise
/// in the first account in which they can.
pub proof fn law_events_are_made_in_the_preferred_account(
    accounts: Seq<ComposeAccountView>,
    preferred: Option<Seq<char>>,
)
    requires
        accounts.len() > 0,
    ensures
        ({
            let there = preferred is Some && exists|i: int|
                0 <= i < accounts.len() && (#[trigger] accounts[i]).id == preferred->0;
            &&& there ==> creation_account(accounts, preferred) == preferred->0
            &&& !there ==> creation_account(accounts, preferred) == accounts[0].id
        }),
{
    if preferred is Some {
        let p = crate::event_compose::compose_account_named(preferred->0);
        if exists|i: int| 0 <= i < accounts.len() && (#[trigger] accounts[i]).id == preferred->0 {
            let i = choose|i: int| 0 <= i < accounts.len() && (#[trigger] accounts[i]).id == preferred->0;
            assert(p(accounts[i]));
            assert(accounts.any(p));
        } else if accounts.any(p) {
            let i = choose|i: int| 0 <= i < accounts.len() && p(#[trigger] accounts[i]);
            assert(accounts[i].id == preferred->0);
        }
    }
}

/// Days that were chosen, in either order, are those of the form in the pane: of the form
/// that was there if it makes an event, which keeps all else that was entered, and of a new
/// one otherwise, in which nothing was entered yet. The calendar goes to the first of them
/// and marks them.
pub proof fn law_chosen_days_are_those_of_the_form(
    composes: EventComposesView,
    first: i32,
    last: i32,
    accounts: Seq<ComposeAccountView>,
    preferred: Option<Seq<char>>,
)
    requires
        composes.valid(),
        composes.seq < u64::MAX,
    ensures
        ({
            let (after, opening) = composes.opened_for(first, last, accounts, preferred);
            let start = if first <= last {
                first
            } else {
                last
            };
            let end = if first <= last {
                last
            } else {
                first
            };
            let reuses = composes.inline_form() is Some && composes.inline_form()->0.mode is Create;
            &&& opening == ComposeOpening::Reused <==> reuses
            &&& opening == ComposeOpening::NoAccount <==> !reuses && accounts.len() == 0
            &&& opening != ComposeOpening::NoAccount ==> after.anchor == Some(start)
            &&& opening == ComposeOpening::Reused ==> after.selection == Some((start, end)) && after.inline
                == composes.inline && after.seq == composes.seq
            &&& opening == ComposeOpening::Opened ==> after.inline == Some(after.seq) && after.seq == composes.seq + 1
                && after.handles.len() > 0 && after.handles.last().form.start_day == Some(start)
                && after.handles.last().form.end_day == Some(end) && after.handles.last().form.mode is Create
                && after.handles.last().form.account_id == creation_account(accounts, preferred)
                && !after.handles.last().detached
            &&& opening == ComposeOpening::NoAccount ==> after.selection is None
            &&& after.pending == composes.pending
        }),
{
}

} // verus!
