//! Composing events: the form, what it checks, and the composers of the calendar.
use crate::dates::{
    can_be, clock_seconds, can_show, is_clock, local_time, instant_at, is_local_instant, is_local_time, parse_clock, utc_day, utc_day_of, valid_day,
    valid_instant, DAY_NANOS,
};
use crate::lists::{lemma_first_index_is, any_where, first_index, first_where, lemma_first_index, position_where};
use crate::model::{AccountId, AccountView, Provider};
use crate::state::{AviaryApp, CalendarState, Effect, EffectView};
use crate::text::{trim, trimmed};
use vstd::prelude::*;

verus! {

/// Services that hold online meetings.
#[derive(Debug, Clone, Copy, PartialEq, Eq, Structural)]
pub enum OnlineMeetingKind {
    Teams,
    GoogleMeet,
}

impl DeepView for OnlineMeetingKind {
    type V = OnlineMeetingKind;

    open spec fn deep_view(&self) -> OnlineMeetingKind {
        *self
    }
}
/// Whether a form makes an event or changes one.
#[derive(Debug, PartialEq, Eq)]
pub enum EventComposeMode {
    Create,
    Edit { event_id: String },
}

/// Mathematical form of [`EventComposeMode`].
#[verifier::ext_equal]
pub enum EventComposeModeView {
    Create,
    Edit { event_id: Seq<char> },
}

impl DeepView for EventComposeMode {
    type V = EventComposeModeView;

    open spec fn deep_view(&self) -> EventComposeModeView {
        match self {
            EventComposeMode::Create => EventComposeModeView::Create,
            EventComposeMode::Edit { event_id } => EventComposeModeView::Edit { event_id: event_id.deep_view() },
        }
    }
}

impl Clone for EventComposeMode {
    fn clone(&self) -> (copy: Self)
        ensures
            copy.deep_view() == self.deep_view(),
    {
        match self {
            EventComposeMode::Create => EventComposeMode::Create,
            EventComposeMode::Edit { event_id } => EventComposeMode::Edit { event_id: event_id.clone() },
        }
    }
}
/// An event that a form changes. Start and end are in nanoseconds since the Unix epoch; the end of a day-long event is the day after its last.
#[derive(Debug, PartialEq, Eq)]
pub struct EditedEvent {
    pub account_id: AccountId,
    pub id: String,
    pub subject: String,
    pub location: String,
    pub preview: String,
    pub start: i128,
    pub end: i128,
    pub all_day: bool,
}

/// Mathematical form of [`EditedEvent`].
#[verifier::ext_equal]
pub struct EditedEventView {
    pub account_id: Seq<char>,
    pub id: Seq<char>,
    pub subject: Seq<char>,
    pub location: Seq<char>,
    pub preview: Seq<char>,
    pub start: i128,
    pub end: i128,
    pub all_day: bool,
}

impl DeepView for EditedEvent {
    type V = EditedEventView;

    open spec fn deep_view(&self) -> EditedEventView {
        EditedEventView {
            account_id: self.account_id.deep_view(),
            id: self.id.deep_view(),
            subject: self.subject.deep_view(),
            location: self.location.deep_view(),
            preview: self.preview.deep_view(),
            start: self.start,
            end: self.end,
            all_day: self.all_day,
        }
    }
}

impl Clone for EditedEvent {
    fn clone(&self) -> (copy: Self)
        ensures
            copy.deep_view() == self.deep_view(),
    {
        EditedEvent {
            account_id: self.account_id.clone(),
            id: self.id.clone(),
            subject: self.subject.clone(),
            location: self.location.clone(),
            preview: self.preview.clone(),
            start: self.start,
            end: self.end,
            all_day: self.all_day,
        }
    }
}
/// Days and times of an event as the machine's time zone shows them.
#[derive(Debug, PartialEq, Eq)]
pub struct LocalTimes {
    pub start_day: i32,
    pub start_time: String,
    pub end_day: i32,
    pub end_time: String,
}

/// Mathematical form of [`LocalTimes`].
#[verifier::ext_equal]
pub struct LocalTimesView {
    pub start_day: i32,
    pub start_time: Seq<char>,
    pub end_day: i32,
    pub end_time: Seq<char>,
}

impl DeepView for LocalTimes {
    type V = LocalTimesView;

    open spec fn deep_view(&self) -> LocalTimesView {
        LocalTimesView {
            start_day: self.start_day,
            start_time: self.start_time.deep_view(),
            end_day: self.end_day,
            end_time: self.end_time.deep_view(),
        }
    }
}

impl Clone for LocalTimes {
    fn clone(&self) -> (copy: Self)
        ensures
            copy.deep_view() == self.deep_view(),
    {
        LocalTimes {
            start_day: self.start_day,
            start_time: self.start_time.clone(),
            end_day: self.end_day,
            end_time: self.end_time.clone(),
        }
    }
}
/// A form as it is kept between runs.
#[derive(Debug, PartialEq, Eq)]
pub struct EventComposeSession {
    pub detached: bool,
    pub account_id: AccountId,
    pub subject: String,
    pub location: String,
    pub attendees: String,
    pub description: String,
    pub start_day: i32,
    pub start_time: String,
    pub end_day: i32,
    pub end_time: String,
    pub all_day: bool,
    pub online_meeting: bool,
    pub mode: EventComposeMode,
}

/// Mathematical form of [`EventComposeSession`].
#[verifier::ext_equal]
pub struct EventComposeSessionView {
    pub detached: bool,
    pub account_id: Seq<char>,
    pub subject: Seq<char>,
    pub location: Seq<char>,
    pub attendees: Seq<char>,
    pub description: Seq<char>,
    pub start_day: i32,
    pub start_time: Seq<char>,
    pub end_day: i32,
    pub end_time: Seq<char>,
    pub all_day: bool,
    pub online_meeting: bool,
    pub mode: EventComposeModeView,
}

impl DeepView for EventComposeSession {
    type V = EventComposeSessionView;

    open spec fn deep_view(&self) -> EventComposeSessionView {
        EventComposeSessionView {
            detached: self.detached,
            account_id: self.account_id.deep_view(),
            subject: self.subject.deep_view(),
            location: self.location.deep_view(),
            attendees: self.attendees.deep_view(),
            description: self.description.deep_view(),
            start_day: self.start_day,
            start_time: self.start_time.deep_view(),
            end_day: self.end_day,
            end_time: self.end_time.deep_view(),
            all_day: self.all_day,
            online_meeting: self.online_meeting,
            mode: self.mode.deep_view(),
        }
    }
}

impl Clone for EventComposeSession {
    fn clone(&self) -> (copy: Self)
        ensures
            copy.deep_view() == self.deep_view(),
    {
        EventComposeSession {
            detached: self.detached,
            account_id: self.account_id.clone(),
            subject: self.subject.clone(),
            location: self.location.clone(),
            attendees: self.attendees.clone(),
            description: self.description.clone(),
            start_day: self.start_day,
            start_time: self.start_time.clone(),
            end_day: self.end_day,
            end_time: self.end_time.clone(),
            all_day: self.all_day,
            online_meeting: self.online_meeting,
            mode: self.mode.clone(),
        }
    }
}
/// What a form says is wrong.
#[derive(Debug, PartialEq, Eq)]
pub enum FormError {
    /// There is no subject.
    Subject,
    /// A day or a time is missing or cannot be read.
    Dates,
    /// The end does not follow the start.
    Order,
    /// This is no address.
    Attendee { value: String },
    /// The provider refused the event.
    Provider { error: String },
}

/// Mathematical form of [`FormError`].
#[verifier::ext_equal]
pub enum FormErrorView {
    Subject,
    Dates,
    Order,
    Attendee { value: Seq<char> },
    Provider { error: Seq<char> },
}

impl DeepView for FormError {
    type V = FormErrorView;

    open spec fn deep_view(&self) -> FormErrorView {
        match self {
            FormError::Subject => FormErrorView::Subject,
            FormError::Dates => FormErrorView::Dates,
            FormError::Order => FormErrorView::Order,
            FormError::Attendee { value } => FormErrorView::Attendee { value: value.deep_view() },
            FormError::Provider { error } => FormErrorView::Provider { error: error.deep_view() },
        }
    }
}

impl Clone for FormError {
    fn clone(&self) -> (copy: Self)
        ensures
            copy.deep_view() == self.deep_view(),
    {
        match self {
            FormError::Subject => FormError::Subject,
            FormError::Dates => FormError::Dates,
            FormError::Order => FormError::Order,
            FormError::Attendee { value } => FormError::Attendee { value: value.clone() },
            FormError::Provider { error } => FormError::Provider { error: error.clone() },
        }
    }
}
/// A form: what stands in its fields.
#[derive(Debug, PartialEq, Eq)]
pub struct EventForm {
    pub id: u64,
    pub account_id: AccountId,
    pub subject: String,
    pub location: String,
    pub attendees: String,
    pub description: String,
    pub start_day: Option<i32>,
    pub start_time: String,
    pub end_day: Option<i32>,
    pub end_time: String,
    pub all_day: bool,
    pub online_meeting: bool,
    pub submitting: bool,
    pub error: Option<FormError>,
    pub inline: bool,
    pub mode: EventComposeMode,
}

/// Mathematical form of [`EventForm`].
#[verifier::ext_equal]
pub struct EventFormView {
    pub id: u64,
    pub account_id: Seq<char>,
    pub subject: Seq<char>,
    pub location: Seq<char>,
    pub attendees: Seq<char>,
    pub description: Seq<char>,
    pub start_day: Option<i32>,
    pub start_time: Seq<char>,
    pub end_day: Option<i32>,
    pub end_time: Seq<char>,
    pub all_day: bool,
    pub online_meeting: bool,
    pub submitting: bool,
    pub error: Option<FormErrorView>,
    pub inline: bool,
    pub mode: EventComposeModeView,
}

impl DeepView for EventForm {
    type V = EventFormView;

    open spec fn deep_view(&self) -> EventFormView {
        EventFormView {
            id: self.id,
            account_id: self.account_id.deep_view(),
            subject: self.subject.deep_view(),
            location: self.location.deep_view(),
            attendees: self.attendees.deep_view(),
            description: self.description.deep_view(),
            start_day: self.start_day,
            start_time: self.start_time.deep_view(),
            end_day: self.end_day,
            end_time: self.end_time.deep_view(),
            all_day: self.all_day,
            online_meeting: self.online_meeting,
            submitting: self.submitting,
            error: self.error.deep_view(),
            inline: self.inline,
            mode: self.mode.deep_view(),
        }
    }
}

impl Clone for EventForm {
    fn clone(&self) -> (copy: Self)
        ensures
            copy.deep_view() == self.deep_view(),
    {
        EventForm {
            id: self.id,
            account_id: self.account_id.clone(),
            subject: self.subject.clone(),
            location: self.location.clone(),
            attendees: self.attendees.clone(),
            description: self.description.clone(),
            start_day: self.start_day,
            start_time: self.start_time.clone(),
            end_day: self.end_day,
            end_time: self.end_time.clone(),
            all_day: self.all_day,
            online_meeting: self.online_meeting,
            submitting: self.submitting,
            error: self.error.clone(),
            inline: self.inline,
            mode: self.mode.clone(),
        }
    }
}
/// An event on its way to the provider. Its description is HTML, start and end are in seconds
/// since the Unix epoch.
#[derive(Debug, PartialEq, Eq)]
pub struct EventDraft {
    pub subject: String,
    pub description: String,
    pub location: String,
    pub start: i64,
    pub end: i64,
    pub all_day: bool,
    pub online_meeting: Option<OnlineMeetingKind>,
    pub attendees: Vec<String>,
}

/// Mathematical form of [`EventDraft`].
#[verifier::ext_equal]
pub struct EventDraftView {
    pub subject: Seq<char>,
    pub description: Seq<char>,
    pub location: Seq<char>,
    pub start: i64,
    pub end: i64,
    pub all_day: bool,
    pub online_meeting: Option<OnlineMeetingKind>,
    pub attendees: Seq<Seq<char>>,
}

impl DeepView for EventDraft {
    type V = EventDraftView;

    open spec fn deep_view(&self) -> EventDraftView {
        EventDraftView {
            subject: self.subject.deep_view(),
            description: self.description.deep_view(),
            location: self.location.deep_view(),
            start: self.start,
            end: self.end,
            all_day: self.all_day,
            online_meeting: self.online_meeting,
            attendees: self.attendees.deep_view(),
        }
    }
}

impl Clone for EventDraft {
    fn clone(&self) -> (copy: Self)
        ensures
            copy.deep_view() == self.deep_view(),
    {
        EventDraft {
            subject: self.subject.clone(),
            description: self.description.clone(),
            location: self.location.clone(),
            start: self.start,
            end: self.end,
            all_day: self.all_day,
            online_meeting: self.online_meeting,
            attendees: crate::model::clone_list(&self.attendees),
        }
    }
}
/// What a form asks the provider for.
#[derive(Debug, PartialEq, Eq)]
pub enum EventRequest {
    Create { request_id: u64, account_id: AccountId, event: EventDraft },
    Update { request_id: u64, account_id: AccountId, event_id: String, event: EventDraft },
}

/// Mathematical form of [`EventRequest`].
#[verifier::ext_equal]
pub enum EventRequestView {
    Create { request_id: u64, account_id: Seq<char>, event: EventDraftView },
    Update { request_id: u64, account_id: Seq<char>, event_id: Seq<char>, event: EventDraftView },
}

impl DeepView for EventRequest {
    type V = EventRequestView;

    open spec fn deep_view(&self) -> EventRequestView {
        match self {
            EventRequest::Create { request_id, account_id, event } => EventRequestView::Create { request_id: *request_id, account_id: account_id.deep_view(), event: event.deep_view() },
            EventRequest::Update { request_id, account_id, event_id, event } => EventRequestView::Update { request_id: *request_id, account_id: account_id.deep_view(), event_id: event_id.deep_view(), event: event.deep_view() },
        }
    }
}

impl Clone for EventRequest {
    fn clone(&self) -> (copy: Self)
        ensures
            copy.deep_view() == self.deep_view(),
    {
        match self {
            EventRequest::Create { request_id, account_id, event } => EventRequest::Create { request_id: *request_id, account_id: account_id.clone(), event: event.clone() },
            EventRequest::Update { request_id, account_id, event_id, event } => EventRequest::Update { request_id: *request_id, account_id: account_id.clone(), event_id: event_id.clone(), event: event.clone() },
        }
    }
}
/// What a form shows beside its fields.
#[derive(Debug, PartialEq, Eq)]
pub struct EventFormFace {
    pub title: &'static str,
    /// Whether the form has a header of its own.
    pub header: bool,
    /// Whether its buttons can be pressed.
    pub header_enabled: bool,
    pub online_checkbox: bool,
    /// Whether times stand beside the days.
    pub times: bool,
    pub attendees: bool,
    pub account_picker: bool,
    pub submit_label: &'static str,
    pub submit_enabled: bool,
}

/// Mathematical form of [`EventFormFace`].
#[verifier::ext_equal]
pub struct EventFormFaceView {
    pub title: Seq<char>,
    pub header: bool,
    pub header_enabled: bool,
    pub online_checkbox: bool,
    pub times: bool,
    pub attendees: bool,
    pub account_picker: bool,
    pub submit_label: Seq<char>,
    pub submit_enabled: bool,
}

impl DeepView for EventFormFace {
    type V = EventFormFaceView;

    open spec fn deep_view(&self) -> EventFormFaceView {
        EventFormFaceView {
            title: self.title.deep_view(),
            header: self.header,
            header_enabled: self.header_enabled,
            online_checkbox: self.online_checkbox,
            times: self.times,
            attendees: self.attendees,
            account_picker: self.account_picker,
            submit_label: self.submit_label.deep_view(),
            submit_enabled: self.submit_enabled,
        }
    }
}

/// An account that events can be made in.
#[derive(Debug, PartialEq, Eq)]
pub struct ComposeAccount {
    pub id: AccountId,
    pub label: String,
    pub email: String,
    pub color_override: Option<u32>,
    pub provider: Provider,
}

/// Mathematical form of [`ComposeAccount`].
#[verifier::ext_equal]
pub struct ComposeAccountView {
    pub id: Seq<char>,
    pub label: Seq<char>,
    pub email: Seq<char>,
    pub color_override: Option<u32>,
    pub provider: Provider,
}

impl DeepView for ComposeAccount {
    type V = ComposeAccountView;

    open spec fn deep_view(&self) -> ComposeAccountView {
        ComposeAccountView {
            id: self.id.deep_view(),
            label: self.label.deep_view(),
            email: self.email.deep_view(),
            color_override: self.color_override,
            provider: self.provider,
        }
    }
}

impl Clone for ComposeAccount {
    fn clone(&self) -> (copy: Self)
        ensures
            copy.deep_view() == self.deep_view(),
    {
        ComposeAccount {
            id: self.id.clone(),
            label: self.label.clone(),
            email: self.email.clone(),
            color_override: self.color_override,
            provider: self.provider,
        }
    }
}
/// A composer of the calendar: in its pane, or in a window of its own.
#[derive(Debug, PartialEq, Eq)]
pub struct EventHandle {
    pub form: EventForm,
    pub detached: bool,
}

/// Mathematical form of [`EventHandle`].
#[verifier::ext_equal]
pub struct EventHandleView {
    pub form: EventFormView,
    pub detached: bool,
}

impl DeepView for EventHandle {
    type V = EventHandleView;

    open spec fn deep_view(&self) -> EventHandleView {
        EventHandleView {
            form: self.form.deep_view(),
            detached: self.detached,
        }
    }
}

impl Clone for EventHandle {
    fn clone(&self) -> (copy: Self)
        ensures
            copy.deep_view() == self.deep_view(),
    {
        EventHandle {
            form: self.form.clone(),
            detached: self.detached,
        }
    }
}

impl EventComposeModeView {
    /// Whether the form changes an event.
    pub open spec fn edits(self) -> bool {
        self is Edit
    }

    /// Title of the form.
    pub open spec fn title(self) -> Seq<char> {
        if self.edits() {
            "calendar-edit-event-title"@
        } else {
            "calendar-new-event-title"@
        }
    }
}

impl EventComposeMode {
    /// Whether the form changes an event.
    pub fn is_edit(&self) -> (yes: bool)
        ensures
            yes == self.deep_view().edits(),
    {
        match self {
            EventComposeMode::Edit { .. } => true,
            EventComposeMode::Create => false,
        }
    }

    /// Title of the form.
    pub fn title(&self) -> (title: &'static str)
        ensures
            title@ == self.deep_view().title(),
    {
        if self.is_edit() {
            "calendar-edit-event-title"
        } else {
            "calendar-new-event-title"
        }
    }
}

/// Two days in order.
pub open spec fn in_order(first: i32, last: i32) -> (i32, i32) {
    if first <= last {
        (first, last)
    } else {
        (last, first)
    }
}

/// Two days in order.
pub fn ordered_days(first: i32, last: i32) -> (days: (i32, i32))
    ensures
        days == in_order(first, last),
{
    if first <= last {
        (first, last)
    } else {
        (last, first)
    }
}

/// Instants of an event that lie within the calendar in every time zone.
pub open spec fn event_dated(event: EditedEventView) -> bool {
    &&& valid_instant(event.start)
    &&& valid_instant(event.end)
    &&& event.all_day ==> valid_instant((event.end - DAY_NANOS) as i128)
}

/// The last day of a day-long event: the one before its end, but none before its start.
pub open spec fn last_day(event: EditedEventView) -> int {
    let last = utc_day_of((event.end - DAY_NANOS) as i128);
    let first = utc_day_of(event.start);
    if last >= first {
        last
    } else {
        first
    }
}

/// Days and times of an event. The days of a day-long event are the same everywhere; those
/// of others, and all times, rest on the machine's time zone. Day and time of an event that
/// is not day-long are those of one look at the clock, within a day and a minute of the
/// instant.
pub fn local_times(event: &EditedEvent) -> (times: LocalTimes)
    requires
        event_dated(event.deep_view()),
    ensures
        valid_day(times.start_day),
        valid_day(times.end_day),
        event.all_day ==> times.start_day == utc_day_of(event.start) && times.end_day == last_day(event.deep_view()),
        !event.all_day ==> -1 <= times.start_day - utc_day_of(event.start) <= 1,
        !event.all_day ==> -1 <= times.end_day - utc_day_of(event.end) <= 1,
        !event.all_day ==> can_show(event.start as int / 1_000_000_000, times.start_day, times.start_time@),
        !event.all_day ==> can_show(event.end as int / 1_000_000_000, times.end_day, times.end_time@),
        is_clock(times.start_time@),
        is_clock(times.end_time@),
        !event.all_day ==> is_local_time(event.start, times.start_day, times.start_time@),
        !event.all_day ==> is_local_time(event.end, times.end_day, times.end_time@),
        event.all_day ==> exists|day: i32| #[trigger] is_local_time(event.start, day, times.start_time@),
        event.all_day ==> exists|day: i32| #[trigger] is_local_time(event.end, day, times.end_time@),
{
    let (start_day, start_time) = local_time(event.start);
    let (end_day, end_time) = local_time(event.end);
    if event.all_day {
        let first: i32 = utc_day(event.start);
        let last: i32 = utc_day(event.end - DAY_NANOS);
        let end_day: i32 = if last >= first {
            last
        } else {
            first
        };
        LocalTimes { start_day: first, start_time, end_day, end_time }
    } else {
        LocalTimes { start_day, start_time, end_day, end_time }
    }
}

/// A new form: with what was kept of one, else with the event it changes, else empty on
/// the given day.
pub open spec fn form_of(
    id: u64,
    account_id: Seq<char>,
    day: i32,
    inline: bool,
    mode: EventComposeModeView,
    event: Option<(EditedEventView, LocalTimesView)>,
    restored: Option<EventComposeSessionView>,
) -> EventFormView {
    let empty = EventFormView {
        id,
        account_id,
        subject: Seq::empty(),
        location: Seq::empty(),
        attendees: Seq::empty(),
        description: Seq::empty(),
        start_day: Some(day),
        start_time: "09:00"@,
        end_day: Some(day),
        end_time: "10:00"@,
        all_day: false,
        online_meeting: false,
        submitting: false,
        error: None,
        inline,
        mode,
    };
    match (restored, event) {
        (Some(session), _) => EventFormView {
            subject: session.subject,
            location: session.location,
            attendees: session.attendees,
            description: session.description,
            start_day: Some(session.start_day),
            start_time: session.start_time,
            end_day: Some(session.end_day),
            end_time: session.end_time,
            all_day: session.all_day,
            online_meeting: session.online_meeting,
            ..empty
        },
        (None, Some((event, times))) => EventFormView {
            subject: event.subject,
            location: event.location,
            description: event.preview,
            start_day: Some(times.start_day),
            start_time: times.start_time,
            end_day: Some(times.end_day),
            end_time: times.end_time,
            all_day: event.all_day,
            ..empty
        },
        (None, None) => empty,
    }
}

/// Whether an address is none.
pub open spec fn no_address() -> spec_fn((Seq<char>, bool)) -> bool {
    |attendee: (Seq<char>, bool)| !attendee.1
}

/// The service that holds the meetings of a provider.
pub open spec fn meeting_of(provider: Option<Provider>) -> Option<OnlineMeetingKind> {
    match provider {
        Some(Provider::Microsoft) => Some(OnlineMeetingKind::Teams),
        Some(Provider::Google) => Some(OnlineMeetingKind::GoogleMeet),
        _ => None,
    }
}

impl EventFormView {
    /// The days of the form in order.
    pub open spec fn range(self) -> Option<(i32, i32)> {
        match (self.start_day, self.end_day) {
            (Some(start), Some(end)) => Some(in_order(start, end)),
            _ => None,
        }
    }

    /// What is kept of the form between runs: nothing once it is on its way.
    pub open spec fn session(self, detached: bool) -> Option<EventComposeSessionView> {
        match (self.submitting, self.start_day, self.end_day) {
            (false, Some(start_day), Some(end_day)) => Some(
                EventComposeSessionView {
                    detached,
                    account_id: self.account_id,
                    subject: self.subject,
                    location: self.location,
                    attendees: self.attendees,
                    description: self.description,
                    start_day,
                    start_time: self.start_time,
                    end_day,
                    end_time: self.end_time,
                    all_day: self.all_day,
                    online_meeting: self.online_meeting,
                    mode: self.mode,
                },
            ),
            _ => None,
        }
    }

    /// The first thing that is wrong with the form, given the instants of its start and
    /// end and the addresses in it, each with whether it is one.
    pub open spec fn problem(self, start: Option<i64>, end: Option<i64>, attendees: Seq<(Seq<char>, bool)>) -> Option<
        FormErrorView,
    > {
        if trimmed(self.subject).len() == 0 {
            Some(FormErrorView::Subject)
        } else if self.start_day is None || self.end_day is None || start is None || end is None {
            Some(FormErrorView::Dates)
        } else if (!self.all_day && end->0 <= start->0) || (self.all_day && end->0 < start->0) {
            Some(FormErrorView::Order)
        } else {
            match first_where(attendees, no_address()) {
                Some(attendee) if !self.mode.edits() => Some(FormErrorView::Attendee { value: attendee.0 }),
                _ => None,
            }
        }
    }

    /// The event that the form describes, given the HTML `rendered` of its description. An
    /// event that is changed keeps its attendees and its meeting.
    pub open spec fn draft(
        self,
        start: i64,
        end: i64,
        attendees: Seq<(Seq<char>, bool)>,
        provider: Option<Provider>,
        rendered: Seq<char>,
    ) -> EventDraftView {
        EventDraftView {
            subject: trimmed(self.subject),
            description: if trimmed(self.description).len() == 0 {
                Seq::empty()
            } else {
                rendered
            },
            location: trimmed(self.location),
            start,
            end,
            all_day: self.all_day,
            online_meeting: if self.online_meeting && !self.mode.edits() {
                meeting_of(provider)
            } else {
                None
            },
            attendees: if self.mode.edits() {
                Seq::empty()
            } else {
                attendees.map_values(|attendee: (Seq<char>, bool)| attendee.0)
            },
        }
    }

    /// What the form asks the provider for.
    pub open spec fn request(self, event: EventDraftView) -> EventRequestView {
        match self.mode {
            EventComposeModeView::Create => EventRequestView::Create {
                request_id: self.id,
                account_id: self.account_id,
                event,
            },
            EventComposeModeView::Edit { event_id } => EventRequestView::Update {
                request_id: self.id,
                account_id: self.account_id,
                event_id,
                event,
            },
        }
    }

    /// The form and what it asks for once it was submitted.
    pub open spec fn submitted(
        self,
        start: Option<i64>,
        end: Option<i64>,
        attendees: Seq<(Seq<char>, bool)>,
        provider: Option<Provider>,
        rendered: Seq<char>,
    ) -> (EventFormView, Option<EventRequestView>) {
        match self.problem(start, end, attendees) {
            Some(error) => (EventFormView { error: Some(error), ..self }, None),
            None => (
                EventFormView { submitting: true, error: None, ..self },
                Some(self.request(self.draft(start->0, end->0, attendees, provider, rendered))),
            ),
        }
    }

    /// What the form shows beside its fields.
    pub open spec fn face(self) -> EventFormFaceView {
        let editing = self.mode.edits();
        EventFormFaceView {
            title: self.mode.title(),
            header: self.inline,
            header_enabled: !self.submitting,
            online_checkbox: !editing,
            times: !self.all_day,
            attendees: !editing,
            account_picker: !editing,
            submit_label: if self.submitting {
                if editing {
                    "status-event-updating"@
                } else {
                    "status-event-creating"@
                }
            } else if editing {
                "calendar-event-save"@
            } else {
                "calendar-new-event-create"@
            },
            submit_enabled: !self.submitting,
        }
    }
}

/// What an instant can be that the machine's time zone gives a day and a time of a form.
pub open spec fn placed_at(instant: Option<i64>, day: i32, time: Seq<char>, all_day: bool) -> bool {
    let seconds = if all_day {
        Some(0u32)
    } else {
        clock_seconds(trimmed(time))
    };
    match seconds {
        Some(seconds) => {
            &&& is_local_instant(day, seconds, instant)
            &&& instant is Some ==> can_be(instant->0, day, seconds)
        },
        None => instant is None,
    }
}

/// An event has a time exactly where the time can be read, or the event lasts all day, and
/// the zone of the machine knows it: then it is the instant that the zone gives for the
/// day and the time of day, midnight for an event that lasts all day.
pub proof fn law_times_are_those_of_the_zone(instant: Option<i64>, day: i32, time: Seq<char>, all_day: bool)
    requires
        placed_at(instant, day, time, all_day),
    ensures
        all_day ==> is_local_instant(day, 0, instant),
        !all_day && clock_seconds(trimmed(time)) is Some ==> is_local_instant(
            day,
            clock_seconds(trimmed(time))->0,
            instant,
        ),
        !all_day && clock_seconds(trimmed(time)) is None ==> instant is None,
{
}

/// The instant of a day and a time in the machine's time zone, in seconds since the Unix
/// epoch: none where the time cannot be read or the zone leaves it out.
pub fn to_utc(day: i32, time: &str, all_day: bool) -> (instant: Option<i64>)
    requires
        valid_day(day),
    ensures
        placed_at(instant, day, time@, all_day),
{
    let seconds: u32 = if all_day {
        0
    } else {
        let core = trim(time);
        match parse_clock(core.as_str()) {
            Some(seconds) => seconds,
            None => {
                return None;
            },
        }
    };
    instant_at(day, seconds)
}

impl EventForm {
    /// A new form.
    pub fn new(
        id: u64,
        account_id: AccountId,
        day: i32,
        inline: bool,
        mode: EventComposeMode,
        event: Option<(EditedEvent, LocalTimes)>,
        restored: Option<EventComposeSession>,
    ) -> (form: EventForm)
        ensures
            form.deep_view() == form_of(
                id,
                account_id.0@,
                day,
                inline,
                mode.deep_view(),
                event.deep_view(),
                restored.deep_view(),
            ),
    {
        let mut form = EventForm {
            id,
            account_id,
            subject: String::new(),
            location: String::new(),
            attendees: String::new(),
            description: String::new(),
            start_day: Some(day),
            start_time: "09:00".to_owned(),
            end_day: Some(day),
            end_time: "10:00".to_owned(),
            all_day: false,
            online_meeting: false,
            submitting: false,
            error: None,
            inline,
            mode,
        };
        match restored {
            Some(session) => {
                form.subject = session.subject;
                form.location = session.location;
                form.attendees = session.attendees;
                form.description = session.description;
                form.start_day = Some(session.start_day);
                form.start_time = session.start_time;
                form.end_day = Some(session.end_day);
                form.end_time = session.end_time;
                form.all_day = session.all_day;
                form.online_meeting = session.online_meeting;
            },
            None => {
                if let Some((event, times)) = event {
                    form.subject = event.subject;
                    form.location = event.location;
                    form.description = event.preview;
                    form.start_day = Some(times.start_day);
                    form.start_time = times.start_time;
                    form.end_day = Some(times.end_day);
                    form.end_time = times.end_time;
                    form.all_day = event.all_day;
                }
            },
        }
        assert(form.deep_view() =~= form_of(
            id,
            account_id.0@,
            day,
            inline,
            mode.deep_view(),
            event.deep_view(),
            restored.deep_view(),
        ));
        form
    }

    /// Puts other days into the form.
    pub fn set_range(&mut self, start: i32, end: i32)
        ensures
            final(self).deep_view() == (EventFormView {
                start_day: Some(start),
                end_day: Some(end),
                ..old(self).deep_view()
            }),
    {
        self.start_day = Some(start);
        self.end_day = Some(end);
    }

    /// The days of the form in order.
    pub fn selected_date_range(&self) -> (range: Option<(i32, i32)>)
        ensures
            range == self.deep_view().range(),
    {
        match (self.start_day, self.end_day) {
            (Some(start), Some(end)) => Some(ordered_days(start, end)),
            _ => None,
        }
    }

    /// What is kept of the form between runs.
    pub fn to_session(&self, detached: bool) -> (session: Option<EventComposeSession>)
        ensures
            session.deep_view() == self.deep_view().session(detached),
    {
        if self.submitting {
            return None;
        }
        match (self.start_day, self.end_day) {
            (Some(start_day), Some(end_day)) => Some(
                EventComposeSession {
                    detached,
                    account_id: self.account_id.clone(),
                    subject: self.subject.clone(),
                    location: self.location.clone(),
                    attendees: self.attendees.clone(),
                    description: self.description.clone(),
                    start_day,
                    start_time: self.start_time.clone(),
                    end_day,
                    end_time: self.end_time.clone(),
                    all_day: self.all_day,
                    online_meeting: self.online_meeting,
                    mode: self.mode.clone(),
                },
            ),
            _ => None,
        }
    }

    /// The provider refused the event.
    pub fn on_error(&mut self, error: String)
        ensures
            final(self).deep_view() == (EventFormView {
                submitting: false,
                error: Some(FormErrorView::Provider { error: error@ }),
                ..old(self).deep_view()
            }),
    {
        self.submitting = false;
        self.error = Some(FormError::Provider { error });
    }

    fn find_problem(&self, start: Option<i64>, end: Option<i64>, attendees: &Vec<(String, bool)>) -> (problem: Option<
        FormError,
    >)
        ensures
            problem.deep_view() == self.deep_view().problem(start, end, attendees.deep_view()),
    {
        let ghost all = attendees.deep_view();
        let subject = trim(self.subject.as_str());
        if subject.as_str().is_empty() {
            return Some(FormError::Subject);
        }
        if self.start_day.is_none() || self.end_day.is_none() {
            return Some(FormError::Dates);
        }
        let (from, to): (i64, i64) = match (start, end) {
            (Some(from), Some(to)) => (from, to),
            _ => {
                return Some(FormError::Dates);
            },
        };
        if (!self.all_day && to <= from) || (self.all_day && to < from) {
            return Some(FormError::Order);
        }
        proof {
            lemma_first_index(all, no_address());
        }
        if self.mode.is_edit() {
            return None;
        }
        let found = position_where(
            attendees,
            |attendee: &(String, bool)| -> (wrong: bool)
                ensures
                    wrong == !attendee.deep_view().1
                { !attendee.1 },
            Ghost(no_address()),
        );
        match found {
            Some(i) => {
                assert(all[i as int] == attendees[i as int].deep_view());
                Some(FormError::Attendee { value: attendees[i].0.clone() })
            },
            None => None,
        }
    }

    fn make_draft(
        &self,
        start: i64,
        end: i64,
        attendees: &Vec<(String, bool)>,
        provider: Option<Provider>,
        rendered: &str,
    ) -> (event: EventDraft)
        ensures
            event.deep_view() == self.deep_view().draft(start, end, attendees.deep_view(), provider, rendered@),
    {
        let editing = self.mode.is_edit();
        let ghost all = attendees.deep_view();
        let mut addresses: Vec<String> = Vec::new();
        if !editing {
            let mut i: usize = 0;
            while i < attendees.len()
                invariant
                    i <= attendees.len(),
                    addresses.len() == i,
                    forall|j: int| 0 <= j < i ==> (#[trigger] addresses[j]).deep_view() == attendees[j].0@,
                decreases attendees.len() - i,
            {
                addresses.push(attendees[i].0.clone());
                i += 1;
            }
        }
        let words = trim(self.description.as_str());
        let description = if words.as_str().is_empty() {
            String::new()
        } else {
            rendered.to_owned()
        };
        let online_meeting = if self.online_meeting && !editing {
            match provider {
                Some(Provider::Microsoft) => Some(OnlineMeetingKind::Teams),
                Some(Provider::Google) => Some(OnlineMeetingKind::GoogleMeet),
                _ => None,
            }
        } else {
            None
        };
        let event = EventDraft {
            subject: trim(self.subject.as_str()),
            description,
            location: trim(self.location.as_str()),
            start,
            end,
            all_day: self.all_day,
            online_meeting,
            attendees: addresses,
        };
        let ghost wanted = self.deep_view().draft(start, end, all, provider, rendered@);
        assert(event.deep_view().attendees =~= wanted.attendees);
        assert(event.deep_view() =~= wanted);
        event
    }

    /// Submits the form, given the instants of its start and end, the provider of its account
    /// and the HTML of its description.
    pub fn finish(
        &mut self,
        start: Option<i64>,
        end: Option<i64>,
        attendees: &Vec<(String, bool)>,
        provider: Option<Provider>,
        rendered: &str,
    ) -> (request: Option<EventRequest>)
        ensures
            (final(self).deep_view(), request.deep_view()) == old(self).deep_view().submitted(
                start,
                end,
                attendees.deep_view(),
                provider,
                rendered@,
            ),
    {
        if let Some(problem) = self.find_problem(start, end, attendees) {
            self.error = Some(problem);
            return None;
        }
        let (from, to): (i64, i64) = match (start, end) {
            (Some(from), Some(to)) => (from, to),
            _ => {
                return None;
            },
        };
        let event = self.make_draft(from, to, attendees, provider, rendered);
        self.submitting = true;
        self.error = None;
        match &self.mode {
            EventComposeMode::Create => Some(
                EventRequest::Create { request_id: self.id, account_id: self.account_id.clone(), event },
            ),
            EventComposeMode::Edit { event_id } => Some(
                EventRequest::Update {
                    request_id: self.id,
                    account_id: self.account_id.clone(),
                    event_id: event_id.clone(),
                    event,
                },
            ),
        }
    }

    /// Submits the form: the machine's time zone gives its days and times their instants, and
    /// `accounts` its account the provider. `rendered` is the HTML that its description, read
    /// as Markdown, becomes.
    pub fn submit(&mut self, attendees: &Vec<(String, bool)>, accounts: &Vec<ComposeAccount>, rendered: &str) -> (request:
        Option<EventRequest>)
        requires
            old(self).start_day is Some ==> valid_day(old(self).start_day->0),
            old(self).end_day is Some ==> valid_day(old(self).end_day->0),
        ensures
            exists|start: Option<i64>, end: Option<i64>|
                {
                    &&& (final(self).deep_view(), request.deep_view()) == #[trigger] old(self).deep_view().submitted(
                        start,
                        end,
                        attendees.deep_view(),
                        provider_of_account(accounts.deep_view(), old(self).account_id.0@),
                        rendered@,
                    )
                    &&& old(self).start_day is Some ==> placed_at(
                        start,
                        old(self).start_day->0,
                        old(self).start_time@,
                        old(self).all_day,
                    )
                    &&& old(self).end_day is Some ==> placed_at(
                        end,
                        old(self).end_day->0,
                        old(self).end_time@,
                        old(self).all_day,
                    )
                },
    {
        let start: Option<i64> = match self.start_day {
            Some(day) => to_utc(day, self.start_time.as_str(), self.all_day),
            None => None,
        };
        let end: Option<i64> = match self.end_day {
            Some(day) => to_utc(day, self.end_time.as_str(), self.all_day),
            None => None,
        };
        let provider = provider_among(accounts, &self.account_id);
        self.finish(start, end, attendees, provider, rendered)
    }

    /// What the form shows beside its fields.
    pub fn face(&self) -> (face: EventFormFace)
        ensures
            face.deep_view() == self.deep_view().face(),
    {
        let editing = self.mode.is_edit();
        EventFormFace {
            title: self.mode.title(),
            header: self.inline,
            header_enabled: !self.submitting,
            online_checkbox: !editing,
            times: !self.all_day,
            attendees: !editing,
            account_picker: !editing,
            submit_label: if self.submitting {
                if editing {
                    "status-event-updating"
                } else {
                    "status-event-creating"
                }
            } else if editing {
                "calendar-event-save"
            } else {
                "calendar-new-event-create"
            },
            submit_enabled: !self.submitting,
        }
    }
}

/// An account as one that events can be made in.
pub open spec fn writable() -> spec_fn(AccountView) -> bool {
    |account: AccountView| account.provider != Provider::Imap
}

impl AviaryApp {
    /// An account as one that events can be made in.
    pub open spec fn compose_account(self, account: AccountView) -> ComposeAccountView {
        ComposeAccountView {
            id: account.id,
            label: self.title_of(account),
            email: account.email,
            color_override: self.settings.account_view(account.id).color_override,
            provider: account.provider,
        }
    }

    /// The accounts that events can be made in: those with a calendar.
    pub open spec fn writable_accounts(self) -> Seq<ComposeAccountView> {
        self.ordered().filter(writable()).map_values(|account: AccountView| self.compose_account(account))
    }

    /// The accounts that events can be made in.
    pub fn calendar_compose_accounts(&self) -> (accounts: Vec<ComposeAccount>)
        ensures
            accounts.deep_view() == self.writable_accounts(),
    {
        let ordered = self.ordered_accounts();
        let ghost all = ordered.deep_view();
        let ghost make = |account: AccountView| self.compose_account(account);
        let mut accounts: Vec<ComposeAccount> = Vec::new();
        let mut i: usize = 0;
        proof {
            reveal(Seq::filter);
            assert(accounts.deep_view() =~= all.take(0).filter(writable()).map_values(make));
        }
        while i < ordered.len()
            invariant
                i <= ordered.len(),
                all == ordered.deep_view(),
                make == (|account: AccountView| self.compose_account(account)),
                accounts.deep_view() == all.take(i as int).filter(writable()).map_values(make),
            decreases ordered.len() - i,
        {
            let ghost before = accounts.deep_view();
            let account = &ordered[i];
            proof {
                reveal(Seq::filter);
                assert(all[i as int] == account.deep_view());
                assert(all.take(i + 1).drop_last() =~= all.take(i as int));
                let front = all.take(i as int).filter(writable());
                assert(front.push(all[i as int]).map_values(make) =~= front.map_values(make).push(make(all[i as int])));
            }
            if account.provider != Provider::Imap {
                let color_override = match self.settings.accounts.get(&account.id) {
                    Some(settings) => settings.color_override,
                    None => None,
                };
                accounts.push(
                    ComposeAccount {
                        id: account.id.clone(),
                        label: self.account_label(account),
                        email: account.email.clone(),
                        color_override,
                        provider: account.provider,
                    },
                );
                assert(accounts.deep_view() =~= before.push(make(all[i as int])));
            }
            i += 1;
        }
        assert(all.take(all.len() as int) =~= all);
        accounts
    }
}

/// The composers of the calendar.
#[derive(Debug)]
pub struct EventComposes {
    pub handles: Vec<EventHandle>,
    /// The composer in the pane of the calendar.
    pub inline: Option<u64>,
    /// Forms that wait for their accounts.
    pub pending: Vec<EventComposeSession>,
    /// The day that the calendar stands on.
    pub anchor: Option<i32>,
    /// The days that are marked.
    pub selection: Option<(i32, i32)>,
    /// Number of the last composer.
    pub seq: u64,
}

/// Mathematical form of [`EventComposes`].
#[verifier::ext_equal]
pub struct EventComposesView {
    pub handles: Seq<EventHandleView>,
    pub inline: Option<u64>,
    pub pending: Seq<EventComposeSessionView>,
    pub anchor: Option<i32>,
    pub selection: Option<(i32, i32)>,
    pub seq: u64,
}

impl DeepView for EventComposes {
    type V = EventComposesView;

    open spec fn deep_view(&self) -> EventComposesView {
        EventComposesView {
            handles: self.handles.deep_view(),
            inline: self.inline,
            pending: self.pending.deep_view(),
            anchor: self.anchor,
            selection: self.selection,
            seq: self.seq,
        }
    }
}

/// What came of opening a composer.
#[derive(Debug, Clone, Copy, PartialEq, Eq, Structural)]
pub enum ComposeOpening {
    /// The form that was open took the days over.
    Reused,
    /// No account has a calendar.
    NoAccount,
    Opened,
}

/// Whether a composer has the given id.
pub open spec fn handle_of(id: u64) -> spec_fn(EventHandleView) -> bool {
    |handle: EventHandleView| handle.form.id == id
}

/// Whether an account is the given one.
pub open spec fn compose_account_named(id: Seq<char>) -> spec_fn(ComposeAccountView) -> bool {
    |account: ComposeAccountView| account.id == id
}

/// The account that a new event is made in: the preferred one if events can be made there,
/// else the first.
pub open spec fn creation_account(accounts: Seq<ComposeAccountView>, preferred: Option<Seq<char>>) -> Seq<char> {
    match preferred {
        Some(id) if accounts.any(compose_account_named(id)) => id,
        _ => accounts[0].id,
    }
}

/// The account that a new event is made in.
pub fn account_for_creation(accounts: &Vec<ComposeAccount>, preferred: Option<AccountId>) -> (account_id: AccountId)
    requires
        accounts.len() > 0,
    ensures
        account_id.0@ == creation_account(accounts.deep_view(), preferred.deep_view()),
{
    assert(accounts.deep_view()[0] == accounts[0].deep_view());
    if let Some(id) = preferred {
        if names_account(accounts, &id) {
            return id;
        }
    }
    accounts[0].id.clone()
}

fn names_account(accounts: &Vec<ComposeAccount>, id: &AccountId) -> (yes: bool)
    ensures
        yes == accounts.deep_view().any(compose_account_named(id.0@)),
{
    any_where(
        accounts,
        |account: &ComposeAccount| -> (same: bool)
            ensures
                same == (account.deep_view().id == id.0@)
            { account.id == *id },
        Ghost(compose_account_named(id.0@)),
    )
}

/// The provider of an account: that of the first one with its id.
pub open spec fn provider_of_account(accounts: Seq<ComposeAccountView>, id: Seq<char>) -> Option<Provider> {
    match first_where(accounts, compose_account_named(id)) {
        Some(account) => Some(account.provider),
        None => None,
    }
}

/// The provider of an account.
pub fn provider_among(accounts: &Vec<ComposeAccount>, id: &AccountId) -> (provider: Option<Provider>)
    ensures
        provider == provider_of_account(accounts.deep_view(), id.0@),
{
    let ghost all = accounts.deep_view();
    proof {
        lemma_first_index(all, compose_account_named(id.0@));
    }
    let found = position_where(
        accounts,
        |account: &ComposeAccount| -> (same: bool)
            ensures
                same == (account.deep_view().id == id.0@)
            { account.id == *id },
        Ghost(compose_account_named(id.0@)),
    );
    match found {
        Some(i) => {
            assert(all[i as int] == accounts[i as int].deep_view());
            Some(accounts[i].provider)
        },
        None => None,
    }
}

impl EventComposesView {
    /// Every composer has a number of its own, up to the last that was given, and the one
    /// in the pane is one of them.
    pub open spec fn valid(self) -> bool {
        &&& forall|i: int, j: int|
            0 <= i < j < self.handles.len() ==> (#[trigger] self.handles[i]).form.id != (
            #[trigger] self.handles[j]).form.id
        &&& forall|i: int| 0 <= i < self.handles.len() ==> (#[trigger] self.handles[i]).form.id <= self.seq
        &&& self.inline is Some ==> self.handles.any(handle_of(self.inline->0))
    }

    /// The composer with the given id.
    pub open spec fn place(self, id: u64) -> Option<int> {
        first_index(self.handles, handle_of(id))
    }

    /// The form in the pane.
    pub open spec fn inline_form(self) -> Option<EventFormView> {
        match self.inline {
            Some(id) => match self.place(id) {
                Some(i) => Some(self.handles[i].form),
                None => None,
            },
            None => None,
        }
    }

    /// The days of the form in the pane are marked; a form that changes an event marks
    /// none.
    pub open spec fn synced(self) -> EventComposesView {
        EventComposesView {
            selection: match self.inline_form() {
                Some(form) => if form.mode.edits() {
                    None
                } else {
                    form.range()
                },
                None => None,
            },
            ..self
        }
    }

    /// After a composer was closed.
    pub open spec fn closed(self, id: u64) -> EventComposesView {
        let handles = match self.place(id) {
            Some(i) => self.handles.remove(i),
            None => self.handles,
        };
        if self.inline == Some(id) {
            EventComposesView { handles, inline: None, selection: None, ..self }
        } else {
            EventComposesView { handles, ..self }
        }
    }

    /// After a composer came into the pane.
    pub open spec fn registered(self, form: EventFormView) -> EventComposesView {
        (EventComposesView {
            handles: self.handles.push(EventHandleView { form, detached: false }),
            inline: Some(form.id),
            ..self
        }).synced()
    }

    /// After the composer in the pane got a window of its own, or was lost because none
    /// could be opened.
    pub open spec fn moved_out(self, id: u64, opened: bool) -> EventComposesView {
        if self.inline != Some(id) {
            self
        } else {
            let handles = match self.place(id) {
                Some(i) => if opened {
                    self.handles.update(
                        i,
                        EventHandleView {
                            form: EventFormView { inline: false, ..self.handles[i].form },
                            detached: true,
                        },
                    )
                } else {
                    self.handles.remove(i)
                },
                None => self.handles,
            };
            EventComposesView { handles, inline: None, selection: None, ..self }
        }
    }

    /// After other days were put into a form.
    pub open spec fn ranged(self, id: u64, start: i32, end: i32) -> EventComposesView {
        match self.place(id) {
            Some(i) => EventComposesView {
                handles: self.handles.update(
                    i,
                    EventHandleView {
                        form: EventFormView {
                            start_day: Some(start),
                            end_day: Some(end),
                            ..self.handles[i].form
                        },
                        ..self.handles[i]
                    },
                ),
                ..self
            },
            None => self,
        }
    }

    /// After days were chosen: a form that makes an event takes them over, and one that
    /// changes an event gives way to a new one.
    pub open spec fn opened_for(
        self,
        first: i32,
        last: i32,
        accounts: Seq<ComposeAccountView>,
        preferred: Option<Seq<char>>,
    ) -> (EventComposesView, ComposeOpening) {
        let (start, end) = in_order(first, last);
        match self.inline_form() {
            Some(form) if !form.mode.edits() => (
                EventComposesView {
                    anchor: Some(start),
                    selection: Some((start, end)),
                    ..self.ranged(form.id, start, end)
                },
                ComposeOpening::Reused,
            ),
            found => {
                let left = match found {
                    Some(form) => self.closed(form.id),
                    None => self,
                };
                if accounts.len() == 0 {
                    (EventComposesView { selection: None, ..left }, ComposeOpening::NoAccount)
                } else {
                    let id = (left.seq + 1) as u64;
                    let form = EventFormView {
                        end_day: Some(end),
                        ..form_of(
                            id,
                            creation_account(accounts, preferred),
                            start,
                            true,
                            EventComposeModeView::Create,
                            None,
                            None,
                        )
                    };
                    (
                        (EventComposesView {
                            anchor: Some(start),
                            selection: Some((start, end)),
                            seq: id,
                            ..left
                        }).registered(form),
                        ComposeOpening::Opened,
                    )
                }
            },
        }
    }

    /// After the form of an event was opened: whatever was in the pane gives way.
    pub open spec fn editing(self, event: EditedEventView, times: LocalTimesView, accounts: Seq<ComposeAccountView>) -> (
        EventComposesView,
        ComposeOpening,
    ) {
        let left = match self.inline {
            Some(id) => self.closed(id),
            None => self,
        };
        if !accounts.any(compose_account_named(event.account_id)) {
            (left, ComposeOpening::NoAccount)
        } else {
            let id = (left.seq + 1) as u64;
            let form = form_of(
                id,
                event.account_id,
                times.start_day,
                true,
                EventComposeModeView::Edit { event_id: event.id },
                Some((event, times)),
                None,
            );
            ((EventComposesView { seq: id, ..left }).registered(form), ComposeOpening::Opened)
        }
    }

    /// Whether a form that was kept can be opened again: its account is there, and it does
    /// not need the pane while another form is in it.
    pub open spec fn restorable(self, session: EventComposeSessionView, accounts: Seq<ComposeAccountView>) -> bool {
        accounts.any(compose_account_named(session.account_id)) && (session.detached || self.inline is None)
    }

    /// After a form that was kept was opened again. One with a window of its own leaves the
    /// pane as it was.
    pub open spec fn restored(self, session: EventComposeSessionView, opened: bool) -> EventComposesView {
        let id = (self.seq + 1) as u64;
        let form = form_of(
            id,
            session.account_id,
            session.start_day,
            true,
            session.mode,
            None,
            Some(session),
        );
        let numbered = EventComposesView { seq: id, ..self };
        if session.detached {
            (EventComposesView {
                inline: self.inline,
                ..(EventComposesView { inline: None, ..numbered }).registered(form).moved_out(id, opened)
            }).synced()
        } else {
            numbered.registered(form)
        }
    }

    /// After the forms `sessions` were opened again as far as they can be, and those that
    /// still wait.
    pub open spec fn restored_all(
        self,
        sessions: Seq<EventComposeSessionView>,
        accounts: Seq<ComposeAccountView>,
        opened: Seq<bool>,
    ) -> (EventComposesView, Seq<EventComposeSessionView>)
        decreases sessions.len(),
    {
        if sessions.len() == 0 {
            (self, Seq::empty())
        } else {
            let (before, waiting) = self.restored_all(sessions.drop_last(), accounts, opened);
            let session = sessions.last();
            if before.restorable(session, accounts) {
                (before.restored(session, opened[sessions.len() - 1]), waiting)
            } else {
                (before, waiting.push(session))
            }
        }
    }

    /// The accounts of the forms that are opened again, in order.
    pub open spec fn restored_accounts(
        self,
        sessions: Seq<EventComposeSessionView>,
        accounts: Seq<ComposeAccountView>,
        opened: Seq<bool>,
    ) -> Seq<Seq<char>>
        decreases sessions.len(),
    {
        if sessions.len() == 0 {
            Seq::empty()
        } else {
            let front = self.restored_accounts(sessions.drop_last(), accounts, opened);
            let before = self.restored_all(sessions.drop_last(), accounts, opened).0;
            if before.restorable(sessions.last(), accounts) {
                front.push(sessions.last().account_id)
            } else {
                front
            }
        }
    }

    /// The forms to keep between runs: those that wait, and those that are open.
    pub open spec fn sessions_of(self, n: int) -> Seq<EventComposeSessionView>
        decreases n,
    {
        if n <= 0 {
            self.pending
        } else {
            let front = self.sessions_of(n - 1);
            match self.handles[n - 1].form.session(self.handles[n - 1].detached) {
                Some(session) => front.push(session),
                None => front,
            }
        }
    }
}

impl EventComposes {
    fn position(&self, id: u64) -> (place: Option<usize>)
        ensures
            match place {
                Some(i) => self.deep_view().place(id) == Some(i as int) && i < self.handles.len(),
                None => self.deep_view().place(id) is None,
            },
    {
        proof {
            lemma_first_index(self.handles.deep_view(), handle_of(id));
        }
        position_where(
            &self.handles,
            |handle: &EventHandle| -> (same: bool)
                ensures
                    same == (handle.deep_view().form.id == id)
                { handle.form.id == id },
            Ghost(handle_of(id)),
        )
    }

    /// Marks the days of the form in the pane.
    pub fn sync_selection(&mut self)
        ensures
            final(self).deep_view() == old(self).deep_view().synced(),
    {
        let selection: Option<(i32, i32)> = match self.inline {
            Some(id) => match self.position(id) {
                Some(i) => {
                    assert(self.handles.deep_view()[i as int] == self.handles[i as int].deep_view());
                    if self.handles[i].form.mode.is_edit() {
                        None
                    } else {
                        self.handles[i].form.selected_date_range()
                    }
                },
                None => None,
            },
            None => None,
        };
        self.selection = selection;
    }

    /// Closes a composer.
    pub fn close_event_compose(&mut self, id: u64)
        ensures
            final(self).deep_view() == old(self).deep_view().closed(id),
    {
        let place = self.position(id);
        let inline = match self.inline {
            Some(shown) => shown == id,
            None => false,
        };
        if inline {
            self.inline = None;
            self.selection = None;
        }
        if let Some(i) = place {
            let ghost before = self.handles.deep_view();
            self.handles.remove(i);
            assert(self.handles.deep_view() =~= before.remove(i as int));
        }
    }

    fn register(&mut self, form: EventForm)
        ensures
            final(self).deep_view() == old(self).deep_view().registered(form.deep_view()),
    {
        let ghost before = self.handles.deep_view();
        let id: u64 = form.id;
        self.handles.push(EventHandle { form, detached: false });
        assert(self.handles.deep_view() =~= before.push(EventHandleView { form: form.deep_view(), detached: false }));
        self.inline = Some(id);
        self.sync_selection();
    }

    /// Gives the composer in the pane a window of its own; `opened` says whether that
    /// window could be opened.
    pub fn detach_event_compose(&mut self, id: u64, opened: bool)
        ensures
            final(self).deep_view() == old(self).deep_view().moved_out(id, opened),
    {
        match self.inline {
            Some(shown) => {
                if shown != id {
                    return;
                }
            },
            None => {
                return;
            },
        }
        let place = self.position(id);
        self.inline = None;
        self.selection = None;
        if let Some(i) = place {
            let ghost before = self.handles.deep_view();
            let ghost raw = self.handles@;
            assert(before[i as int] == raw[i as int].deep_view());
            if opened {
                let handle = &mut self.handles[i];
                handle.form.inline = false;
                handle.detached = true;
                assert(self.handles.deep_view() =~= before.update(
                    i as int,
                    EventHandleView {
                        form: EventFormView { inline: false, ..before[i as int].form },
                        detached: true,
                    },
                ));
            } else {
                self.handles.remove(i);
                assert(self.handles.deep_view() =~= before.remove(i as int));
            }
        }
    }

    /// The provider refused the event of a composer.
    pub fn event_compose_error(&mut self, id: u64, error: String)
        ensures
            final(self).deep_view() == (match old(self).deep_view().place(id) {
                Some(i) => EventComposesView {
                    handles: old(self).deep_view().handles.update(
                        i,
                        EventHandleView {
                            form: EventFormView {
                                submitting: false,
                                error: Some(FormErrorView::Provider { error: error@ }),
                                ..old(self).deep_view().handles[i].form
                            },
                            ..old(self).deep_view().handles[i]
                        },
                    ),
                    ..old(self).deep_view()
                },
                None => old(self).deep_view(),
            }),
    {
        if let Some(i) = self.position(id) {
            let ghost before = self.handles.deep_view();
            let ghost raw = self.handles@;
            assert(before[i as int] == raw[i as int].deep_view());
            let handle = &mut self.handles[i];
            handle.form.on_error(error);
            assert(self.handles.deep_view() =~= before.update(
                i as int,
                EventHandleView {
                    form: EventFormView {
                        submitting: false,
                        error: Some(FormErrorView::Provider { error: error@ }),
                        ..before[i as int].form
                    },
                    ..before[i as int]
                },
            ));
        }
    }

    fn set_range(&mut self, id: u64, start: i32, end: i32)
        ensures
            final(self).deep_view() == old(self).deep_view().ranged(id, start, end),
    {
        if let Some(i) = self.position(id) {
            let ghost before = self.handles.deep_view();
            let ghost raw = self.handles@;
            assert(before[i as int] == raw[i as int].deep_view());
            let handle = &mut self.handles[i];
            handle.form.set_range(start, end);
            assert(self.handles.deep_view() =~= before.update(
                i as int,
                EventHandleView {
                    form: EventFormView {
                        start_day: Some(start),
                        end_day: Some(end),
                        ..before[i as int].form
                    },
                    ..before[i as int]
                },
            ));
        }
    }

    /// Opens a composer for days that were chosen, in either order.
    pub fn open_event_compose_for_range(
        &mut self,
        first: i32,
        last: i32,
        accounts: &Vec<ComposeAccount>,
        preferred: Option<AccountId>,
    ) -> (opening: ComposeOpening)
        requires
            old(self).seq < u64::MAX,
        ensures
            (final(self).deep_view(), opening) == old(self).deep_view().opened_for(
                first,
                last,
                accounts.deep_view(),
                preferred.deep_view(),
            ),
    {
        let (start, end) = ordered_days(first, last);
        let place: Option<usize> = match self.inline {
            Some(id) => self.position(id),
            None => None,
        };
        if let Some(i) = place {
            assert(self.handles.deep_view()[i as int] == self.handles[i as int].deep_view());
            proof {
                lemma_first_index(self.handles.deep_view(), handle_of(self.inline->0));
            }
            let id: u64 = self.handles[i].form.id;
            if self.handles[i].form.mode.is_edit() {
                self.close_event_compose(id);
            } else {
                self.set_range(id, start, end);
                self.anchor = Some(start);
                self.selection = Some((start, end));
                return ComposeOpening::Reused;
            }
        }
        let ghost left = self.deep_view();
        if accounts.len() == 0 {
            self.selection = None;
            return ComposeOpening::NoAccount;
        }
        assert(accounts.deep_view().len() == accounts.len());
        self.anchor = Some(start);
        self.selection = Some((start, end));
        let account_id = account_for_creation(accounts, preferred);
        let id: u64 = self.seq + 1;
        self.seq = id;
        let mut form = EventForm::new(id, account_id, start, true, EventComposeMode::Create, None, None);
        if end != start {
            form.set_range(start, end);
        }
        self.register(form);
        ComposeOpening::Opened
    }

    /// Opens a composer for a day that was chosen.
    pub fn open_event_compose_for_day(&mut self, day: i32, accounts: &Vec<ComposeAccount>, preferred: Option<AccountId>) -> (
    opening: ComposeOpening)
        requires
            old(self).seq < u64::MAX,
        ensures
            (final(self).deep_view(), opening) == old(self).deep_view().opened_for(
                day,
                day,
                accounts.deep_view(),
                preferred.deep_view(),
            ),
    {
        self.open_event_compose_for_range(day, day, accounts, preferred)
    }

    /// Opens a composer for the day that the calendar stands on, which is today where it
    /// stands on none.
    pub fn open_event_compose(&mut self, today: i32, accounts: &Vec<ComposeAccount>, preferred: Option<AccountId>) -> (
    opening: ComposeOpening)
        requires
            old(self).seq < u64::MAX,
        ensures
            ({
                let day = match old(self).anchor {
                    Some(day) => day,
                    None => today,
                };
                (final(self).deep_view(), opening) == old(self).deep_view().opened_for(
                    day,
                    day,
                    accounts.deep_view(),
                    preferred.deep_view(),
                )
            }),
    {
        let day: i32 = match self.anchor {
            Some(day) => day,
            None => today,
        };
        self.open_event_compose_for_day(day, accounts, preferred)
    }

    /// Opens the form of an event.
    pub fn open_event_edit(&mut self, event: EditedEvent, times: LocalTimes, accounts: &Vec<ComposeAccount>) -> (opening:
        ComposeOpening)
        requires
            old(self).seq < u64::MAX,
        ensures
            (final(self).deep_view(), opening) == old(self).deep_view().editing(
                event.deep_view(),
                times.deep_view(),
                accounts.deep_view(),
            ),
    {
        if let Some(id) = self.inline {
            self.close_event_compose(id);
        }
        if !names_account(accounts, &event.account_id) {
            return ComposeOpening::NoAccount;
        }
        let id: u64 = self.seq + 1;
        self.seq = id;
        let mode = EventComposeMode::Edit { event_id: event.id.clone() };
        let account_id = event.account_id.clone();
        let day: i32 = times.start_day;
        let form = EventForm::new(id, account_id, day, true, mode, Some((event, times)), None);
        self.register(form);
        ComposeOpening::Opened
    }

    /// The forms to keep between runs.
    pub fn event_compose_sessions(&self) -> (sessions: Vec<EventComposeSession>)
        ensures
            sessions.deep_view() == self.deep_view().sessions_of(self.handles.len() as int),
    {
        let ghost all = self.deep_view();
        let mut sessions: Vec<EventComposeSession> = crate::model::clone_list(&self.pending);
        let mut i: usize = 0;
        while i < self.handles.len()
            invariant
                i <= self.handles.len(),
                all == self.deep_view(),
                sessions.deep_view() == all.sessions_of(i as int),
            decreases self.handles.len() - i,
        {
            let ghost before = sessions.deep_view();
            let handle = &self.handles[i];
            assert(all.handles[i as int] == handle.deep_view());
            if let Some(session) = handle.form.to_session(handle.detached) {
                sessions.push(session);
                assert(sessions.deep_view() =~= before.push(session.deep_view()));
            }
            i += 1;
        }
        sessions
    }

    fn restore(&mut self, session: EventComposeSession, opened: bool)
        requires
            old(self).seq < u64::MAX,
        ensures
            final(self).deep_view() == old(self).deep_view().restored(session.deep_view(), opened),
    {
        let id: u64 = self.seq + 1;
        self.seq = id;
        let detached = session.detached;
        let mode = session.mode.clone();
        let account_id = session.account_id.clone();
        let day: i32 = session.start_day;
        let form = EventForm::new(id, account_id, day, true, mode, None, Some(session));
        let shown: Option<u64> = self.inline;
        if detached {
            self.inline = None;
        }
        self.register(form);
        if detached {
            self.detach_event_compose(id, opened);
            self.inline = shown;
            self.sync_selection();
        }
    }

    /// Opens the forms that were kept as far as they can be; the others go on waiting.
    /// `opened` says of each whether a window of its own could be opened for it. Gives the
    /// accounts of those that were opened.
    pub fn restore_pending(&mut self, accounts: &Vec<ComposeAccount>, opened: &Vec<bool>) -> (restored: Vec<AccountId>)
        requires
            old(self).pending.len() == opened.len(),
            old(self).seq + old(self).pending.len() <= u64::MAX,
        ensures
            ({
                let before = old(self).deep_view();
                let cleared = EventComposesView { pending: Seq::empty(), ..before };
                let (after, waiting) = cleared.restored_all(before.pending, accounts.deep_view(), opened@);
                &&& final(self).deep_view() == (EventComposesView { pending: waiting, ..after })
                &&& restored.deep_view() == cleared.restored_accounts(before.pending, accounts.deep_view(), opened@)
            }),
    {
        let ghost start = self.deep_view();
        let sessions = crate::lists::take_list(&mut self.pending);
        let ghost all = sessions.deep_view();
        let ghost cleared = EventComposesView { pending: Seq::empty(), ..start };
        assert(self.deep_view() =~= cleared);
        let mut waiting: Vec<EventComposeSession> = Vec::new();
        let mut restored: Vec<AccountId> = Vec::new();
        let mut i: usize = 0;
        assert(waiting.deep_view() =~= Seq::<EventComposeSessionView>::empty());
        assert(restored.deep_view() =~= Seq::<Seq<char>>::empty());
        while i < sessions.len()
            invariant
                i <= sessions.len(),
                all == sessions.deep_view(),
                sessions.len() == opened.len(),
                self.seq <= start.seq + i,
                start.seq + sessions.len() <= u64::MAX,
                (self.deep_view(), waiting.deep_view()) == cleared.restored_all(
                    all.take(i as int),
                    accounts.deep_view(),
                    opened@,
                ),
                restored.deep_view() == cleared.restored_accounts(all.take(i as int), accounts.deep_view(), opened@),
            decreases sessions.len() - i,
        {
            let session = &sessions[i];
            let ghost before = waiting.deep_view();
            let ghost named = restored.deep_view();
            assert(all[i as int] == session.deep_view());
            assert(all.take(i + 1).drop_last() =~= all.take(i as int));
            let fits = names_account(accounts, &session.account_id) && (session.detached || self.inline.is_none());
            if fits {
                restored.push(session.account_id.clone());
                assert(restored.deep_view() =~= named.push(session.deep_view().account_id));
                self.restore(session.clone(), opened[i]);
            } else {
                waiting.push(session.clone());
                assert(waiting.deep_view() =~= before.push(session.deep_view()));
            }
            i += 1;
        }
        assert(all.take(all.len() as int) =~= all);
        self.pending = waiting;
        restored
    }
}

/// What is asked for when a composer was to be opened for days: the contacts of the account
/// that a new event is made in, or to tell that there is none.
pub open spec fn opening_asks(opening: ComposeOpening, account_id: Seq<char>) -> Seq<EffectView> {
    match opening {
        ComposeOpening::Reused => Seq::empty(),
        ComposeOpening::NoAccount => seq![EffectView::NotifyErrorKey { key: "calendar-no-writable-account"@ }],
        ComposeOpening::Opened => seq![EffectView::EnsureContacts { account_id }],
    }
}

/// Requests for the contacts of accounts.
pub open spec fn contact_asks(ids: Seq<Seq<char>>) -> Seq<EffectView> {
    ids.map_values(|account_id: Seq<char>| EffectView::EnsureContacts { account_id })
}

impl AviaryApp {
    /// What opening a composer for days does.
    pub open spec fn compose_opened(
        self,
        after: AviaryApp,
        composes: EventComposesView,
        composes_after: EventComposesView,
        opening: ComposeOpening,
        first: i32,
        last: i32,
        preferred: Option<Seq<char>>,
    ) -> bool {
        let accounts = self.writable_accounts();
        &&& (composes_after, opening) == composes.opened_for(first, last, accounts, preferred)
        &&& after.asked(self, opening_asks(opening, creation_account(accounts, preferred)))
        &&& after == (AviaryApp { effects: after.effects, ..self })
    }

    /// Opens a composer for days that were chosen, in either order. A form that makes an
    /// event takes them over.
    pub fn open_event_compose_for_range(
        &mut self,
        composes: &mut EventComposes,
        first: i32,
        last: i32,
        preferred: Option<AccountId>,
    ) -> (opening: ComposeOpening)
        requires
            old(composes).seq < u64::MAX,
        ensures
            old(self).compose_opened(
                *final(self),
                old(composes).deep_view(),
                final(composes).deep_view(),
                opening,
                first,
                last,
                preferred.deep_view(),
            ),
    {
        let ghost start = self.effects.deep_view();
        let accounts = self.calendar_compose_accounts();
        let ghost wanted = preferred.deep_view();
        let chosen: Option<AccountId> = match &preferred {
            Some(id) => Some(id.clone()),
            None => None,
        };
        assert(chosen.deep_view() == wanted);
        let opening = composes.open_event_compose_for_range(first, last, &accounts, preferred);
        match opening {
            ComposeOpening::Reused => {
                assert(self.effects.deep_view() =~= start + Seq::<EffectView>::empty());
            },
            ComposeOpening::NoAccount => {
                self.send(Effect::NotifyErrorKey { key: "calendar-no-writable-account" });
            },
            ComposeOpening::Opened => {
                assert(accounts.deep_view().len() == accounts.len());
                let account_id = account_for_creation(&accounts, chosen);
                self.send(Effect::EnsureContacts { account_id });
            },
        }
        opening
    }

    /// Opens a composer for a day that was chosen.
    pub fn open_event_compose_for_day(&mut self, composes: &mut EventComposes, day: i32, preferred: Option<AccountId>) -> (
    opening: ComposeOpening)
        requires
            old(composes).seq < u64::MAX,
        ensures
            old(self).compose_opened(
                *final(self),
                old(composes).deep_view(),
                final(composes).deep_view(),
                opening,
                day,
                day,
                preferred.deep_view(),
            ),
    {
        self.open_event_compose_for_range(composes, day, day, preferred)
    }

    /// Opens a composer for the day that the calendar stands on, which is today where it
    /// stands on none.
    pub fn open_event_compose(&mut self, composes: &mut EventComposes, today: i32, preferred: Option<AccountId>) -> (
    opening: ComposeOpening)
        requires
            old(composes).seq < u64::MAX,
        ensures
            ({
                let day = match old(composes).anchor {
                    Some(day) => day,
                    None => today,
                };
                old(self).compose_opened(
                    *final(self),
                    old(composes).deep_view(),
                    final(composes).deep_view(),
                    opening,
                    day,
                    day,
                    preferred.deep_view(),
                )
            }),
    {
        let day: i32 = match composes.anchor {
            Some(day) => day,
            None => today,
        };
        self.open_event_compose_for_day(composes, day, preferred)
    }

    /// Opens the form of an event, which is then no longer selected in the calendar. Where
    /// events cannot be made in its account that is told, and it stays selected.
    pub fn open_event_edit(&mut self, composes: &mut EventComposes, event: EditedEvent, times: LocalTimes) -> (opening:
        ComposeOpening)
        requires
            old(composes).seq < u64::MAX,
        ensures
            (final(composes).deep_view(), opening) == old(composes).deep_view().editing(
                event.deep_view(),
                times.deep_view(),
                old(self).writable_accounts(),
            ),
            match opening {
                ComposeOpening::NoAccount => {
                    &&& final(self).asked(
                        *old(self),
                        seq![EffectView::NotifyErrorKey { key: "calendar-no-writable-account"@ }],
                    )
                    &&& *final(self) == (AviaryApp { effects: final(self).effects, ..*old(self) })
                },
                _ => {
                    &&& final(self).calendar.selected is None
                    &&& *final(self) == (AviaryApp {
                        calendar: CalendarState { selected: None, ..old(self).calendar },
                        ..*old(self)
                    })
                },
            },
    {
        let accounts = self.calendar_compose_accounts();
        let opening = composes.open_event_edit(event, times, &accounts);
        match opening {
            ComposeOpening::NoAccount => {
                self.send(Effect::NotifyErrorKey { key: "calendar-no-writable-account" });
            },
            _ => {
                self.calendar.selected = None;
            },
        }
        opening
    }

    /// Opens the forms that were kept as far as they can be, and asks for the contacts of
    /// their accounts. `opened` says of each whether a window of its own could be opened.
    pub fn restore_pending_event_composes(&mut self, composes: &mut EventComposes, opened: &Vec<bool>)
        requires
            old(composes).pending.len() == opened.len(),
            old(composes).seq + old(composes).pending.len() <= u64::MAX,
        ensures
            ({
                let before = old(composes).deep_view();
                let accounts = old(self).writable_accounts();
                let cleared = EventComposesView { pending: Seq::empty(), ..before };
                let (after, waiting) = cleared.restored_all(before.pending, accounts, opened@);
                &&& final(composes).deep_view() == (EventComposesView { pending: waiting, ..after })
                &&& final(self).asked(
                    *old(self),
                    contact_asks(cleared.restored_accounts(before.pending, accounts, opened@)),
                )
            }),
            *final(self) == (AviaryApp { effects: final(self).effects, ..*old(self) }),
    {
        let ghost start = *self;
        let accounts = self.calendar_compose_accounts();
        let restored = composes.restore_pending(&accounts, opened);
        let ghost all = restored.deep_view();
        let mut i: usize = 0;
        assert(self.effects.deep_view() =~= start.effects.deep_view() + contact_asks(all.take(0)));
        while i < restored.len()
            invariant
                i <= restored.len(),
                all == restored.deep_view(),
                self.asked(start, contact_asks(all.take(i as int))),
                *self == (AviaryApp { effects: self.effects, ..start }),
            decreases restored.len() - i,
        {
            let ghost middle = *self;
            assert(all[i as int] == restored[i as int].deep_view());
            self.send(Effect::EnsureContacts { account_id: restored[i].clone() });
            proof {
                let ask = seq![EffectView::EnsureContacts { account_id: all[i as int] }];
                AviaryApp::lemma_asked(start, middle, *self, contact_asks(all.take(i as int)), ask);
                assert(contact_asks(all.take(i as int)) + ask =~= contact_asks(all.take(i + 1)));
            }
            i += 1;
        }
        assert(all.take(all.len() as int) =~= all);
    }
}

/// What is kept of a form and opened again is the same form, under another number.
pub proof fn law_forms_survive(form: EventFormView, detached: bool, id: u64)
    requires
        form.session(detached) is Some,
    ensures
        ({
            let session = form.session(detached)->0;
            form_of(id, session.account_id, session.start_day, form.inline, session.mode, None, Some(session))
                == (EventFormView { id, error: None, ..form })
        }),
{
    let session = form.session(detached)->0;
    assert(form_of(id, session.account_id, session.start_day, form.inline, session.mode, None, Some(session))
        =~= (EventFormView { id, error: None, ..form }));
}

/// A form asks for an event at most once: one that is on its way is not kept, and one that
/// was refused can be submitted again.
pub proof fn law_forms_are_sent_once(
    form: EventFormView,
    start: Option<i64>,
    end: Option<i64>,
    attendees: Seq<(Seq<char>, bool)>,
    provider: Option<Provider>,
    rendered: Seq<char>,
)
    ensures
        ({
            let (after, request) = form.submitted(start, end, attendees, provider, rendered);
            &&& request is Some ==> after.session(true) is None && after.session(false) is None
                && !after.face().submit_enabled
            &&& request is None ==> after.error is Some && after.submitting == form.submitting
        }),
{
}

/// An event that is sent has a subject and ends after it starts, or on the same day where it
/// lasts all day.
pub proof fn law_events_are_sound(
    form: EventFormView,
    start: Option<i64>,
    end: Option<i64>,
    attendees: Seq<(Seq<char>, bool)>,
    provider: Option<Provider>,
    rendered: Seq<char>,
)
    requires
        form.problem(start, end, attendees) is None,
    ensures
        start is Some,
        end is Some,
        form.draft(start->0, end->0, attendees, provider, rendered).subject.len() > 0,
        form.all_day ==> start->0 <= end->0,
        !form.all_day ==> start->0 < end->0,
{
}

proof fn lemma_closed(composes: EventComposesView, id: u64)
    requires
        composes.valid(),
    ensures
        composes.closed(id).valid(),
        !composes.closed(id).handles.any(handle_of(id)),
{
    let after = composes.closed(id);
    lemma_first_index(composes.handles, handle_of(id));
    match composes.place(id) {
        Some(i) => {
            assert forall|j: int| 0 <= j < after.handles.len() implies (#[trigger] after.handles[j]).form.id != id
                && after.handles[j].form.id <= after.seq by {
                if j < i {
                    assert(after.handles[j] == composes.handles[j]);
                    assert(composes.handles[j].form.id != composes.handles[i].form.id);
                } else {
                    assert(after.handles[j] == composes.handles[j + 1]);
                    assert(composes.handles[i].form.id != composes.handles[j + 1].form.id);
                }
            }
            assert forall|j: int, k: int| 0 <= j < k < after.handles.len() implies (
            #[trigger] after.handles[j]).form.id != (#[trigger] after.handles[k]).form.id by {
                let a = if j < i {
                    j
                } else {
                    j + 1
                };
                let b = if k < i {
                    k
                } else {
                    k + 1
                };
                assert(after.handles[j] == composes.handles[a]);
                assert(after.handles[k] == composes.handles[b]);
            }
            if after.inline is Some {
                let shown = after.inline->0;
                let k = choose|k: int| 0 <= k < composes.handles.len() && handle_of(shown)(composes.handles[k]);
                let at = if k < i {
                    k
                } else {
                    k - 1
                };
                assert(after.handles[at] == composes.handles[k]);
                assert(handle_of(shown)(after.handles[at]));
            }
        },
        None => {
            assert forall|j: int| 0 <= j < composes.handles.len() implies !handle_of(id)(
                #[trigger] composes.handles[j],
            ) by {}
            if composes.inline == Some(id) {
                let k = choose|k: int| 0 <= k < composes.handles.len() && handle_of(id)(composes.handles[k]);
                assert(!handle_of(id)(composes.handles[k]));
            }
        },
    }
}

proof fn lemma_registered(composes: EventComposesView, form: EventFormView)
    requires
        composes.valid(),
        composes.seq < form.id,
    ensures
        (EventComposesView { seq: form.id, ..composes }).registered(form).valid(),
{
    let after = (EventComposesView { seq: form.id, ..composes }).registered(form);
    assert(after.handles[composes.handles.len() as int] == (EventHandleView { form, detached: false }));
    assert(handle_of(form.id)(after.handles[composes.handles.len() as int]));
}

/// Closing, opening and giving a window of its own leave the composers in order.
pub proof fn law_composers_stay_in_order(
    composes: EventComposesView,
    id: u64,
    first: i32,
    last: i32,
    accounts: Seq<ComposeAccountView>,
    preferred: Option<Seq<char>>,
    opened: bool,
)
    requires
        composes.valid(),
        composes.seq < u64::MAX,
    ensures
        composes.closed(id).valid(),
        composes.moved_out(id, opened).valid(),
        composes.opened_for(first, last, accounts, preferred).0.valid(),
{
    lemma_closed(composes, id);
    lemma_first_index(composes.handles, handle_of(id));
    if composes.inline == Some(id) {
        let after = composes.moved_out(id, opened);
        if !opened {
            assert(after =~= composes.closed(id));
        } else if composes.place(id) is Some {
            let i = composes.place(id)->0;
            assert forall|j: int| 0 <= j < after.handles.len() implies (#[trigger] after.handles[j]).form.id
                == composes.handles[j].form.id by {}
            assert forall|j: int, k: int| 0 <= j < k < after.handles.len() implies (
            #[trigger] after.handles[j]).form.id != (#[trigger] after.handles[k]).form.id by {
                assert(composes.handles[j].form.id != composes.handles[k].form.id);
            }
        }
    }
    let (start, end) = in_order(first, last);
    match composes.inline_form() {
        Some(form) if !form.mode.edits() => {
            let ranged = composes.ranged(form.id, start, end);
            lemma_first_index(composes.handles, handle_of(form.id));
            lemma_first_index(composes.handles, handle_of(composes.inline->0));
            assert forall|j: int| 0 <= j < ranged.handles.len() implies (#[trigger] ranged.handles[j]).form.id
                == composes.handles[j].form.id by {}
            assert forall|j: int, k: int| 0 <= j < k < ranged.handles.len() implies (
            #[trigger] ranged.handles[j]).form.id != (#[trigger] ranged.handles[k]).form.id by {
                assert(composes.handles[j].form.id != composes.handles[k].form.id);
            }
            let shown = composes.inline->0;
            let k = choose|k: int| 0 <= k < composes.handles.len() && handle_of(shown)(composes.handles[k]);
            assert(handle_of(shown)(ranged.handles[k]));
        },
        found => {
            let left = match found {
                Some(form) => composes.closed(form.id),
                None => composes,
            };
            match found {
                Some(form) => {
                    lemma_closed(composes, form.id);
                },
                None => {},
            }
            if accounts.len() > 0 {
                let number = (left.seq + 1) as u64;
                let form = EventFormView {
                    end_day: Some(end),
                    ..form_of(
                        number,
                        creation_account(accounts, preferred),
                        start,
                        true,
                        EventComposeModeView::Create,
                        None,
                        None,
                    )
                };
                let placed = EventComposesView {
                    anchor: Some(start),
                    selection: Some((start, end)),
                    ..left
                };
                lemma_registered(placed, form);
            }
        },
    }
}

/// Opening the form of an event, and opening forms again that were kept, leave the composers
/// in order too.
pub proof fn law_reopened_composers_stay_in_order(
    composes: EventComposesView,
    event: EditedEventView,
    times: LocalTimesView,
    accounts: Seq<ComposeAccountView>,
    session: EventComposeSessionView,
    opened: bool,
)
    requires
        composes.valid(),
        composes.seq < u64::MAX,
    ensures
        composes.editing(event, times, accounts).0.valid(),
        composes.restored(session, opened).valid(),
{
    let number = (composes.seq + 1) as u64;
    match composes.inline {
        Some(id) => {
            lemma_closed(composes, id);
        },
        None => {},
    }
    let left = match composes.inline {
        Some(id) => composes.closed(id),
        None => composes,
    };
    assert(left.seq == composes.seq);
    let edited = form_of(
        number,
        event.account_id,
        times.start_day,
        true,
        EventComposeModeView::Edit { event_id: event.id },
        Some((event, times)),
        None,
    );
    lemma_registered(left, edited);
    let form = form_of(number, session.account_id, session.start_day, true, session.mode, None, Some(session));
    if session.detached {
        let cleared = EventComposesView { inline: None, ..composes };
        lemma_registered(cleared, form);
        let inside = (EventComposesView { seq: number, ..cleared }).registered(form);
        let outside = inside.moved_out(number, opened);
        let last = composes.handles.len() as int;
        assert forall|j: int| 0 <= j < last implies !handle_of(number)(#[trigger] inside.handles[j]) by {
            assert(inside.handles[j] == composes.handles[j]);
        }
        lemma_first_index_is(inside.handles, handle_of(number), last);
        let after = composes.restored(session, opened);
        assert(after.handles == outside.handles);
        assert forall|j: int| 0 <= j < last implies #[trigger] after.handles[j] == composes.handles[j] by {}
        assert forall|i: int, j: int| 0 <= i < j < after.handles.len() implies (#[trigger] after.handles[i]).form.id != (
        #[trigger] after.handles[j]).form.id by {
            if j < last {
                assert(after.handles[i] == composes.handles[i] && after.handles[j] == composes.handles[j]);
            } else {
                assert(after.handles[i] == composes.handles[i]);
            }
        }
        if composes.inline is Some {
            let shown = composes.inline->0;
            let k = choose|k: int| 0 <= k < composes.handles.len() && handle_of(shown)(composes.handles[k]);
            assert(after.handles[k] == composes.handles[k]);
            assert(handle_of(shown)(after.handles[k]));
        }
    } else {
        lemma_registered(composes, form);
    }
}

} // verus!
