use aviary::event_compose::{
    account_for_creation, local_times, ordered_days, provider_among, to_utc, ComposeAccount, ComposeOpening, EditedEvent,
    EventComposeMode, EventComposes, EventForm, EventRequest, FormError, LocalTimes, OnlineMeetingKind,
};
use aviary::model::{Account, AccountId, Provider};
use aviary::settings::Settings;
use aviary::state::{AviaryApp, Effect};
use chrono::{Datelike, NaiveDate, TimeZone};

fn day(year: i32, month: u32, day: u32) -> i32 {
    NaiveDate::from_ymd_opt(year, month, day).expect("date").num_days_from_ce()
}

fn account(id: &str) -> ComposeAccount {
    ComposeAccount {
        id: AccountId(id.into()),
        label: id.into(),
        email: format!("{id}@example.test"),
        color_override: None,
        provider: Provider::Google,
    }
}

fn composes() -> EventComposes {
    EventComposes { handles: Vec::new(), inline: None, pending: Vec::new(), anchor: None, selection: None, seq: 0 }
}

fn form() -> EventForm {
    EventForm::new(1, AccountId("a".into()), day(2026, 3, 15), true, EventComposeMode::Create, None, None)
}

#[test]
fn times_are_read_in_the_zone_of_the_machine() {
    let noon = to_utc(day(2026, 3, 15), "12:00", false).expect("instant");
    let expected = chrono::Local.with_ymd_and_hms(2026, 3, 15, 12, 0, 0).earliest().expect("instant");
    assert_eq!(noon, expected.timestamp());
    assert!(to_utc(day(2026, 3, 15), "25:00", false).is_none());
    assert!(to_utc(day(2026, 3, 15), "noon", false).is_none());
    let whole = to_utc(day(2026, 3, 15), "whatever", true).expect("instant");
    assert_eq!(whole, chrono::Local.with_ymd_and_hms(2026, 3, 15, 0, 0, 0).earliest().expect("instant").timestamp());
}

#[test]
fn a_day_long_event_ends_on_its_last_day() {
    let midnight = |d: u32| {
        chrono::Utc.with_ymd_and_hms(2026, 3, d, 0, 0, 0).single().expect("instant").timestamp() as i128
            * 1_000_000_000
    };
    let event = EditedEvent {
        account_id: AccountId("a".into()),
        id: "e".into(),
        subject: "Trip".into(),
        location: String::new(),
        preview: String::new(),
        start: midnight(15),
        end: midnight(18),
        all_day: true,
    };
    let times = local_times(&event);
    assert_eq!((times.start_day, times.end_day), (day(2026, 3, 15), day(2026, 3, 17)));

    let timed = EditedEvent { all_day: false, ..event };
    let times = local_times(&timed);
    let local = chrono::Utc.with_ymd_and_hms(2026, 3, 15, 0, 0, 0).single().expect("instant").with_timezone(&chrono::Local);
    assert_eq!(times.start_day, local.date_naive().num_days_from_ce());
    assert_eq!(times.start_time, local.format("%H:%M").to_string());

    let later = EditedEvent { end: midnight(18) + 5_400_000_000_000, ..timed };
    let times = local_times(&later);
    let local = chrono::Utc.with_ymd_and_hms(2026, 3, 18, 1, 30, 0).single().expect("instant").with_timezone(&chrono::Local);
    assert_eq!(times.end_day, local.date_naive().num_days_from_ce());
    assert_eq!(times.end_time, local.format("%H:%M").to_string());
}

#[test]
fn a_form_says_what_is_wrong_with_it() {
    let mut form = form();
    assert!(form.submit(&Vec::new(), &Vec::new(), "").is_none());
    assert_eq!(form.error, Some(FormError::Subject));
    form.subject = " Meeting ".into();
    form.start_time = "9 o'clock".into();
    assert!(form.submit(&Vec::new(), &Vec::new(), "").is_none());
    assert_eq!(form.error, Some(FormError::Dates));
    form.start_time = "11:00".into();
    assert!(form.submit(&Vec::new(), &Vec::new(), "").is_none());
    assert_eq!(form.error, Some(FormError::Order));
    form.start_time = "09:00".into();
    let bad = vec![("a@example.test".to_string(), true), ("nobody".to_string(), false)];
    assert!(form.submit(&bad, &Vec::new(), "").is_none());
    assert_eq!(form.error, Some(FormError::Attendee { value: "nobody".into() }));
    form.on_error("refused".into());
    assert_eq!(form.error, Some(FormError::Provider { error: "refused".into() }));
    assert!(!form.submitting);
}

#[test]
fn a_sound_form_is_sent_once() {
    let mut form = form();
    form.subject = " Meeting ".into();
    form.description = "   ".into();
    form.online_meeting = true;
    let attendees = vec![("a@example.test".to_string(), true)];
    let Some(EventRequest::Create { request_id, event, .. }) = form.submit(&attendees, &vec![account("a")], "<p>   </p>")
    else {
        panic!("expected a request");
    };
    assert_eq!(request_id, 1);
    assert_eq!(event.subject, "Meeting");
    assert_eq!(event.description, "");
    assert_eq!(event.end - event.start, 3600);
    assert_eq!(event.attendees, vec!["a@example.test".to_string()]);
    assert_eq!(event.online_meeting, Some(OnlineMeetingKind::GoogleMeet));
    assert!(form.submitting);
    assert!(!form.face().submit_enabled);
    assert!(form.to_session(false).is_none());
}

#[test]
fn a_description_is_sent_as_it_was_rendered() {
    let mut form = form();
    form.subject = "Meeting".into();
    form.description = "**now**".into();
    let Some(EventRequest::Create { event, .. }) = form.submit(&Vec::new(), &Vec::new(), "<p><b>now</b></p>") else {
        panic!("expected a request");
    };
    assert_eq!(event.description, "<p><b>now</b></p>");
    assert_eq!(event.online_meeting, None);
}

#[test]
fn the_provider_is_that_of_the_forms_account() {
    let mut microsoft = account("m");
    microsoft.provider = Provider::Microsoft;
    let mut again = account("m");
    again.provider = Provider::Imap;
    let accounts = vec![account("a"), microsoft, again];
    assert_eq!(provider_among(&accounts, &AccountId("m".into())), Some(Provider::Microsoft));
    assert_eq!(provider_among(&accounts, &AccountId("a".into())), Some(Provider::Google));
    assert_eq!(provider_among(&accounts, &AccountId("b".into())), None);

    let mut form = form();
    form.subject = "Meeting".into();
    form.online_meeting = true;
    form.account_id = AccountId("m".into());
    let Some(EventRequest::Create { event, .. }) = form.submit(&Vec::new(), &accounts, "") else {
        panic!("expected a request");
    };
    assert_eq!(event.online_meeting, Some(OnlineMeetingKind::Teams));
}

fn app_with(providers: &[(&str, Provider)]) -> AviaryApp {
    let mut app = AviaryApp::new(Settings::default());
    for (id, provider) in providers {
        app.accounts.push(Account {
            id: AccountId(id.to_string()),
            provider: *provider,
            display_name: id.to_string(),
            email: format!("{id}@example.test"),
        });
    }
    app
}

#[test]
fn opening_a_composer_asks_for_the_contacts_of_its_account() {
    let mut app = app_with(&[("mail", Provider::Imap), ("b", Provider::Google)]);
    let mut composes = composes();
    assert_eq!(app.open_event_compose_for_range(&mut composes, 9, 7, None), ComposeOpening::Opened);
    assert!(matches!(&app.effects[..], [Effect::EnsureContacts { account_id }] if account_id.0 == "b"));
    assert_eq!(composes.handles[0].form.account_id.0, "b");
    app.effects.clear();
    assert_eq!(app.open_event_compose_for_day(&mut composes, 12, None), ComposeOpening::Reused);
    assert_eq!(app.open_event_compose(&mut composes, 1, None), ComposeOpening::Reused);
    assert_eq!(composes.selection, Some((12, 12)));
    assert!(app.effects.is_empty());

    let mut lone = app_with(&[("mail", Provider::Imap)]);
    composes.close_event_compose(1);
    assert_eq!(lone.open_event_compose_for_day(&mut composes, 12, None), ComposeOpening::NoAccount);
    assert!(matches!(lone.effects[..], [Effect::NotifyErrorKey { key: "calendar-no-writable-account" }]));
}

#[test]
fn an_event_that_is_changed_is_no_longer_selected() {
    let event = |account: &str| EditedEvent {
        account_id: AccountId(account.into()),
        id: "e".into(),
        subject: "Trip".into(),
        location: String::new(),
        preview: String::new(),
        start: 0,
        end: 0,
        all_day: false,
    };
    let times = || LocalTimes { start_day: 3, start_time: "08:00".into(), end_day: 3, end_time: "09:00".into() };
    let mut app = app_with(&[("a", Provider::Google), ("mail", Provider::Imap)]);
    let mut composes = composes();
    app.calendar.selected = Some("e".into());
    assert_eq!(app.open_event_edit(&mut composes, event("mail"), times()), ComposeOpening::NoAccount);
    assert_eq!(app.calendar.selected.as_deref(), Some("e"));
    assert!(matches!(app.effects[..], [Effect::NotifyErrorKey { .. }]));
    app.effects.clear();
    assert_eq!(app.open_event_edit(&mut composes, event("a"), times()), ComposeOpening::Opened);
    assert_eq!(app.calendar.selected, None);
    assert!(app.effects.is_empty());
}

#[test]
fn restored_composers_ask_for_the_contacts_of_their_accounts() {
    let mut app = app_with(&[("a", Provider::Google)]);
    let mut first = composes();
    assert_eq!(app.open_event_compose_for_day(&mut first, 12, None), ComposeOpening::Opened);
    app.effects.clear();
    let mut second = composes();
    second.pending = first.event_compose_sessions();
    let mut foreign = second.pending[0].clone();
    foreign.account_id = AccountId("b".into());
    second.pending.insert(0, foreign);
    app.restore_pending_event_composes(&mut second, &vec![true, true]);
    assert_eq!((second.handles.len(), second.pending.len()), (1, 1));
    assert!(matches!(&app.effects[..], [Effect::EnsureContacts { account_id }] if account_id.0 == "a"));
    app.effects.clear();
    app.restore_pending_event_composes(&mut second, &vec![true]);
    assert!(app.effects.is_empty());
}

#[test]
fn days_may_be_chosen_in_either_order() {
    assert_eq!(ordered_days(5, 3), (3, 5));
    assert_eq!(ordered_days(3, 5), (3, 5));
    let accounts = vec![account("a"), account("b")];
    assert_eq!(account_for_creation(&accounts, Some(AccountId("b".into()))).0, "b");
    assert_eq!(account_for_creation(&accounts, Some(AccountId("c".into()))).0, "a");
    assert_eq!(account_for_creation(&accounts, None).0, "a");
}

#[test]
fn a_new_form_is_reused_and_an_edit_gives_way() {
    let accounts = vec![account("a")];
    let mut composes = composes();
    assert_eq!(composes.open_event_compose_for_range(9, 7, &Vec::new(), None), ComposeOpening::NoAccount);
    assert_eq!(composes.open_event_compose_for_range(9, 7, &accounts, None), ComposeOpening::Opened);
    assert_eq!((composes.selection, composes.anchor), (Some((7, 9)), Some(7)));
    assert_eq!(composes.open_event_compose_for_day(12, &accounts, None), ComposeOpening::Reused);
    assert_eq!((composes.handles.len(), composes.seq), (1, 1));
    assert_eq!(composes.handles[0].form.start_day, Some(12));

    let event = EditedEvent {
        account_id: AccountId("a".into()),
        id: "e".into(),
        subject: "Trip".into(),
        location: String::new(),
        preview: "notes".into(),
        start: 0,
        end: 0,
        all_day: false,
    };
    let times = LocalTimes { start_day: 3, start_time: "08:00".into(), end_day: 3, end_time: "09:00".into() };
    assert_eq!(composes.open_event_edit(event, times, &accounts), ComposeOpening::Opened);
    assert_eq!((composes.handles.len(), composes.seq), (1, 2));
    assert_eq!(composes.handles[0].form.description, "notes");
    assert_eq!(composes.selection, None);
    assert_eq!(composes.open_event_compose(1, &accounts, None), ComposeOpening::Opened);
    assert_eq!((composes.inline, composes.selection), (Some(3), Some((12, 12))));
    composes.close_event_compose(3);
    assert!(composes.handles.is_empty() && composes.inline.is_none());
}

#[test]
fn composers_survive_a_restart() {
    let accounts = vec![account("a")];
    let mut first = composes();
    assert_eq!(first.open_event_compose_for_day(12, &accounts, None), ComposeOpening::Opened);
    first.handles[0].form.subject = "Draft".into();
    first.detach_event_compose(1, true);
    assert!(first.handles[0].detached && first.inline.is_none());
    let sessions = first.event_compose_sessions();
    assert_eq!(sessions.len(), 1);

    let mut second = composes();
    second.pending = sessions;
    second.restore_pending(&Vec::new(), &vec![true]);
    assert_eq!((second.handles.len(), second.pending.len()), (0, 1));
    second.restore_pending(&accounts, &vec![true]);
    assert_eq!((second.handles.len(), second.pending.len()), (1, 0));
    assert_eq!(second.handles[0].form.subject, "Draft");
    assert!(second.handles[0].detached);
    second.event_compose_error(second.handles[0].form.id, "refused".into());
    assert_eq!(second.handles[0].form.error, Some(FormError::Provider { error: "refused".into() }));
}
