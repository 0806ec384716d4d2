use aviary::fields::{parse_number, split_lines, split_words};
use aviary::hover::HoverMotionMap;
use aviary::list_metrics::{ListMetrics, MessageListCache};
use aviary::logs_view::{
    format_entry, level_label, render_logs_settings, visible, LevelLabels, LogEntry, LogFilter, LogLevel,
};
use aviary::memory::{mapped_font_bytes, message_bytes, process_rss_bytes, resident_split, thread_count};
use aviary::message_list::{MsgEntry, MsgEntryVariant, SectionLabel};
use aviary::model::{AccountId, MessageHeader};
use aviary::rich_clipboard::{Metadata, RichClipboard};
use aviary::session_store::{Action, Batch, Fingerprint, Request};
use aviary::settings::{InlineImage, Settings};
use aviary::state::{Attachment, AviaryApp, Message, ThreadBodyState, ViewerTab};

const STATUS: &str = "Name:\taviary\nVmPeak:\t  900 kB\nVmRSS:\t  204800 kB\nThreads:\t 17 \n";

fn chars(text: &str) -> Vec<char> {
    text.chars().collect()
}

fn strings(parts: Vec<Vec<char>>) -> Vec<String> {
    parts.into_iter().map(|part| part.into_iter().collect()).collect()
}

#[test]
fn lines_and_words_are_those_of_the_standard_library() {
    for text in ["", "\n", "a\nb", "a\r\nb\n", "one  two\tthree ", "  x", "a\n\nb\r", "\u{a0}x\u{2003}y"] {
        assert_eq!(strings(split_lines(&chars(text))), text.lines().map(str::to_string).collect::<Vec<_>>());
        assert_eq!(
            strings(split_words(&chars(text))),
            text.split_whitespace().map(str::to_string).collect::<Vec<_>>()
        );
    }
}

#[test]
fn numbers_are_those_of_the_standard_library() {
    for text in ["0", "17", "+17", "-1", "", "+", "1x", "007", "18446744073709551615", "18446744073709551616"] {
        assert_eq!(parse_number(&chars(text), 10), text.parse::<usize>().ok());
    }
    for text in ["ff", "FF", "7f12", "g", "+a", "ffffffffffffffff", "10000000000000000"] {
        assert_eq!(parse_number(&chars(text), 16), usize::from_str_radix(text, 16).ok());
    }
}

#[test]
fn memory_and_threads_are_read_from_the_report() {
    assert_eq!(process_rss_bytes(STATUS), Some(204_800 * 1024));
    assert_eq!(thread_count(STATUS), Some(17));
    assert_eq!(process_rss_bytes("Name:\taviary\n"), None);
    assert_eq!(process_rss_bytes("VmRSS:\n"), None);
    assert_eq!(process_rss_bytes("VmRSS:\tmany kB\n"), None);
    assert_eq!(thread_count("Threads:\t1 2\n"), None);
}

#[test]
fn halves_make_the_whole() {
    let rollup = "00400000-7ffd rw-p 0 00:00 0 [rollup]\nRss:   100 kB\nPss: 50 kB\nAnonymous:   60 kB\n";
    assert_eq!(resident_split(rollup), Some((60 * 1024, 40 * 1024)));
    assert_eq!(resident_split("Rss: 10 kB\nAnonymous: 60 kB\n"), Some((60 * 1024, 0)));
    assert_eq!(resident_split("Rss: 10 kB\n"), None);
}

#[test]
fn each_font_file_counts_once() {
    let maps = "1000-3000 r--p 00000000 08:01 1 /usr/share/fonts/A.TTF\n\
                3000-4000 r--p 00002000 08:01 1 /usr/share/fonts/A.TTF\n\
                5000-5800 r--p 00000000 08:01 2 /usr/share/fonts/b.woff2\n\
                6000-7000 r-xp 00000000 08:01 3 /usr/lib/libc.so\n\
                7000-8000 rw-p 00000000 00:00 0 [heap]\n\
                8000-9000 rw-p 00000000 00:00 0\n";
    assert_eq!(mapped_font_bytes(maps), Some(0x2000 + 0x800));
    assert_eq!(mapped_font_bytes(""), Some(0));
    assert_eq!(mapped_font_bytes("1000-3000 r--p 0 08:01 1 /a.ttf\n\n"), None);
    assert_eq!(mapped_font_bytes("1000 r--p 0 08:01 1 /a.ttf\n"), None);
    assert_eq!(mapped_font_bytes("1000 r--p 0 08:01 1 /a.so\n"), Some(0));
}

#[test]
fn a_font_file_may_have_a_space_in_its_path() {
    let line = "7f0000000000-7f0000001000 r--p 00000000 08:01 42 /usr/share/fonts/My Font.ttf";
    assert_eq!(mapped_font_bytes(line), Some(4096));
    let maps = "1000-3000 r--p 00000000 08:01 1    /usr/share/fonts/My Font.ttf\n\
                3000-4000 r--p 00002000 08:01 1    /usr/share/fonts/My Font.ttf\n\
                5000-5800 r--p 00000000 08:01 2    /usr/share/fonts/My Other.ttf\n\
                6000-7000 r--p 00000000 08:01 3    /usr/share/fonts.ttf/read me\n";
    assert_eq!(mapped_font_bytes(maps), Some(0x2000 + 0x800));
}

#[test]
fn a_font_file_that_was_deleted_is_still_mapped() {
    let maps = "1000-3000 r--p 00000000 08:01 1 /usr/share/fonts/a.ttf (deleted)\n\
                3000-4000 r--p 00000000 08:01 2 /usr/share/fonts/My Font.ttf (deleted)\n";
    assert_eq!(mapped_font_bytes(maps), Some(0x3000));
}

fn header(id: &str) -> MessageHeader {
    MessageHeader {
        id: id.into(),
        account_id: AccountId("account-a".into()),
        subject: "Subject".into(),
        from: "Contact A <contact-a@example.test>".into(),
        received: 0,
        preview: String::new(),
        is_read: true,
        is_flagged: false,
        has_attachments: false,
        tags: Vec::new(),
        last_action: None,
        last_action_at: None,
        conversation_id: None,
        internet_message_id: None,
    }
}

fn message(id: &str, body: &str) -> Message {
    Message {
        header: header(id),
        body: body.into(),
        raw_body: None,
        tags: Vec::new(),
        draft_id: None,
        inline_images: Vec::new(),
        attachments: Vec::new(),
        invitation: None,
    }
}

#[test]
fn a_message_weighs_what_it_holds() {
    let mut heavy = message("m", "é!");
    assert_eq!(message_bytes(&heavy), Some(3));
    heavy.raw_body = Some("raw".into());
    heavy.inline_images = vec![InlineImage { cid: "c".into(), bytes: vec![0; 10] }];
    heavy.attachments = vec![
        Attachment { name: "a".into(), bytes: Some(vec![0; 100]) },
        Attachment { name: "b".into(), bytes: None },
    ];
    assert_eq!(message_bytes(&heavy), Some(3 + 3 + 10 + 100));
}

#[test]
fn the_application_knows_what_it_holds() {
    let mut app = AviaryApp::new(Settings::default());
    assert_eq!(app.holdings().bodies, 0);
    app.mailbox.messages = vec![header("a"), header("b")];
    app.mailbox.search.results = Some(vec![header("a")]);
    app.mailbox.viewer.selected = Some(message("a", "12"));
    app.mailbox.viewer.open_tabs =
        vec![ViewerTab::Message { message: message("b", "345") }, ViewerTab::Compose { compose_id: 1 }];
    app.mailbox.viewer.thread_bodies = vec![
        ("c".into(), ThreadBodyState::Loaded { message: message("c", "6") }),
        ("d".into(), ThreadBodyState::Error { error: "no".into() }),
    ];
    let holdings = app.holdings();
    assert_eq!((holdings.headers, holdings.search_results), (2, 1));
    assert_eq!((holdings.bodies, holdings.body_bytes), (3, Some(6)));
    assert_eq!(holdings.sent_snapshots, 0);
}

fn labels() -> LevelLabels {
    LevelLabels {
        error: "ERROR".into(),
        warn: "WARN".into(),
        info: "INFO".into(),
        debug: "DEBUG".into(),
        trace: "TRACE".into(),
    }
}

fn entry(level: LogLevel, message: &str) -> LogEntry {
    LogEntry { timestamp: "10:00:00".into(), level, target: "aviary::sync".into(), message: message.into() }
}

#[test]
fn entries_are_written_as_one_line() {
    let line = format_entry(&entry(LogLevel::Warn, "slow"), &labels());
    assert_eq!(line, format!("{} {:<6} {} — {}", "10:00:00", "WARN", "aviary::sync", "slow"));
    let mut long = labels();
    long.warn = "avertissement".into();
    let line = format_entry(&entry(LogLevel::Warn, "slow"), &long);
    assert_eq!(line, format!("{} {:<6} {} — {}", "10:00:00", "avertissement", "aviary::sync", "slow"));
    assert_eq!(level_label(LogLevel::Trace), "logs-level-trace");
}

#[test]
fn filters_nest() {
    let levels = [LogLevel::Error, LogLevel::Warn, LogLevel::Info, LogLevel::Debug, LogLevel::Trace];
    let filters =
        [LogFilter::Off, LogFilter::Error, LogFilter::Warn, LogFilter::Info, LogFilter::Debug, LogFilter::Trace];
    for (reach, filter) in filters.iter().enumerate() {
        for (depth, level) in levels.iter().enumerate() {
            assert_eq!(visible(*level, *filter), depth < reach);
        }
    }
}

#[test]
fn the_log_shows_the_newest_entry_first() {
    let entries = vec![
        entry(LogLevel::Error, "one"),
        entry(LogLevel::Debug, "two"),
        entry(LogLevel::Info, "three"),
    ];
    let pane = render_logs_settings(&entries, &labels(), LogFilter::Info);
    assert_eq!(pane.count, 2);
    assert_eq!(pane.rows[0].entry.message, "three");
    assert_eq!(pane.rows[1].entry.message, "one");
    assert_eq!(pane.rows[1].copy_text, format_entry(&entries[0], &labels()));
    assert_eq!(
        pane.copy_text,
        format!("{}\n{}", format_entry(&entries[0], &labels()), format_entry(&entries[2], &labels()))
    );
    assert_eq!(pane.filters.len(), 4);
    assert!(pane.filters[2].selected && !pane.filters[0].selected);
    let none = render_logs_settings(&entries, &labels(), LogFilter::Off);
    assert!(none.rows.is_empty() && none.copy_text.is_empty());
}

#[test]
fn only_the_latest_snapshot_is_kept_and_everyone_is_told() {
    let mut batch: Batch<&str, u32> = Batch::new();
    batch.accept(Request::Flush { acknowledge: 1 });
    assert!(batch.latest.is_none());
    batch.accept(Request::Save { snapshot: "first" });
    batch.accept(Request::Save { snapshot: "second" });
    batch.accept(Request::Flush { acknowledge: 2 });
    assert_eq!(batch.latest, Some("second"));
    assert_eq!(batch.flushes, vec![1, 2]);
}

#[test]
fn unchanged_sessions_are_not_rewritten() {
    let mut fingerprint = Fingerprint { text: "{}".into() };
    assert_eq!(fingerprint.settle("{}".into()), None);
    assert_eq!(fingerprint.settle("{1}".into()), Some("{1}".into()));
    assert_eq!(fingerprint.settle("{1}".into()), None);
    assert_eq!(fingerprint.settle("{}".into()), Some("{}".into()));
}

/// What a store does that finds `first`, while the saved snapshots fall into batches.
fn done(first: &str, batches: &[&[&str]]) -> Vec<Option<String>> {
    let mut fingerprint = Fingerprint { text: first.into() };
    let mut all = Vec::new();
    for saved in batches {
        let mut batch: Batch<String, ()> = Batch::new();
        batch.accept(Request::Flush { acknowledge: () });
        for snapshot in saved.iter() {
            batch.accept(Request::Save { snapshot: snapshot.to_string() });
        }
        for action in fingerprint.finish(batch.latest, batch.flushes) {
            match action {
                Action::Write { form } => all.push(Some(form)),
                Action::Acknowledge { acknowledge: () } => all.push(None),
            }
        }
    }
    all
}

fn written(first: &str, batches: &[&[&str]]) -> Vec<String> {
    done(first, batches).into_iter().flatten().collect()
}

#[test]
fn whoever_waits_is_told_after_the_writing() {
    assert_eq!(done("f", &[&["a", "b"], &["b"]]), vec![Some("b".to_string()), None, None]);
}

#[test]
fn what_is_written_last_is_the_last_snapshot() {
    assert_eq!(written("f", &[&["a", "b", "c"]]), vec!["c"]);
    assert_eq!(written("f", &[&["a"], &["b"], &["c"]]), vec!["a", "b", "c"]);
    assert_eq!(written("f", &[&["a", "b"], &[], &["b"], &["c", "f"]]), vec!["b", "f"]);
    assert_eq!(written("f", &[&["a", "f"], &["f"]]), Vec::<String>::new());
    assert_eq!(written("f", &[&[]]), Vec::<String>::new());
}

#[test]
fn a_snapshot_without_a_form_changes_nothing() {
    let mut fingerprint = Fingerprint { text: "f".into() };
    let actions: Vec<Action<u8>> = fingerprint.finish(None, vec![7]);
    assert!(matches!(actions[..], [Action::Acknowledge { acknowledge: 7 }]));
    assert_eq!(fingerprint.text, "f");
    assert_eq!(fingerprint.settle("g".into()), Some("g".into()));
}

#[test]
fn copies_are_pasted_with_their_images() {
    let mut clipboard = RichClipboard::new();
    let images = vec![InlineImage { cid: "c".into(), bytes: vec![1] }];
    let (text, note) = clipboard.write("plain".into(), "<b>plain</b>".into(), images);
    assert_eq!(text, "plain");
    assert_eq!(note.format, "aviary/html-selection-v1");

    let pasted = clipboard.read(Some("plain"), None).expect("rich text");
    assert_eq!((pasted.html.as_str(), pasted.images.len()), ("<b>plain</b>", 1));
    assert!(clipboard.read(Some("other"), None).is_none());
    assert!(clipboard.read(None, Some(&note)).is_none());

    clipboard.clear();
    assert!(clipboard.read(Some("plain"), None).is_none());
    let pasted = clipboard.read(Some("plain"), Some(&note)).expect("rich text");
    assert_eq!((pasted.html.as_str(), pasted.images.len()), ("<b>plain</b>", 0));
    let foreign = Metadata { format: "text/html".into(), html: "<i>x</i>".into() };
    assert!(clipboard.read(Some("plain"), Some(&foreign)).is_none());
}

/// How far the look that a component moves towards is from its plain one.
fn target(hover: &HoverMotionMap, key: &str) -> f32 {
    match hover.targets.iter().find(|entry| entry.0 == key) {
        Some((_, true)) => 1.,
        _ => 0.,
    }
}

#[test]
fn hover_map_does_not_restart_an_unchanged_target() {
    let mut hover = HoverMotionMap::new();
    let key = "component-a";

    assert!(hover.set_hovered(key.into(), true));
    assert!(!hover.set_hovered(key.into(), true));
    assert!((0. ..=1.).contains(&target(&hover, key)));

    let kept: Vec<String> =
        hover.targets.iter().map(|entry| entry.0.clone()).filter(|candidate| candidate != key).collect();
    hover.retain(&kept);
    assert_eq!(target(&hover, key), 0.);
}

#[test]
fn an_unchanged_hover_does_not_start_again() {
    let mut hover = HoverMotionMap::new();
    assert!(!hover.set_hovered("component-a".into(), false));
    assert!(hover.set_hovered("component-a".into(), true));
    assert!(!hover.set_hovered("component-a".into(), true));
    assert!(hover.request_frame(&vec!["component-a".into()]));
    assert!(!hover.request_frame(&Vec::new()));
    assert_eq!(hover.targets.len(), 1);
    assert!(hover.set_hovered("component-a".into(), false));
    assert!(!hover.request_frame(&Vec::new()));
    assert!(hover.targets.is_empty());
}

#[test]
fn forgotten_components_rest() {
    let mut hover = HoverMotionMap::new();
    assert!(hover.set_hovered("a".into(), true));
    assert!(hover.set_hovered("b".into(), true));
    hover.retain(&vec!["b".into()]);
    assert_eq!(hover.targets.len(), 1);
    assert_eq!(hover.active, vec!["b".to_string()]);
    assert!(!hover.set_hovered("a".into(), false));
}

#[test]
fn one_entry_of_each_kind_is_measured() {
    let row = MsgEntryVariant::Row { pinned: false, section_end: false, in_group: false };
    let title = MsgEntryVariant::Header { pinned: false, collapsed: false };
    let codes = vec![title.number(), row.number(), row.number(), title.number()];
    let mut metrics = ListMetrics { ui_scale: 1, heights: Vec::new() };
    assert_eq!(metrics.unmeasured(&codes), vec![0, 1]);
    metrics.record(codes[0], 30);
    metrics.record(codes[1], 50);
    assert!(metrics.unmeasured(&codes).is_empty());
    assert_eq!(metrics.sizes(&codes), vec![30, 50, 50, 30]);
    metrics.rescale(1);
    assert_eq!(metrics.heights.len(), 2);
    metrics.rescale(2);
    assert_eq!(metrics.sizes(&codes), vec![0, 0, 0, 0]);
}

#[test]
fn the_list_is_remembered_until_something_changes() {
    let mut app = AviaryApp::new(Settings::default());
    let key = app.message_list_cache_key(7);
    let kept = vec![MsgEntry::Header {
        key: "kept".into(),
        label: SectionLabel::Pinned,
        count: 0,
        pinned: true,
        collapsed: true,
    }];
    let cache = MessageListCache { key, entries: kept };
    assert_eq!(app.current_message_list_entries(Some(&cache), 7).len(), 1);
    assert_eq!(app.current_message_list_entries(Some(&cache), 8).len(), 0);
    app.invalidate_message_list();
    assert_eq!(app.current_message_list_entries(Some(&cache), 7).len(), 0);
    assert_eq!(app.current_message_list_entries(None, 7).len(), 0);
}
