//! The log that the application keeps: which entries are shown, and how one is written.
use vstd::prelude::*;
use vstd::string::*;

verus! {

/// How grave an entry is.
#[derive(Debug, Clone, Copy, PartialEq, Eq, Structural)]
pub enum LogLevel {
    Error,
    Warn,
    Info,
    Debug,
    Trace,
}

impl DeepView for LogLevel {
    type V = LogLevel;

    open spec fn deep_view(&self) -> LogLevel {
        *self
    }
}

/// Which entries are shown: those at least as grave.
#[derive(Debug, Clone, Copy, PartialEq, Eq, Structural)]
pub enum LogFilter {
    Off,
    Error,
    Warn,
    Info,
    Debug,
    Trace,
}

impl DeepView for LogFilter {
    type V = LogFilter;

    open spec fn deep_view(&self) -> LogFilter {
        *self
    }
}

/// An entry of the log.
#[derive(Debug, PartialEq, Eq)]
pub struct LogEntry {
    pub timestamp: String,
    pub level: LogLevel,
    pub target: String,
    pub message: String,
}

/// Mathematical form of [`LogEntry`].
#[verifier::ext_equal]
pub struct LogEntryView {
    pub timestamp: Seq<char>,
    pub level: LogLevel,
    pub target: Seq<char>,
    pub message: Seq<char>,
}

impl DeepView for LogEntry {
    type V = LogEntryView;

    open spec fn deep_view(&self) -> LogEntryView {
        LogEntryView {
            timestamp: self.timestamp.deep_view(),
            level: self.level,
            target: self.target.deep_view(),
            message: self.message.deep_view(),
        }
    }
}

impl Clone for LogEntry {
    fn clone(&self) -> (copy: Self)
        ensures
            copy.deep_view() == self.deep_view(),
    {
        LogEntry {
            timestamp: self.timestamp.clone(),
            level: self.level,
            target: self.target.clone(),
            message: self.message.clone(),
        }
    }
}

/// The names of the levels in the language of the interface.
#[derive(Debug, PartialEq, Eq)]
pub struct LevelLabels {
    pub error: String,
    pub warn: String,
    pub info: String,
    pub debug: String,
    pub trace: String,
}

/// Mathematical form of [`LevelLabels`].
#[verifier::ext_equal]
pub struct LevelLabelsView {
    pub error: Seq<char>,
    pub warn: Seq<char>,
    pub info: Seq<char>,
    pub debug: Seq<char>,
    pub trace: Seq<char>,
}

impl DeepView for LevelLabels {
    type V = LevelLabelsView;

    open spec fn deep_view(&self) -> LevelLabelsView {
        LevelLabelsView {
            error: self.error.deep_view(),
            warn: self.warn.deep_view(),
            info: self.info.deep_view(),
            debug: self.debug.deep_view(),
            trace: self.trace.deep_view(),
        }
    }
}

/// A row of the log: its entry, and what copying it gives.
#[derive(Debug, PartialEq, Eq)]
pub struct LogRow {
    pub entry: LogEntry,
    pub copy_text: String,
}

/// Mathematical form of [`LogRow`].
#[verifier::ext_equal]
pub struct LogRowView {
    pub entry: LogEntryView,
    pub copy_text: Seq<char>,
}

impl DeepView for LogRow {
    type V = LogRowView;

    open spec fn deep_view(&self) -> LogRowView {
        LogRowView {
            entry: self.entry.deep_view(),
            copy_text: self.copy_text.deep_view(),
        }
    }
}

/// A button that chooses a filter.
#[derive(Debug, PartialEq, Eq)]
pub struct FilterButton {
    pub label: &'static str,
    pub filter: LogFilter,
    pub selected: bool,
}

/// Mathematical form of [`FilterButton`].
#[verifier::ext_equal]
pub struct FilterButtonView {
    pub label: Seq<char>,
    pub filter: LogFilter,
    pub selected: bool,
}

impl DeepView for FilterButton {
    type V = FilterButtonView;

    open spec fn deep_view(&self) -> FilterButtonView {
        FilterButtonView {
            label: self.label.deep_view(),
            filter: self.filter,
            selected: self.selected,
        }
    }
}

/// The log as shown: the newest entry first. Copying all gives the entries in the order in which they came.
#[derive(Debug, PartialEq, Eq)]
pub struct LogsPane {
    pub count: usize,
    pub rows: Vec<LogRow>,
    pub copy_text: String,
    pub filters: Vec<FilterButton>,
}

/// Mathematical form of [`LogsPane`].
#[verifier::ext_equal]
pub struct LogsPaneView {
    pub count: usize,
    pub rows: Seq<LogRowView>,
    pub copy_text: Seq<char>,
    pub filters: Seq<FilterButtonView>,
}

impl DeepView for LogsPane {
    type V = LogsPaneView;

    open spec fn deep_view(&self) -> LogsPaneView {
        LogsPaneView {
            count: self.count,
            rows: self.rows.deep_view(),
            copy_text: self.copy_text.deep_view(),
            filters: self.filters.deep_view(),
        }
    }
}


/// The key of the name of a level.
pub open spec fn label_key(level: LogLevel) -> Seq<char> {
    match level {
        LogLevel::Error => "logs-level-error"@,
        LogLevel::Warn => "logs-level-warn"@,
        LogLevel::Info => "logs-level-info"@,
        LogLevel::Debug => "logs-level-debug"@,
        LogLevel::Trace => "logs-level-trace"@,
    }
}

/// The key of the name of a level.
pub fn level_label(level: LogLevel) -> (key: &'static str)
    ensures
        key@ == label_key(level),
{
    match level {
        LogLevel::Error => "logs-level-error",
        LogLevel::Warn => "logs-level-warn",
        LogLevel::Info => "logs-level-info",
        LogLevel::Debug => "logs-level-debug",
        LogLevel::Trace => "logs-level-trace",
    }
}

/// How far down the scale of levels a level stands.
pub open spec fn depth(level: LogLevel) -> int {
    match level {
        LogLevel::Error => 1,
        LogLevel::Warn => 2,
        LogLevel::Info => 3,
        LogLevel::Debug => 4,
        LogLevel::Trace => 5,
    }
}

/// How far down a filter reaches.
pub open spec fn reach(filter: LogFilter) -> int {
    match filter {
        LogFilter::Off => 0,
        LogFilter::Error => 1,
        LogFilter::Warn => 2,
        LogFilter::Info => 3,
        LogFilter::Debug => 4,
        LogFilter::Trace => 5,
    }
}

/// Whether entries of a level are shown under a filter.
pub fn visible(level: LogLevel, filter: LogFilter) -> (shown: bool)
    ensures
        shown == (depth(level) <= reach(filter)),
{
    match filter {
        LogFilter::Off => false,
        LogFilter::Error => level == LogLevel::Error,
        LogFilter::Warn => match level {
            LogLevel::Error | LogLevel::Warn => true,
            _ => false,
        },
        LogFilter::Info => match level {
            LogLevel::Error | LogLevel::Warn | LogLevel::Info => true,
            _ => false,
        },
        LogFilter::Debug => level != LogLevel::Trace,
        LogFilter::Trace => true,
    }
}

impl LevelLabelsView {
    /// The name of a level.
    pub open spec fn of(self, level: LogLevel) -> Seq<char> {
        match level {
            LogLevel::Error => self.error,
            LogLevel::Warn => self.warn,
            LogLevel::Info => self.info,
            LogLevel::Debug => self.debug,
            LogLevel::Trace => self.trace,
        }
    }
}

impl LevelLabels {
    fn name_of(&self, level: LogLevel) -> (name: &str)
        ensures
            name@ == self.deep_view().of(level),
    {
        match level {
            LogLevel::Error => self.error.as_str(),
            LogLevel::Warn => self.warn.as_str(),
            LogLevel::Info => self.info.as_str(),
            LogLevel::Debug => self.debug.as_str(),
            LogLevel::Trace => self.trace.as_str(),
        }
    }
}

/// A text with spaces after it, at least `width` characters in all.
pub open spec fn padded(text: Seq<char>, width: int) -> Seq<char> {
    if text.len() >= width {
        text
    } else {
        text + Seq::new((width - text.len()) as nat, |i: int| ' ')
    }
}

/// An entry as a line of text.
pub open spec fn line_of(entry: LogEntryView, labels: LevelLabelsView) -> Seq<char> {
    entry.timestamp + " "@ + padded(labels.of(entry.level), 6) + " "@ + entry.target + " \u{2014} "@ + entry.message
}

fn pad(text: &str, width: usize) -> (wide: String)
    ensures
        wide@ == padded(text@, width as int),
{
    let count = text.unicode_len();
    let mut wide: String = text.to_owned();
    let mut i: usize = count;
    while i < width
        invariant
            count == text@.len(),
            i >= count,
            i <= width || i == count,
            wide@ == text@ + Seq::new((i - count) as nat, |k: int| ' '),
        decreases width - i,
    {
        wide.push(' ');
        i += 1;
        assert(wide@ =~= text@ + Seq::new((i - count) as nat, |k: int| ' '));
    }
    assert(wide@ =~= padded(text@, width as int));
    wide
}

/// An entry as a line of text.
pub fn format_entry(entry: &LogEntry, labels: &LevelLabels) -> (line: String)
    ensures
        line@ == line_of(entry.deep_view(), labels.deep_view()),
{
    let label = pad(labels.name_of(entry.level), 6);
    entry.timestamp.clone().concat(" ").concat(label.as_str()).concat(" ").concat(entry.target.as_str()).concat(
        " \u{2014} ",
    ).concat(entry.message.as_str())
}

/// Lines with a line break between each two.
pub open spec fn joined(lines: Seq<Seq<char>>) -> Seq<char>
    decreases lines.len(),
{
    if lines.len() == 0 {
        Seq::empty()
    } else if lines.len() == 1 {
        lines[0]
    } else {
        joined(lines.drop_last()) + "\n"@ + lines.last()
    }
}

/// The entries that a filter shows.
pub open spec fn shown(entries: Seq<LogEntryView>, filter: LogFilter) -> Seq<LogEntryView> {
    entries.filter(|entry: LogEntryView| depth(entry.level) <= reach(filter))
}

/// The row of an entry.
pub open spec fn row_of(entry: LogEntryView, labels: LevelLabelsView) -> LogRowView {
    LogRowView { entry, copy_text: line_of(entry, labels) }
}

/// The buttons that choose a filter.
pub open spec fn filter_buttons(filter: LogFilter) -> Seq<FilterButtonView> {
    seq![
        FilterButtonView { label: "logs-filter-errors"@, filter: LogFilter::Error, selected: filter == LogFilter::Error },
        FilterButtonView { label: "logs-filter-warnings"@, filter: LogFilter::Warn, selected: filter == LogFilter::Warn },
        FilterButtonView { label: "logs-level-info"@, filter: LogFilter::Info, selected: filter == LogFilter::Info },
        FilterButtonView { label: "logs-level-debug"@, filter: LogFilter::Debug, selected: filter == LogFilter::Debug },
    ]
}

/// The log as shown under a filter.
pub open spec fn pane_of(entries: Seq<LogEntryView>, labels: LevelLabelsView, filter: LogFilter) -> LogsPaneView {
    let seen = shown(entries, filter);
    LogsPaneView {
        count: seen.len() as usize,
        rows: Seq::new(seen.len(), |i: int| row_of(seen[seen.len() - 1 - i], labels)),
        copy_text: joined(Seq::new(seen.len(), |i: int| line_of(seen[i], labels))),
        filters: filter_buttons(filter),
    }
}

fn shown_entries(entries: &Vec<LogEntry>, filter: LogFilter) -> (kept: Vec<LogEntry>)
    ensures
        kept.deep_view() == shown(entries.deep_view(), filter),
{
    let ghost all = entries.deep_view();
    let ghost wanted = |entry: LogEntryView| depth(entry.level) <= reach(filter);
    let mut kept: Vec<LogEntry> = Vec::new();
    let mut i: usize = 0;
    assert(all.take(0).filter(wanted) =~= Seq::<LogEntryView>::empty()) by {
        reveal(Seq::filter);
    }
    assert(kept.deep_view() =~= Seq::<LogEntryView>::empty());
    while i < entries.len()
        invariant
            i <= entries.len(),
            all == entries.deep_view(),
            wanted == (|entry: LogEntryView| depth(entry.level) <= reach(filter)),
            kept.deep_view() == all.take(i as int).filter(wanted),
        decreases entries.len() - i,
    {
        proof {
            reveal(Seq::filter);
            assert(all.take(i + 1).drop_last() =~= all.take(i as int));
            assert(all[i as int] == entries[i as int].deep_view());
        }
        if visible(entries[i].level, filter) {
            let ghost before = kept.deep_view();
            kept.push(entries[i].clone());
            assert(kept.deep_view() =~= before.push(all[i as int]));
        }
        i += 1;
    }
    assert(all.take(all.len() as int) =~= all);
    kept
}

fn lines_together(entries: &Vec<LogEntry>, labels: &LevelLabels) -> (text: String)
    ensures
        text@ == joined(
            Seq::new(entries.deep_view().len(), |i: int| line_of(entries.deep_view()[i], labels.deep_view())),
        ),
{
    let ghost all = Seq::new(
        entries.deep_view().len(),
        |i: int| line_of(entries.deep_view()[i], labels.deep_view()),
    );
    let mut text: String = String::new();
    let mut i: usize = 0;
    assert(all.take(0) =~= Seq::<Seq<char>>::empty());
    assert(text@ =~= joined(all.take(0)));
    while i < entries.len()
        invariant
            i <= entries.len(),
            all.len() == entries.len(),
            all == Seq::new(
                entries.deep_view().len(),
                |i: int| line_of(entries.deep_view()[i], labels.deep_view()),
            ),
            text@ == joined(all.take(i as int)),
        decreases entries.len() - i,
    {
        let line = format_entry(&entries[i], labels);
        proof {
            assert(entries.deep_view()[i as int] == entries[i as int].deep_view());
            assert(all[i as int] == line@);
            assert(all.take(i + 1).drop_last() =~= all.take(i as int));
            assert(all.take(i + 1).last() == line@);
        }
        text = if i == 0 {
            line
        } else {
            text.concat("\n").concat(line.as_str())
        };
        i += 1;
    }
    assert(all.take(all.len() as int) =~= all);
    text
}

fn rows_newest_first(entries: &Vec<LogEntry>, labels: &LevelLabels) -> (rows: Vec<LogRow>)
    ensures
        rows.deep_view() == Seq::new(
            entries.deep_view().len(),
            |i: int| row_of(entries.deep_view()[entries.deep_view().len() - 1 - i], labels.deep_view()),
        ),
{
    let ghost seen = entries.deep_view();
    let mut rows: Vec<LogRow> = Vec::new();
    let mut i: usize = 0;
    while i < entries.len()
        invariant
            i <= entries.len(),
            seen == entries.deep_view(),
            seen.len() == entries.len(),
            rows.len() == i,
            forall|k: int| 0 <= k < i ==> (#[trigger] rows.deep_view()[k]) == row_of(seen[seen.len() - 1 - k], labels.deep_view()),
        decreases entries.len() - i,
    {
        let entry = &entries[entries.len() - 1 - i];
        let ghost before = rows.deep_view();
        assert(seen[seen.len() - 1 - i] == entry.deep_view());
        rows.push(LogRow { entry: entry.clone(), copy_text: format_entry(entry, labels) });
        assert(rows.deep_view() =~= before.push(row_of(entry.deep_view(), labels.deep_view())));
        i += 1;
    }
    assert(rows.deep_view() =~= Seq::new(
        entries.deep_view().len(),
        |i: int| row_of(entries.deep_view()[entries.deep_view().len() - 1 - i], labels.deep_view()),
    ));
    rows
}

fn buttons(filter: LogFilter) -> (filters: Vec<FilterButton>)
    ensures
        filters.deep_view() == filter_buttons(filter),
{
    let filters = vec![
        FilterButton { label: "logs-filter-errors", filter: LogFilter::Error, selected: filter == LogFilter::Error },
        FilterButton { label: "logs-filter-warnings", filter: LogFilter::Warn, selected: filter == LogFilter::Warn },
        FilterButton { label: "logs-level-info", filter: LogFilter::Info, selected: filter == LogFilter::Info },
        FilterButton { label: "logs-level-debug", filter: LogFilter::Debug, selected: filter == LogFilter::Debug },
    ];
    assert(filters.deep_view() =~= filter_buttons(filter));
    filters
}

/// The log as shown under a filter.
pub fn render_logs_settings(entries: &Vec<LogEntry>, labels: &LevelLabels, filter: LogFilter) -> (pane: LogsPane)
    ensures
        pane.deep_view() == pane_of(entries.deep_view(), labels.deep_view(), filter),
{
    let seen = shown_entries(entries, filter);
    assert(seen.deep_view().len() == seen.len());
    LogsPane {
        count: seen.len(),
        rows: rows_newest_first(&seen, labels),
        copy_text: lines_together(&seen, labels),
        filters: buttons(filter),
    }
}

/// A wider filter hides nothing that a narrower one shows; without a filter nothing is
/// shown, and the widest shows everything.
pub proof fn law_filters_nest(entries: Seq<LogEntryView>, level: LogLevel, narrow: LogFilter, wide: LogFilter)
    ensures
        reach(narrow) <= reach(wide) && depth(level) <= reach(narrow) ==> depth(level) <= reach(wide),
        reach(narrow) <= reach(wide) ==> shown(shown(entries, wide), narrow) == shown(entries, narrow),
        shown(entries, LogFilter::Off) == Seq::<LogEntryView>::empty(),
        shown(entries, LogFilter::Trace) == entries,
    decreases entries.len(),
{
    let n = |entry: LogEntryView| depth(entry.level) <= reach(narrow);
    let w = |entry: LogEntryView| depth(entry.level) <= reach(wide);
    if reach(narrow) <= reach(wide) {
        crate::lists::lemma_filter_twice(entries, w, n, n);
    }
    reveal(Seq::filter);
    if entries.len() > 0 {
        law_filters_nest(entries.drop_last(), level, narrow, wide);
    }
}

} // verus!
