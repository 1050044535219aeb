//! The state of the bookmark browser and how each user event changes it: the
//! settings of the bookmark list, what the main area shows, the status log
//! and the count of running background jobs. Each event gives the state
//! that follows and the action that the surrounding program performs.

use vstd::prelude::*;
use vstd::string::*;
use crate::decimal::{decimal, parse_usize};
use crate::number_text::usize_text;
use crate::parsed_str::{ParsedStr, text_value, value_text, change_message};
use crate::records::{strings_view, Bookmark, Category, Info};
use crate::url_map::{UrlMap, url_map_view};
use crate::edit_pane::{
    Axis, BookmarkChange, BookmarkProxy, CategoryChange, CategoryProxy, EditPaneState, bookmark_changed,
    category_changed, is_proxy_of, pane_axis, split_axis,
};
use crate::category_tree::{category_tree, category_tree_spec};

verus! {

/// What the main area of the window holds.
#[derive(Clone, Copy, Debug, PartialEq, Eq, Structural)]
pub enum MainContent {
    /// The list of bookmarks.
    Bookmarks,
    /// The editing panes.
    Edit,
    /// The log and statistics panes.
    Log,
}

/// The name a main area is shown with.
pub open spec fn main_content_name(c: MainContent) -> Seq<char> {
    match c {
        MainContent::Bookmarks => "Bookmarks"@,
        MainContent::Edit => "Edit"@,
        MainContent::Log => "Log"@,
    }
}

impl MainContent {
    /// The name the main area is shown with.
    pub fn name(&self) -> (s: &'static str)
        ensures
            s@ == main_content_name(*self),
    {
        match self {
            MainContent::Bookmarks => "Bookmarks",
            MainContent::Edit => "Edit",
            MainContent::Log => "Log",
        }
    }

    /// The main areas that can be chosen, in the order they are offered.
    pub fn choices() -> (v: Vec<MainContent>)
        ensures
            v@ == seq![MainContent::Bookmarks, MainContent::Edit, MainContent::Log],
    {
        let v = vec![MainContent::Bookmarks, MainContent::Edit, MainContent::Log];
        assert(v@ =~= seq![MainContent::Bookmarks, MainContent::Edit, MainContent::Log]);
        v
    }
}

/// The status messages shown so far and the current one.
#[derive(Debug, Clone)]
pub struct StatusLog {
    messages: Vec<String>,
    current: String,
}

impl View for StatusLog {
    type V = (Seq<Seq<char>>, Seq<char>);

    closed spec fn view(&self) -> (Seq<Seq<char>>, Seq<char>) {
        (strings_view(self.messages@), self.current@)
    }
}

impl StatusLog {
    /// An empty log with no current status.
    pub fn new() -> (log: Self)
        ensures
            log@ == (Seq::<Seq<char>>::empty(), Seq::<char>::empty()),
    {
        let log = StatusLog { messages: Vec::new(), current: String::new() };
        assert(strings_view(log.messages@) =~= Seq::<Seq<char>>::empty());
        log
    }

    /// Makes `msg` the current status and appends it to the log.
    pub fn set_status(&mut self, msg: String)
        ensures
            final(self)@ == (old(self)@.0.push(msg@), msg@),
    {
        let ghost before = self.messages@;
        self.messages.push(msg.clone());
        self.current = msg;
        assert(strings_view(self.messages@) =~= strings_view(before).push(msg@));
    }

    /// The current status.
    pub fn current(&self) -> (s: &str)
        ensures
            s@ == self@.1,
    {
        self.current.as_str()
    }

    /// All status messages, oldest first.
    pub fn messages(&self) -> (m: &Vec<String>)
        ensures
            strings_view(m@) == self@.0,
    {
        &self.messages
    }
}

/// A statistic about the bookmarks that is gathered in the background.
#[derive(Clone, Copy, Debug, PartialEq, Eq, Structural)]
pub enum Metric {
    /// The average stored length of a bookmark.
    AverageContentStringLength,
    /// How often each domain occurs among the urls.
    UrlOccurances,
}

/// The name a metric is shown with.
pub open spec fn metric_name(m: Metric) -> Seq<char> {
    match m {
        Metric::AverageContentStringLength => "AverageContentStringLength"@,
        Metric::UrlOccurances => "UrlOccurances"@,
    }
}

impl Metric {
    /// The name the metric is shown with.
    pub fn name(&self) -> (s: &'static str)
        ensures
            s@ == metric_name(*self),
    {
        match self {
            Metric::AverageContentStringLength => "AverageContentStringLength",
            Metric::UrlOccurances => "UrlOccurances",
        }
    }

    /// The metrics offered for gathering, in the order they are listed.
    pub fn all() -> (v: Vec<Metric>)
        ensures
            v@ == seq![Metric::AverageContentStringLength, Metric::UrlOccurances],
    {
        let v = vec![Metric::AverageContentStringLength, Metric::UrlOccurances];
        assert(v@ =~= seq![Metric::AverageContentStringLength, Metric::UrlOccurances]);
        v
    }
}

/// A numeric setting of the bookmark list.
#[derive(Clone, Copy, Debug, PartialEq, Eq, Structural)]
pub enum Setting {
    /// How many bookmarks a page shows.
    ShownBookmarks,
    /// The position of the first bookmark shown.
    ShownFrom,
    /// How many characters of an url are shown.
    UrlWidth,
    /// How many characters of a description are shown.
    DescWidth,
}

/// The name a setting has in status messages.
pub open spec fn setting_label(s: Setting) -> Seq<char> {
    match s {
        Setting::ShownBookmarks => "shown bookmarks"@,
        Setting::ShownFrom => "shown from"@,
        Setting::UrlWidth => "url width"@,
        Setting::DescWidth => "desc width"@,
    }
}

/// The title a setting has in the settings pane.
pub open spec fn setting_title(s: Setting) -> Seq<char> {
    match s {
        Setting::ShownBookmarks => "Shown"@,
        Setting::ShownFrom => "From"@,
        Setting::UrlWidth => "Url Width"@,
        Setting::DescWidth => "Info Width"@,
    }
}

impl Setting {
    /// The name the setting has in status messages.
    pub fn label(&self) -> (s: &'static str)
        ensures
            s@ == setting_label(*self),
    {
        match self {
            Setting::ShownBookmarks => "shown bookmarks",
            Setting::ShownFrom => "shown from",
            Setting::UrlWidth => "url width",
            Setting::DescWidth => "desc width",
        }
    }

    /// The title the setting has in the settings pane.
    pub fn title(&self) -> (s: &'static str)
        ensures
            s@ == setting_title(*self),
    {
        match self {
            Setting::ShownBookmarks => "Shown",
            Setting::ShownFrom => "From",
            Setting::UrlWidth => "Url Width",
            Setting::DescWidth => "Info Width",
        }
    }

    /// The settings in the order the settings pane lists them.
    pub fn in_pane_order() -> (v: Vec<Setting>)
        ensures
            v@ == seq![Setting::DescWidth, Setting::UrlWidth, Setting::ShownBookmarks, Setting::ShownFrom],
    {
        let v = vec![Setting::DescWidth, Setting::UrlWidth, Setting::ShownBookmarks, Setting::ShownFrom];
        assert(v@ =~= seq![
            Setting::DescWidth,
            Setting::UrlWidth,
            Setting::ShownBookmarks,
            Setting::ShownFrom,
        ]);
        v
    }
}

/// The settings of the bookmark list.
#[derive(Debug, Clone)]
pub struct BookmarkColumnState {
    /// How many characters of a description are shown; zero shows all.
    pub desc_width: ParsedStr,
    /// How many characters of an url are shown; zero shows all.
    pub url_width: ParsedStr,
    /// The text bookmarks are filtered by; empty filters nothing.
    pub filter_str: String,
    /// How many bookmarks a page shows.
    pub shown_bookmarks: ParsedStr,
    /// The position of the first bookmark shown.
    pub shown_from: ParsedStr,
}

/// The field of the bookmark list that holds a setting.
pub open spec fn setting_field(c: BookmarkColumnState, s: Setting) -> ParsedStr {
    match s {
        Setting::ShownBookmarks => c.shown_bookmarks,
        Setting::ShownFrom => c.shown_from,
        Setting::UrlWidth => c.url_width,
        Setting::DescWidth => c.desc_width,
    }
}

impl Default for BookmarkColumnState {
    /// Descriptions cut at 50 characters, urls at 75, pages of 512
    /// bookmarks starting at the first, and no filter.
    fn default() -> (c: Self)
        ensures
            c.desc_width@ == (decimal(50), Some(50usize)),
            c.url_width@ == (decimal(75), Some(75usize)),
            c.shown_bookmarks@ == (decimal(512), Some(512usize)),
            c.shown_from@ == (decimal(0), Some(0usize)),
            c.filter_str@ == Seq::<char>::empty(),
    {
        BookmarkColumnState {
            desc_width: ParsedStr::from_value(50),
            url_width: ParsedStr::from_value(75),
            filter_str: String::new(),
            shown_bookmarks: ParsedStr::from_value(512),
            shown_from: ParsedStr::from_value(0),
        }
    }
}

impl BookmarkColumnState {
    /// The field that holds a setting.
    pub fn setting(&self, s: Setting) -> (f: &ParsedStr)
        ensures
            *f == setting_field(*self, s),
    {
        match s {
            Setting::ShownBookmarks => &self.shown_bookmarks,
            Setting::ShownFrom => &self.shown_from,
            Setting::UrlWidth => &self.url_width,
            Setting::DescWidth => &self.desc_width,
        }
    }

    /// The filter in force: none when the filter text is empty.
    pub fn filter(&self) -> (f: Option<&str>)
        ensures
            self.filter_str@.len() == 0 ==> f is None,
            self.filter_str@.len() > 0 ==> (f matches Some(s) && s@ == self.filter_str@),
    {
        if self.filter_str.as_str().is_empty() {
            None
        } else {
            Some(self.filter_str.as_str())
        }
    }
}

/// `x` limited to the range from `lo` to `hi`.
pub open spec fn clamp(x: int, lo: int, hi: int) -> int {
    if x < lo {
        lo
    } else if x > hi {
        hi
    } else {
        x
    }
}

/// The first position shown after moving `steps` pages of `shown`
/// bookmarks from `from`: the page offset saturates at the bounds of
/// `isize`, the position at the bounds of `usize`.
pub open spec fn step_target(from: usize, shown: usize, steps: isize) -> usize {
    clamp(
        from + clamp(shown * steps, isize::MIN as int, isize::MAX as int),
        0,
        usize::MAX as int,
    ) as usize
}

/// Moves `steps` pages of `shown` bookmarks from `from`.
pub fn step_position(from: usize, shown: usize, steps: isize) -> (r: usize)
    requires
        shown <= isize::MAX,
    ensures
        r == step_target(from, shown, steps),
{
    let s: i128 = shown as i128;
    let n: i128 = steps as i128;
    assert(-0x8000_0000_0000_0000_0000_0000_0000_0000 < s * n < 0x8000_0000_0000_0000_0000_0000_0000_0000)
        by (nonlinear_arith)
        requires
            0 <= s <= 0x8000_0000_0000_0000,
            -0x8000_0000_0000_0000 <= n <= 0x8000_0000_0000_0000,
    {
        assert(s * n <= 0x8000_0000_0000_0000 * 0x8000_0000_0000_0000);
        assert(s * n >= -(0x8000_0000_0000_0000 * 0x8000_0000_0000_0000));
    }
    let product: i128 = s * n;
    let offset: i128 = if product > isize::MAX as i128 {
        isize::MAX as i128
    } else if product < isize::MIN as i128 {
        isize::MIN as i128
    } else {
        product
    };
    let target: i128 = from as i128 + offset;
    if target < 0 {
        0
    } else if target > usize::MAX as i128 {
        usize::MAX
    } else {
        target as usize
    }
}

/// The status message that reports a change of the count of background
/// jobs.
pub open spec fn tick_message(incremented: bool, before: usize, after: usize) -> Seq<char> {
    (if incremented {
        "incremented"@
    } else {
        "decremented"@
    }) + " tick watcher count from "@ + decimal(before as nat) + " to "@ + decimal(after as nat)
}

/// The count of background jobs after `amount` more start, saturating.
pub open spec fn count_after_start(count: usize, amount: usize) -> usize {
    if count + amount > usize::MAX {
        usize::MAX
    } else {
        (count + amount) as usize
    }
}

/// The count of background jobs after `amount` of them end, saturating at
/// zero.
pub open spec fn count_after_end(count: usize, amount: usize) -> usize {
    if count < amount {
        0
    } else {
        (count - amount) as usize
    }
}

/// Writes the message reporting a change of the job count.
fn tick_text(incremented: bool, before: usize, after: usize) -> (text: String)
    ensures
        text@ == tick_message(incremented, before, after),
{
    let mut text = if incremented {
        String::from_str("incremented")
    } else {
        String::from_str("decremented")
    };
    text.append(" tick watcher count from ");
    let b = usize_text(before);
    text.append(b.as_str());
    text.append(" to ");
    let a = usize_text(after);
    text.append(a.as_str());
    text
}

/// The colour theme of the window.
#[derive(Clone, Copy, Debug, PartialEq, Eq, Structural)]
pub enum Theme {
    /// Dark text on a light background.
    Light,
    /// Light text on a dark background.
    Dark,
}

/// The value of a gathered metric.
#[derive(Debug)]
pub enum MetricValue {
    /// Not gathered, or gathering it failed.
    Absent,
    /// An average: the sum of the stored lengths and how many there are.
    Average { total: usize, count: usize },
    /// How often each domain occurs.
    UrlMap(UrlMap),
}

/// The gathered metrics, one value for each.
#[derive(Debug)]
pub struct Metrics {
    /// The average stored length of a bookmark.
    pub average_content_string_length: MetricValue,
    /// The occurrences of the domains.
    pub url_occurances: MetricValue,
}

/// The value of metric `m`.
pub open spec fn metric_value(ms: Metrics, m: Metric) -> MetricValue {
    match m {
        Metric::AverageContentStringLength => ms.average_content_string_length,
        Metric::UrlOccurances => ms.url_occurances,
    }
}

/// The metrics with the value of `m` replaced by `v`.
pub open spec fn metrics_with(ms: Metrics, m: Metric, v: MetricValue) -> Metrics {
    match m {
        Metric::AverageContentStringLength => Metrics { average_content_string_length: v, ..ms },
        Metric::UrlOccurances => Metrics { url_occurances: v, ..ms },
    }
}

impl Metrics {
    /// No metric gathered.
    pub fn new() -> (ms: Self)
        ensures
            ms.average_content_string_length is Absent,
            ms.url_occurances is Absent,
    {
        Metrics { average_content_string_length: MetricValue::Absent, url_occurances: MetricValue::Absent }
    }

    /// The value of metric `m`.
    pub fn get(&self, m: Metric) -> (v: &MetricValue)
        ensures
            *v == metric_value(*self, m),
    {
        match m {
            Metric::AverageContentStringLength => &self.average_content_string_length,
            Metric::UrlOccurances => &self.url_occurances,
        }
    }

    /// Replaces the value of metric `m` by `v`.
    pub fn set(&mut self, m: Metric, v: MetricValue)
        ensures
            *final(self) == metrics_with(*old(self), m, v),
    {
        match m {
            Metric::AverageContentStringLength => self.average_content_string_length = v,
            Metric::UrlOccurances => self.url_occurances = v,
        }
    }
}

/// What a pane of the log area shows.
#[derive(Debug)]
pub enum LogPane {
    /// The status log.
    Log,
    /// The metrics, each with a button to gather it.
    Stats,
    /// The counts of the domains of a gathered map.
    UrlSummary(UrlMap),
}

/// The state of the bookmark browser that its decisions depend on.
#[derive(Debug)]
pub struct App {
    /// The settings of the bookmark list.
    pub column: BookmarkColumnState,
    /// What the main area holds.
    pub main_content: MainContent,
    /// Whether edit buttons are shown.
    pub edit_mode_active: bool,
    /// How many background jobs are awaited; the program polls for their
    /// results while it is above zero.
    pub tick_watcher_count: usize,
    /// The status messages.
    pub status: StatusLog,
    /// The colour theme.
    pub theme: Theme,
    /// All bookmarks.
    pub bookmarks: Vec<Bookmark>,
    /// The filters applied since the last reset; the bookmarks listed are
    /// those that all of them let through.
    pub applied_filters: Vec<String>,
    /// The gathered metrics.
    pub metrics: Metrics,
    /// The panes of the log area, in the order they were opened.
    pub log_panes: Vec<LogPane>,
    /// The panes of the editing area, in the order they were opened.
    pub edit_panes: Vec<EditPaneState>,
    /// The category tree, as paths of category positions.
    pub category_tree: Vec<Vec<usize>>,
}

/// What the user or a finished background job asks of the browser.
#[derive(Debug, Clone)]
pub enum Msg {
    /// Open the bookmark at the index.
    GotoBookmarkLocation(usize),
    /// Apply the categories at the indices.
    ApplyCategory(Vec<usize>),
    /// New text for how many bookmarks a page shows.
    UpdateShownBookmarks(String),
    /// New text for the first bookmark shown.
    UpdateShownFrom(String),
    /// Move the given number of pages.
    UpdateShownFromSteps(isize),
    /// New text for the url width.
    UpdateUrlWidth(String),
    /// New text for the description width.
    UpdateDescWidth(String),
    /// New filter text.
    FilterBookmarks(String),
    /// Show another main area.
    SwitchMainTo(MainContent),
    /// Bookmarks gathered in the background, taken from where they were
    /// handed over; none when there were none to take.
    AddBookmarks(Option<Vec<Bookmark>>),
    /// Turn edit mode on or off.
    SetEditMode(bool),
    /// Edit the bookmark at the index.
    EditBookmark(usize),
    /// Edit the category at the index.
    EditCategory(usize),
    /// Start gathering a metric.
    GatherMetric(Metric),
    /// Use another colour theme.
    SetTheme(Theme),
    /// Log the text of a value.
    Debug(String),
    /// Keep listing only the bookmarks that the filter matches, until reset.
    ApplyFilter,
    /// Remove all bookmark filters.
    Reset,
    /// Close the log pane at the position.
    CloseLogPane(usize),
    /// A log pane was dropped on another: the two swap places.
    DragLogPane(usize, usize),
    /// Close the editing pane at the position.
    CloseEditPane(usize),
    /// An editing pane was dropped on another: the two swap places.
    DragEditPane(usize, usize),
    /// A change made in the bookmark pane at the position.
    EditBookmarkPaneChange(usize, BookmarkChange),
    /// A change made in the category pane at the position.
    EditCategoryPaneChange(usize, CategoryChange),
    /// Poll for results of background jobs.
    Tick,
    /// Nothing to do.
    Nothing,
}

/// What the surrounding program does after an event.
#[derive(Debug, Clone)]
pub enum Action {
    /// Nothing.
    Nothing,
    /// Poll for results of background jobs.
    ReceiveResults,
    /// Open the bookmark at the index.
    OpenBookmark(usize),
    /// Apply the categories at the indices to the bookmarks.
    ApplyCategories(Vec<usize>),
    /// Scroll the bookmark list back to its top.
    ScrollToTop,
    /// Split the editing area in this direction for the pane just added.
    SplitEditPane(Axis),
    /// Open an editing pane for the category at the index.
    EditCategory(usize),
    /// Start gathering the metric in the background.
    Gather(Metric),
}

/// A choice of main area offered above the main area.
#[derive(Debug, Clone)]
pub struct Choice {
    /// The label of the choice.
    pub label: &'static str,
    /// The main area it chooses.
    pub value: MainContent,
    /// Whether it is the main area shown.
    pub selected: bool,
    /// The message that choosing it sends.
    pub on_choose: Msg,
}

impl MainContent {
    /// The choices of main area, in the order they are offered: each
    /// labelled with its name, the one shown selected, each sending
    /// `SwitchMainTo` with its area when chosen.
    pub fn choice_row(&self) -> (row: Vec<Choice>)
        ensures
            row@.len() == 3,
            row@[0].value == MainContent::Bookmarks,
            row@[1].value == MainContent::Edit,
            row@[2].value == MainContent::Log,
            forall|k: int|
                0 <= k < 3 ==> {
                    &&& (#[trigger] row@[k]).label@ == main_content_name(row@[k].value)
                    &&& row@[k].selected == (row@[k].value == *self)
                    &&& row@[k].on_choose == Msg::SwitchMainTo(row@[k].value)
                },
    {
        let choices = MainContent::choices();
        let mut row: Vec<Choice> = Vec::new();
        let mut k: usize = 0;
        while k < choices.len()
            invariant
                k <= choices@.len(),
                choices@ == seq![MainContent::Bookmarks, MainContent::Edit, MainContent::Log],
                row@.len() == k,
                forall|j: int|
                    0 <= j < k ==> {
                        &&& (#[trigger] row@[j]).value == choices@[j]
                        &&& row@[j].label@ == main_content_name(row@[j].value)
                        &&& row@[j].selected == (row@[j].value == *self)
                        &&& row@[j].on_choose == Msg::SwitchMainTo(row@[j].value)
                    },
            decreases choices@.len() - k,
        {
            let c = choices[k];
            row.push(Choice { label: c.name(), value: c, selected: c == *self, on_choose: Msg::SwitchMainTo(c) });
            k = k + 1;
        }
        row
    }
}

/// The message an input of setting `s` sends with its new text.
pub open spec fn setting_message(s: Setting, text: String) -> Msg {
    match s {
        Setting::ShownBookmarks => Msg::UpdateShownBookmarks(text),
        Setting::ShownFrom => Msg::UpdateShownFrom(text),
        Setting::UrlWidth => Msg::UpdateUrlWidth(text),
        Setting::DescWidth => Msg::UpdateDescWidth(text),
    }
}

/// The title a setting has in the settings column, with a colon.
pub open spec fn setting_column_title(s: Setting) -> Seq<char> {
    match s {
        Setting::ShownBookmarks => "Shown:"@,
        Setting::ShownFrom => "From:"@,
        Setting::UrlWidth => "Url Width:"@,
        Setting::DescWidth => "Info Width:"@,
    }
}

impl Setting {
    /// The message the setting's input sends with its new text.
    pub fn message(&self, text: String) -> (m: Msg)
        ensures
            m == setting_message(*self, text),
    {
        match self {
            Setting::ShownBookmarks => Msg::UpdateShownBookmarks(text),
            Setting::ShownFrom => Msg::UpdateShownFrom(text),
            Setting::UrlWidth => Msg::UpdateUrlWidth(text),
            Setting::DescWidth => Msg::UpdateDescWidth(text),
        }
    }

    /// The title the setting has in the settings column, with a colon.
    pub fn column_title(&self) -> (s: &'static str)
        ensures
            s@ == setting_column_title(*self),
    {
        match self {
            Setting::ShownBookmarks => "Shown:",
            Setting::ShownFrom => "From:",
            Setting::UrlWidth => "Url Width:",
            Setting::DescWidth => "Info Width:",
        }
    }
}

/// An input of the settings pane.
#[derive(Debug, Clone)]
pub struct SettingInput {
    /// Its title.
    pub title: &'static str,
    /// The text it holds.
    pub value: String,
    /// The setting it edits; its input sends `setting.message(text)`.
    pub setting: Setting,
}

/// The title of the theme toggle in the settings pane.
pub fn theme_toggle_title() -> (s: &'static str)
    ensures
        s@ == "Use Dark Theme"@,
{
    "Use Dark Theme"
}

/// The title of the theme toggle in the settings column, with a colon.
pub fn theme_toggle_column_title() -> (s: &'static str)
    ensures
        s@ == "Use Dark Theme:"@,
{
    "Use Dark Theme:"
}

/// An item of the tool row above the bookmark list.
#[derive(Debug, Clone)]
pub enum ToolItem {
    /// A text label.
    Label(&'static str),
    /// The filter input holding the filter text; typing in it sends
    /// `filter_input_message` with the new text.
    FilterInput(String),
    /// A button and the message it sends when pressed.
    Button { label: &'static str, on_press: Msg },
    /// The edit mode toggle in its position; switching it sends
    /// `edit_toggle_message` with the new position.
    EditToggle(bool),
}

/// The tool row: the filter with its text, the buttons that apply and
/// reset filters, and the edit mode toggle.
pub fn tool_row(filter: &str, edit_mode_active: bool) -> (row: Vec<ToolItem>)
    ensures
        row@.len() == 6,
        row@[0] matches ToolItem::Label(l) && l@ == "Filter:"@,
        row@[1] matches ToolItem::FilterInput(t) && t@ == filter@,
        row@[2] matches ToolItem::Button { label, on_press } && label@ == "Apply"@ && on_press
            == Msg::ApplyFilter,
        row@[3] matches ToolItem::Button { label, on_press } && label@ == "Reset"@ && on_press
            == Msg::Reset,
        row@[4] matches ToolItem::Label(l) && l@ == "Edit"@,
        row@[5] == ToolItem::EditToggle(edit_mode_active),
{
    vec![
        ToolItem::Label("Filter:"),
        ToolItem::FilterInput(String::from_str(filter)),
        ToolItem::Button { label: "Apply", on_press: Msg::ApplyFilter },
        ToolItem::Button { label: "Reset", on_press: Msg::Reset },
        ToolItem::Label("Edit"),
        ToolItem::EditToggle(edit_mode_active),
    ]
}

/// The message the filter input sends with its new text.
pub fn filter_input_message(text: String) -> (m: Msg)
    ensures
        m == Msg::FilterBookmarks(text),
{
    Msg::FilterBookmarks(text)
}

/// The message the edit mode toggle sends when switched to `on`.
pub fn edit_toggle_message(on: bool) -> (m: Msg)
    ensures
        m == Msg::SetEditMode(on),
{
    Msg::SetEditMode(on)
}

/// The message the theme toggle sends when set to `on`: the dark theme when
/// on, the light one when off.
pub fn theme_toggle_message(on: bool) -> (m: Msg)
    ensures
        m == Msg::SetTheme(if on { Theme::Dark } else { Theme::Light }),
{
    Msg::SetTheme(if on { Theme::Dark } else { Theme::Light })
}

/// `new` is `old` with the status message `msg` logged.
pub open spec fn logged(old: App, new: App, msg: Seq<char>) -> bool {
    &&& new.status@ == (old.status@.0.push(msg), msg)
    &&& new == (App { status: new.status, ..old })
}

/// `new` is `old` after the text of setting `s` was set to `text`: the
/// setting takes the text and its value and the change is logged; text that
/// is neither empty nor a number changes nothing.
pub open spec fn setting_changed(old: App, new: App, s: Setting, text: Seq<char>) -> bool {
    if text.len() == 0 || parse_usize(text) is Some {
        &&& setting_field(new.column, s)@ == (text, text_value(text))
        &&& forall|o: Setting|
            o != s ==> #[trigger] setting_field(new.column, o) == setting_field(old.column, o)
        &&& new.column.filter_str == old.column.filter_str
        &&& new.status@ == (
            old.status@.0.push(change_message(setting_label(s), text_value(text))),
            change_message(setting_label(s), text_value(text)),
        )
        &&& new == (App { column: new.column, status: new.status, ..old })
    } else {
        new == old
    }
}

/// The position the bookmark list starts at after moving `steps` pages.
pub open spec fn stepped_from(s: App, steps: isize) -> usize {
    step_target(
        match s.column.shown_from@.1 {
            Some(v) => v,
            None => 0,
        },
        match s.column.shown_bookmarks@.1 {
            Some(v) => v,
            None => 0,
        },
        steps,
    )
}

/// The text of an optional string.
pub open spec fn text_of(o: Option<&str>) -> Option<Seq<char>> {
    match o {
        Some(s) => Some(s@),
        None => None,
    }
}

/// The status message reporting that a metric was gathered, with the text
/// of its value, or that gathering it failed.
pub open spec fn gathered_message(m: Metric, value: Option<Seq<char>>) -> Seq<char> {
    match value {
        Some(v) => "gathered metric \""@ + metric_name(m) + "\", value ["@ + v + "]"@,
        None => "failed to gather metric \""@ + metric_name(m) + "\""@,
    }
}

/// The status message reporting the opening of a bookmark.
pub open spec fn opened_message(url: Seq<char>, error: Option<Seq<char>>) -> Seq<char> {
    match error {
        None => "opened bookmark ["@ + url + "]"@,
        Some(e) => "Failed to open: "@ + url + ", "@ + e,
    }
}

/// The status message reporting the application of a category.
pub open spec fn applied_message(name: Seq<char>, error: Option<Seq<char>>) -> Seq<char> {
    match error {
        None => "applied category <"@ + name + ">"@,
        Some(e) => "failed to apply category <"@ + name + ">, "@ + e,
    }
}

/// The status message reporting the loading of a section of a file.
pub open spec fn section_message(section: Seq<char>, error: Option<Seq<char>>) -> Seq<char> {
    match error {
        None => "loaded section ["@ + section + "]"@,
        Some(e) => "failed to load section ["@ + section + "], "@ + e,
    }
}

/// Is `s` the state a window starts in with theme `theme`, before anything
/// is logged?
pub open spec fn is_initial(s: App, theme: Theme) -> bool {
    &&& s.column.desc_width@ == (decimal(50), Some(50usize))
    &&& s.column.url_width@ == (decimal(75), Some(75usize))
    &&& s.column.shown_bookmarks@ == (decimal(512), Some(512usize))
    &&& s.column.shown_from@ == (decimal(0), Some(0usize))
    &&& s.column.filter_str@ == Seq::<char>::empty()
    &&& s.main_content == MainContent::Bookmarks
    &&& !s.edit_mode_active
    &&& s.tick_watcher_count == 0
    &&& s.theme == theme
    &&& s.bookmarks@.len() == 0
    &&& s.applied_filters@.len() == 0
    &&& s.metrics.average_content_string_length is Absent
    &&& s.metrics.url_occurances is Absent
    &&& s.log_panes@ == seq![LogPane::Log, LogPane::Stats]
    &&& s.edit_panes@ == seq![EditPaneState::Settings]
    &&& s.category_tree@.len() == 0
}

impl App {
    /// The state a window starts in: the bookmark list with its default
    /// settings, no bookmarks, edit mode off, no background jobs, no
    /// metrics, the status log and statistics panes, the settings pane, an
    /// empty category tree, and nothing logged. The theme is the one the
    /// system uses, which the caller finds out.
    pub fn with_theme(theme: Theme) -> (s: Self)
        ensures
            is_initial(s, theme),
            s.status@ == (Seq::<Seq<char>>::empty(), Seq::<char>::empty()),
    {
        let log_panes = vec![LogPane::Log, LogPane::Stats];
        let edit_panes = vec![EditPaneState::Settings];
        assert(log_panes@ =~= seq![LogPane::Log, LogPane::Stats]);
        assert(edit_panes@ =~= seq![EditPaneState::Settings]);
        App {
            column: BookmarkColumnState::default(),
            main_content: MainContent::Bookmarks,
            edit_mode_active: false,
            tick_watcher_count: 0,
            status: StatusLog::new(),
            theme,
            bookmarks: Vec::new(),
            applied_filters: Vec::new(),
            metrics: Metrics::new(),
            log_panes,
            edit_panes,
            category_tree: Vec::new(),
        }
    }

    /// The state the application starts in: the initial state with the
    /// status saying that the application was created.
    pub fn new(theme: Theme) -> (s: Self)
        ensures
            is_initial(s, theme),
            s.status@ == (seq!["Created application"@], "Created application"@),
    {
        let mut s = App::with_theme(theme);
        s.status.set_status(String::from_str("Created application"));
        assert(s.status@.0 =~= seq!["Created application"@]);
        s
    }

    /// Whether the dark theme is in use, as the theme toggle shows it.
    pub fn is_dark_mode(&self) -> (b: bool)
        ensures
            b == (self.theme == Theme::Dark),
    {
        self.theme == Theme::Dark
    }

    /// The inputs of the settings pane, in order: each with its title, the
    /// text of its setting, and the setting it edits.
    pub fn settings_inputs(&self) -> (inputs: Vec<SettingInput>)
        ensures
            inputs@.len() == 4,
            inputs@[0].setting == Setting::DescWidth,
            inputs@[1].setting == Setting::UrlWidth,
            inputs@[2].setting == Setting::ShownBookmarks,
            inputs@[3].setting == Setting::ShownFrom,
            forall|k: int|
                0 <= k < 4 ==> {
                    &&& (#[trigger] inputs@[k]).title@ == setting_title(inputs@[k].setting)
                    &&& inputs@[k].value@ == setting_field(self.column, inputs@[k].setting)@.0
                },
    {
        let order = Setting::in_pane_order();
        let mut inputs: Vec<SettingInput> = Vec::new();
        let mut k: usize = 0;
        while k < order.len()
            invariant
                k <= order@.len(),
                order@ == seq![Setting::DescWidth, Setting::UrlWidth, Setting::ShownBookmarks, Setting::ShownFrom],
                inputs@.len() == k,
                forall|j: int|
                    0 <= j < k ==> {
                        &&& (#[trigger] inputs@[j]).setting == order@[j]
                        &&& inputs@[j].title@ == setting_title(inputs@[j].setting)
                        &&& inputs@[j].value@ == setting_field(self.column, inputs@[j].setting)@.0
                    },
            decreases order@.len() - k,
        {
            let s = order[k];
            let value = String::from_str(self.column.setting(s).as_str());
            inputs.push(SettingInput { title: s.title(), value, setting: s });
            k = k + 1;
        }
        inputs
    }

    /// Builds the category tree of `categories` and `infos`.
    pub fn update_category_tree(&mut self, categories: &Vec<Category>, infos: &Vec<Info>)
        ensures
            final(self).category_tree@.map_values(|p: Vec<usize>| p@) == category_tree_spec(
                categories@,
                infos@,
            ),
            *final(self) == (App { category_tree: final(self).category_tree, ..*old(self) }),
    {
        self.category_tree = category_tree(categories, infos);
    }

    /// Adds a pane editing `proxy` and shows the editing area; returns the
    /// direction in which the editing area is split for it.
    pub fn open_category_pane(&mut self, proxy: CategoryProxy) -> (a: Axis)
        ensures
            a == pane_axis(old(self).edit_panes@.len()),
            final(self).edit_panes@ == old(self).edit_panes@.push(EditPaneState::Category(proxy)),
            *final(self) == (App {
                edit_panes: final(self).edit_panes,
                main_content: MainContent::Edit,
                ..*old(self)
            }),
    {
        let a = split_axis(self.edit_panes.len());
        self.edit_panes.push(EditPaneState::Category(proxy));
        self.main_content = MainContent::Edit;
        a
    }

    /// Makes `msg` the current status and logs it.
    pub fn set_status(&mut self, msg: String)
        ensures
            logged(*old(self), *final(self), msg@),
    {
        self.status.set_status(msg);
    }

    /// Whether results of background jobs are awaited, so that the program
    /// polls for them.
    pub fn is_ticking(&self) -> (b: bool)
        ensures
            b == (self.tick_watcher_count > 0),
    {
        self.tick_watcher_count > 0
    }

    /// Counts `amount` more background jobs, saturating, and logs the
    /// change.
    pub fn increment_tick_watchers(&mut self, amount: usize)
        ensures
            final(self).tick_watcher_count == count_after_start(old(self).tick_watcher_count, amount),
            logged(
                *old(self),
                App { tick_watcher_count: old(self).tick_watcher_count, ..*final(self) },
                tick_message(true, old(self).tick_watcher_count, final(self).tick_watcher_count),
            ),
    {
        let before = self.tick_watcher_count;
        self.tick_watcher_count = before.saturating_add(amount);
        let msg = tick_text(true, before, self.tick_watcher_count);
        self.status.set_status(msg);
    }

    /// Counts `amount` fewer background jobs, stopping at zero, and logs
    /// the change.
    pub fn decrement_tick_watchers(&mut self, amount: usize)
        ensures
            final(self).tick_watcher_count == count_after_end(old(self).tick_watcher_count, amount),
            logged(
                *old(self),
                App { tick_watcher_count: old(self).tick_watcher_count, ..*final(self) },
                tick_message(false, old(self).tick_watcher_count, final(self).tick_watcher_count),
            ),
    {
        let before = self.tick_watcher_count;
        self.tick_watcher_count = before.saturating_sub(amount);
        let msg = tick_text(false, before, self.tick_watcher_count);
        self.status.set_status(msg);
    }

    /// Sets the text of a setting; text that is neither empty nor a number
    /// is ignored.
    pub fn update_setting(&mut self, s: Setting, text: &str)
        ensures
            setting_changed(*old(self), *final(self), s, text@),
    {
        let label = s.label();
        let res = match s {
            Setting::ShownBookmarks => self.column.shown_bookmarks.parse_with_message(text, label),
            Setting::ShownFrom => self.column.shown_from.parse_with_message(text, label),
            Setting::UrlWidth => self.column.url_width.parse_with_message(text, label),
            Setting::DescWidth => self.column.desc_width.parse_with_message(text, label),
        };
        if let Ok(msg) = res {
            self.status.set_status(msg);
        }
    }

    /// Moves the bookmark list `steps` pages.
    pub fn step_shown_from(&mut self, steps: isize)
        requires
            match old(self).column.shown_bookmarks@.1 {
                Some(v) => v <= isize::MAX,
                None => true,
            },
        ensures
            final(self).column.shown_from@ == (
                value_text(Some(stepped_from(*old(self), steps))),
                Some(stepped_from(*old(self), steps)),
            ),
            *final(self) == (App {
                column: BookmarkColumnState { shown_from: final(self).column.shown_from, ..old(self).column },
                ..*old(self)
            }),
    {
        let from = match self.column.shown_from.value() {
            Some(v) => v,
            None => 0,
        };
        let shown = match self.column.shown_bookmarks.value() {
            Some(v) => v,
            None => 0,
        };
        let target = step_position(from, shown, steps);
        self.column.shown_from.set_value(Some(target));
    }

    /// Takes in what a background job gathered for metric `m`: logs it,
    /// with `shown` as the text of the value, or logs that gathering failed
    /// when the value is absent; stores the value; opens a pane summarising
    /// a gathered map of domains; and counts the job as ended.
    pub fn report_gathered(&mut self, m: Metric, value: MetricValue, shown: &str)
        ensures
            final(self).tick_watcher_count == count_after_end(old(self).tick_watcher_count, 1),
            final(self).status@.0 == old(self).status@.0.push(
                gathered_message(m, if value is Absent { None } else { Some(shown@) }),
            ).push(tick_message(false, old(self).tick_watcher_count, final(self).tick_watcher_count)),
            final(self).status@.1 == tick_message(
                false,
                old(self).tick_watcher_count,
                final(self).tick_watcher_count,
            ),
            final(self).metrics == metrics_with(old(self).metrics, m, value),
            match value {
                MetricValue::UrlMap(u) => {
                    &&& final(self).log_panes@.len() == old(self).log_panes@.len() + 1
                    &&& final(self).log_panes@.drop_last() == old(self).log_panes@
                    &&& final(self).log_panes@.last() matches LogPane::UrlSummary(c)
                        && url_map_view(c) == url_map_view(u)
                },
                _ => final(self).log_panes == old(self).log_panes,
            },
            *final(self) == (App {
                tick_watcher_count: final(self).tick_watcher_count,
                status: final(self).status,
                metrics: final(self).metrics,
                log_panes: final(self).log_panes,
                ..*old(self)
            }),
    {
        let mut msg;
        match value {
            MetricValue::Absent => {
                msg = String::from_str("failed to gather metric \"");
                msg.append(m.name());
                msg.append("\"");
            },
            _ => {
                msg = String::from_str("gathered metric \"");
                msg.append(m.name());
                msg.append("\", value [");
                msg.append(shown);
                msg.append("]");
            },
        }
        self.status.set_status(msg);
        match &value {
            MetricValue::UrlMap(u) => {
                let c = u.copy();
                let ghost before = self.log_panes@;
                self.log_panes.push(LogPane::UrlSummary(c));
                assert(self.log_panes@.drop_last() =~= before);
            },
            _ => {},
        }
        self.metrics.set(m, value);
        self.decrement_tick_watchers(1);
    }

    /// Logs the outcome of opening the bookmark with `url`.
    pub fn report_opened(&mut self, url: &str, error: Option<&str>)
        ensures
            logged(*old(self), *final(self), opened_message(url@, text_of(error))),
    {
        let mut msg;
        match error {
            None => {
                msg = String::from_str("opened bookmark [");
                msg.append(url);
                msg.append("]");
            },
            Some(e) => {
                msg = String::from_str("Failed to open: ");
                msg.append(url);
                msg.append(", ");
                msg.append(e);
            },
        }
        self.status.set_status(msg);
    }

    /// Logs the outcome of applying the category named `name`.
    pub fn report_applied(&mut self, name: &str, error: Option<&str>)
        ensures
            logged(*old(self), *final(self), applied_message(name@, text_of(error))),
    {
        let mut msg;
        match error {
            None => {
                msg = String::from_str("applied category <");
                msg.append(name);
                msg.append(">");
            },
            Some(e) => {
                msg = String::from_str("failed to apply category <");
                msg.append(name);
                msg.append(">, ");
                msg.append(e);
            },
        }
        self.status.set_status(msg);
    }

    /// Logs the outcome of loading the section named `section` of a file.
    pub fn report_section(&mut self, section: &str, error: Option<&str>)
        ensures
            logged(*old(self), *final(self), section_message(section@, text_of(error))),
    {
        let mut msg;
        match error {
            None => {
                msg = String::from_str("loaded section [");
                msg.append(section);
                msg.append("]");
            },
            Some(e) => {
                msg = String::from_str("failed to load section [");
                msg.append(section);
                msg.append("], ");
                msg.append(e);
            },
        }
        self.status.set_status(msg);
    }

    /// Handles an event: changes the state as the event asks and returns
    /// what the surrounding program does next.
    pub fn update(&mut self, message: Msg) -> (a: Action)
        requires
            message is UpdateShownFromSteps ==> match old(self).column.shown_bookmarks@.1 {
                Some(v) => v <= isize::MAX,
                None => true,
            },
            message matches Msg::EditBookmark(i) ==> i < old(self).bookmarks@.len(),
            message matches Msg::EditBookmarkPaneChange(k, _) ==> k < old(self).edit_panes@.len()
                && old(self).edit_panes@[k as int] is Bookmark,
            message matches Msg::EditCategoryPaneChange(k, _) ==> k < old(self).edit_panes@.len()
                && old(self).edit_panes@[k as int] is Category,
        ensures
            match message {
                Msg::GotoBookmarkLocation(i) => a == Action::OpenBookmark(i) && *final(self)
                    == *old(self),
                Msg::ApplyCategory(v) => a == Action::ApplyCategories(v) && *final(self)
                    == *old(self),
                Msg::UpdateShownBookmarks(t) => a == Action::Nothing && setting_changed(
                    *old(self),
                    *final(self),
                    Setting::ShownBookmarks,
                    t@,
                ),
                Msg::UpdateShownFrom(t) => a == Action::Nothing && setting_changed(
                    *old(self),
                    *final(self),
                    Setting::ShownFrom,
                    t@,
                ),
                Msg::UpdateUrlWidth(t) => a == Action::Nothing && setting_changed(
                    *old(self),
                    *final(self),
                    Setting::UrlWidth,
                    t@,
                ),
                Msg::UpdateDescWidth(t) => a == Action::Nothing && setting_changed(
                    *old(self),
                    *final(self),
                    Setting::DescWidth,
                    t@,
                ),
                Msg::UpdateShownFromSteps(n) => {
                    &&& a == Action::ScrollToTop
                    &&& final(self).column.shown_from@ == (
                        value_text(Some(stepped_from(*old(self), n))),
                        Some(stepped_from(*old(self), n)),
                    )
                    &&& *final(self) == (App {
                        column: BookmarkColumnState {
                            shown_from: final(self).column.shown_from,
                            ..old(self).column
                        },
                        ..*old(self)
                    })
                },
                Msg::FilterBookmarks(t) => a == Action::Nothing && *final(self) == (App {
                    column: BookmarkColumnState { filter_str: t, ..old(self).column },
                    ..*old(self)
                }),
                Msg::SwitchMainTo(c) => a == Action::Nothing && *final(self) == (App {
                    main_content: c,
                    ..*old(self)
                }),
                Msg::AddBookmarks(taken) => {
                    &&& a == Action::Nothing
                    &&& match taken {
                        Some(v) => final(self).bookmarks@ == old(self).bookmarks@ + v@,
                        None => final(self).bookmarks@ == old(self).bookmarks@,
                    }
                    &&& *final(self) == (App { bookmarks: final(self).bookmarks, ..*old(self) })
                },
                Msg::SetEditMode(b) => a == Action::Nothing && *final(self) == (App {
                    edit_mode_active: b,
                    ..*old(self)
                }),
                Msg::EditBookmark(i) => {
                    &&& a == Action::SplitEditPane(pane_axis(old(self).edit_panes@.len()))
                    &&& final(self).edit_panes@.len() == old(self).edit_panes@.len() + 1
                    &&& final(self).edit_panes@.drop_last() == old(self).edit_panes@
                    &&& final(self).edit_panes@.last() matches EditPaneState::Bookmark(p)
                        && is_proxy_of(p, old(self).bookmarks@[i as int], i)
                    &&& *final(self) == (App {
                        edit_panes: final(self).edit_panes,
                        main_content: MainContent::Edit,
                        ..*old(self)
                    })
                },
                Msg::EditCategory(i) => a == Action::EditCategory(i) && *final(self) == (App {
                    main_content: MainContent::Edit,
                    ..*old(self)
                }),
                Msg::GatherMetric(m) => {
                    &&& a == Action::Gather(m)
                    &&& final(self).tick_watcher_count == count_after_start(
                        old(self).tick_watcher_count,
                        1,
                    )
                    &&& logged(
                        *old(self),
                        App { tick_watcher_count: old(self).tick_watcher_count, ..*final(self) },
                        tick_message(
                            true,
                            old(self).tick_watcher_count,
                            final(self).tick_watcher_count,
                        ),
                    )
                },
                Msg::SetTheme(t) => a == Action::Nothing && *final(self) == (App {
                    theme: t,
                    ..*old(self)
                }),
                Msg::Debug(text) => a == Action::Nothing && logged(*old(self), *final(self), text@),
                Msg::ApplyFilter => {
                    &&& a == Action::Nothing
                    &&& old(self).column.filter_str@.len() == 0 ==> *final(self) == *old(self)
                    &&& old(self).column.filter_str@.len() > 0 ==> strings_view(
                        final(self).applied_filters@,
                    ) == strings_view(old(self).applied_filters@).push(old(self).column.filter_str@)
                    &&& *final(self) == (App {
                        applied_filters: final(self).applied_filters,
                        ..*old(self)
                    })
                },
                Msg::Reset => {
                    &&& a == Action::Nothing
                    &&& final(self).applied_filters@.len() == 0
                    &&& final(self).bookmarks == old(self).bookmarks
                    &&& logged(
                        *old(self),
                        App { applied_filters: old(self).applied_filters, ..*final(self) },
                        "reset bookmark filters"@,
                    )
                },
                Msg::CloseLogPane(k) => {
                    &&& a == Action::Nothing
                    &&& final(self).log_panes@.len() == if k < old(self).log_panes@.len()
                        && old(self).log_panes@.len() > 1 {
                        old(self).log_panes@.len() - 1
                    } else {
                        old(self).log_panes@.len() as int
                    }
                    &&& k < old(self).log_panes@.len() && old(self).log_panes@.len() > 1 ==> final(self).log_panes@ == old(self).log_panes@.remove(k as int)
                    &&& !(k < old(self).log_panes@.len() && old(self).log_panes@.len() > 1) ==> final(self).log_panes == old(self).log_panes
                    &&& *final(self) == (App { log_panes: final(self).log_panes, ..*old(self) })
                },
                Msg::DragLogPane(i, j) => {
                    &&& a == Action::Nothing
                    &&& final(self).log_panes@ == if i < old(self).log_panes@.len() && j
                        < old(self).log_panes@.len() {
                        old(self).log_panes@.update(i as int, old(self).log_panes@[j as int]).update(
                            j as int,
                            old(self).log_panes@[i as int],
                        )
                    } else {
                        old(self).log_panes@
                    }
                    &&& *final(self) == (App { log_panes: final(self).log_panes, ..*old(self) })
                },
                Msg::CloseEditPane(k) => {
                    &&& a == Action::Nothing
                    &&& k < old(self).edit_panes@.len() && old(self).edit_panes@.len() > 1 ==> final(self).edit_panes@ == old(self).edit_panes@.remove(k as int)
                    &&& !(k < old(self).edit_panes@.len() && old(self).edit_panes@.len() > 1) ==> final(self).edit_panes == old(self).edit_panes
                    &&& *final(self) == (App { edit_panes: final(self).edit_panes, ..*old(self) })
                },
                Msg::DragEditPane(i, j) => {
                    &&& a == Action::Nothing
                    &&& final(self).edit_panes@ == if i < old(self).edit_panes@.len() && j
                        < old(self).edit_panes@.len() {
                        old(self).edit_panes@.update(i as int, old(self).edit_panes@[j as int]).update(
                            j as int,
                            old(self).edit_panes@[i as int],
                        )
                    } else {
                        old(self).edit_panes@
                    }
                    &&& *final(self) == (App { edit_panes: final(self).edit_panes, ..*old(self) })
                },
                Msg::EditBookmarkPaneChange(k, change) => {
                    &&& a == Action::Nothing
                    &&& final(self).edit_panes@ == old(self).edit_panes@.update(
                        k as int,
                        EditPaneState::Bookmark(
                            bookmark_changed(old(self).edit_panes@[k as int]->Bookmark_0, change),
                        ),
                    )
                    &&& *final(self) == (App { edit_panes: final(self).edit_panes, ..*old(self) })
                },
                Msg::EditCategoryPaneChange(k, change) => {
                    &&& a == Action::Nothing
                    &&& final(self).edit_panes@ == old(self).edit_panes@.update(
                        k as int,
                        EditPaneState::Category(
                            category_changed(old(self).edit_panes@[k as int]->Category_0, change),
                        ),
                    )
                    &&& *final(self) == (App { edit_panes: final(self).edit_panes, ..*old(self) })
                },
                Msg::Tick => a == Action::ReceiveResults && *final(self) == *old(self),
                Msg::Nothing => a == Action::Nothing && *final(self) == *old(self),
            },
            old(self).status@.0.is_prefix_of(final(self).status@.0),
    {
        match message {
            Msg::GotoBookmarkLocation(i) => Action::OpenBookmark(i),
            Msg::ApplyCategory(v) => Action::ApplyCategories(v),
            Msg::UpdateShownBookmarks(t) => {
                self.update_setting(Setting::ShownBookmarks, t.as_str());
                Action::Nothing
            },
            Msg::UpdateShownFrom(t) => {
                self.update_setting(Setting::ShownFrom, t.as_str());
                Action::Nothing
            },
            Msg::UpdateUrlWidth(t) => {
                self.update_setting(Setting::UrlWidth, t.as_str());
                Action::Nothing
            },
            Msg::UpdateDescWidth(t) => {
                self.update_setting(Setting::DescWidth, t.as_str());
                Action::Nothing
            },
            Msg::UpdateShownFromSteps(n) => {
                self.step_shown_from(n);
                Action::ScrollToTop
            },
            Msg::FilterBookmarks(t) => {
                self.column.filter_str = t;
                Action::Nothing
            },
            Msg::SwitchMainTo(c) => {
                self.main_content = c;
                Action::Nothing
            },
            Msg::AddBookmarks(taken) => {
                match taken {
                    Some(mut v) => {
                        self.bookmarks.append(&mut v);
                    },
                    None => {},
                }
                Action::Nothing
            },
            Msg::SetEditMode(b) => {
                self.edit_mode_active = b;
                Action::Nothing
            },
            Msg::EditBookmark(i) => {
                let axis = split_axis(self.edit_panes.len());
                let proxy = BookmarkProxy::of(&self.bookmarks[i], i);
                let ghost before = self.edit_panes@;
                self.edit_panes.push(EditPaneState::Bookmark(proxy));
                assert(self.edit_panes@.drop_last() =~= before);
                self.main_content = MainContent::Edit;
                Action::SplitEditPane(axis)
            },
            Msg::EditCategory(i) => {
                self.main_content = MainContent::Edit;
                Action::EditCategory(i)
            },
            Msg::GatherMetric(m) => {
                self.increment_tick_watchers(1);
                Action::Gather(m)
            },
            Msg::SetTheme(t) => {
                self.theme = t;
                Action::Nothing
            },
            Msg::Debug(text) => {
                self.status.set_status(text);
                Action::Nothing
            },
            Msg::ApplyFilter => {
                if !self.column.filter_str.as_str().is_empty() {
                    let ghost before = self.applied_filters@;
                    self.applied_filters.push(self.column.filter_str.clone());
                    assert(strings_view(self.applied_filters@) =~= strings_view(before).push(
                        self.column.filter_str@,
                    ));
                }
                Action::Nothing
            },
            Msg::Reset => {
                self.applied_filters = Vec::new();
                self.status.set_status(String::from_str("reset bookmark filters"));
                Action::Nothing
            },
            Msg::CloseLogPane(k) => {
                if k < self.log_panes.len() && self.log_panes.len() > 1 {
                    self.log_panes.remove(k);
                }
                Action::Nothing
            },
            Msg::DragLogPane(i, j) => {
                if i < self.log_panes.len() && j < self.log_panes.len() {
                    swap_items(&mut self.log_panes, i, j);
                }
                Action::Nothing
            },
            Msg::CloseEditPane(k) => {
                if k < self.edit_panes.len() && self.edit_panes.len() > 1 {
                    self.edit_panes.remove(k);
                }
                Action::Nothing
            },
            Msg::DragEditPane(i, j) => {
                if i < self.edit_panes.len() && j < self.edit_panes.len() {
                    swap_items(&mut self.edit_panes, i, j);
                }
                Action::Nothing
            },
            Msg::EditBookmarkPaneChange(k, change) => {
                let mut pane = self.edit_panes.remove(k);
                pane.edit_bookmark(change);
                self.edit_panes.insert(k, pane);
                Action::Nothing
            },
            Msg::EditCategoryPaneChange(k, change) => {
                let mut pane = self.edit_panes.remove(k);
                pane.edit_category(change);
                self.edit_panes.insert(k, pane);
                Action::Nothing
            },
            Msg::Tick => Action::ReceiveResults,
            Msg::Nothing => Action::Nothing,
        }
    }
}

/// Swaps the items at positions `i` and `j`.
pub fn swap_items<T>(v: &mut Vec<T>, i: usize, j: usize)
    requires
        i < old(v)@.len(),
        j < old(v)@.len(),
    ensures
        final(v)@ == old(v)@.update(i as int, old(v)@[j as int]).update(j as int, old(v)@[i as int]),
{
    if i == j {
        assert(old(v)@.update(i as int, old(v)@[j as int]).update(j as int, old(v)@[i as int]) =~= old(v)@);
        return;
    }
    let (lo, hi) = if i < j { (i, j) } else { (j, i) };
    let ghost orig = v@;
    let high = v.remove(hi);
    let low = v.remove(lo);
    v.insert(lo, high);
    v.insert(hi, low);
    assert(v@ =~= orig.update(lo as int, orig[hi as int]).update(hi as int, orig[lo as int]));
    assert(orig.update(i as int, orig[j as int]).update(j as int, orig[i as int]) =~= orig.update(
        lo as int,
        orig[hi as int],
    ).update(hi as int, orig[lo as int]));
}

/// Starting `amount` background jobs and then seeing `amount` of them end
/// gives the count back, when the count did not saturate.
pub proof fn lemma_tick_watchers_round_trip(count: usize, amount: usize)
    requires
        count + amount <= usize::MAX,
    ensures
        count_after_end(count_after_start(count, amount), amount) == count,
{
}

/// The program polls for results exactly while a started job has not been
/// seen to end: after a start the count is above zero, and the end of the
/// only job brings it back to zero.
pub proof fn lemma_ticking_while_awaited(count: usize)
    ensures
        count_after_start(count, 1) > 0,
        count_after_end(count_after_start(0, 1), 1) == 0,
{
}

/// Moving a page forward and then a page back returns to the same
/// position, when the forward move did not saturate.
pub proof fn lemma_step_forward_back(from: usize, shown: usize)
    requires
        shown <= isize::MAX,
        from + shown <= usize::MAX,
    ensures
        step_target(step_target(from, shown, 1isize), shown, -1isize) == from,
{
}

/// Moving a page back and then a page forward returns to the same
/// position, when the position was at least a page from the start.
pub proof fn lemma_step_back_forward(from: usize, shown: usize)
    requires
        shown <= isize::MAX,
        from >= shown,
    ensures
        step_target(step_target(from, shown, -1isize), shown, 1isize) == from,
{
}

} // verus!
