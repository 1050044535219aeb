//! The bookmark list as it is shown: the filter that selects bookmarks, the
//! page of them that is shown, its header, and descriptions and urls cut to
//! a width counted in grapheme clusters.

use vstd::prelude::*;
use vstd::string::*;
use crate::decimal::decimal;
use crate::number_text::usize_text;
use crate::records::{Bookmark, strings_view};
use crate::app_state::{App, Msg};

verus! {

/// The code of an ASCII letter in lower case, the code of anything else
/// unchanged.
pub open spec fn folded(c: char) -> int {
    if 65 <= c as int <= 90 {
        c as int + 32
    } else {
        c as int
    }
}

/// Does `pattern` occur in `text` at position `i`, with ASCII letters
/// compared without regard to case?
pub open spec fn matches_at(text: Seq<char>, pattern: Seq<char>, i: int) -> bool {
    &&& 0 <= i
    &&& i + pattern.len() <= text.len()
    &&& forall|k: int| 0 <= k < pattern.len() ==> folded(#[trigger] text[i + k]) == folded(pattern[k])
}

/// Does `pattern` occur somewhere in `text`, with ASCII letters compared
/// without regard to case?
pub open spec fn contains_folded(text: Seq<char>, pattern: Seq<char>) -> bool {
    exists|i: int| #[trigger] matches_at(text, pattern, i)
}

/// Builds an `aho_corasick` automaton for the single `pattern`, as the
/// bookmark filter does (`AhoCorasickBuilder` with `auto_configure` and
/// `ascii_case_insensitive(true)`), and asks `is_match` on `text`. The
/// crate documents that `is_match` is true exactly when the pattern matches
/// somewhere in the haystack, and that the option compares the ASCII letters
/// `a-z` and `A-Z` without regard to case and everything else exactly. The
/// search runs over bytes; since folding only touches ASCII bytes, a match
/// of the UTF-8 bytes of the pattern is a match of its characters.
#[verifier::external_body]
fn filter_matches(pattern: &str, text: &str) -> (b: bool)
    ensures
        b == contains_folded(text@, pattern@),
{
    let patterns: &[&str] = &[pattern];
    aho_corasick::AhoCorasickBuilder::new()
        .auto_configure(patterns)
        .ascii_case_insensitive(true)
        .build(patterns)
        .is_match(text)
}

/// Does the pattern let the bookmark through: when its url or description
/// contains it.
pub open spec fn matches_pattern(b: Bookmark, pattern: Seq<char>) -> bool {
    contains_folded(b.url@, pattern) || contains_folded(b.description@, pattern)
}

/// Do all the patterns let the bookmark through? With no pattern, every
/// bookmark passes.
pub open spec fn passes(b: Bookmark, patterns: Seq<Seq<char>>) -> bool {
    forall|k: int| 0 <= k < patterns.len() ==> matches_pattern(b, #[trigger] patterns[k])
}

/// A bookmark is shown exactly when every pattern in force lets it
/// through: with no pattern it is shown, each pattern of a list that shows
/// it lets it through, and adding a pattern shows it exactly when it was
/// shown before and the new pattern lets it through.
pub proof fn lemma_passes_every_pattern(b: Bookmark, patterns: Seq<Seq<char>>, p: Seq<char>)
    ensures
        passes(b, Seq::empty()),
        passes(b, patterns) ==> forall|k: int|
            0 <= k < patterns.len() ==> matches_pattern(b, #[trigger] patterns[k]),
        passes(b, patterns.push(p)) == (passes(b, patterns) && matches_pattern(b, p)),
{
    let more = patterns.push(p);
    if passes(b, more) {
        assert(more[patterns.len() as int] == p);
        assert forall|k: int| 0 <= k < patterns.len() implies matches_pattern(b, #[trigger] patterns[k]) by {
            assert(more[k] == patterns[k]);
        }
    }
    if passes(b, patterns) && matches_pattern(b, p) {
        assert forall|k: int| 0 <= k < more.len() implies matches_pattern(b, #[trigger] more[k]) by {
            if k < patterns.len() {
                assert(more[k] == patterns[k]);
            }
        }
    }
}

/// A pattern that stands unchanged in the url or the description lets the
/// bookmark through, and the empty pattern lets every bookmark through.
pub proof fn lemma_pattern_found(b: Bookmark, p: Seq<char>, i: int)
    ensures
        0 <= i && i + p.len() <= b.url@.len() && b.url@.subrange(i, i + p.len()) == p ==> matches_pattern(b, p),
        0 <= i && i + p.len() <= b.description@.len() && b.description@.subrange(i, i + p.len()) == p
            ==> matches_pattern(b, p),
        matches_pattern(b, Seq::empty()),
{
    if 0 <= i && i + p.len() <= b.url@.len() && b.url@.subrange(i, i + p.len()) == p {
        assert forall|k: int| 0 <= k < p.len() implies folded(#[trigger] b.url@[i + k]) == folded(p[k]) by {
            assert(b.url@.subrange(i, i + p.len())[k] == b.url@[i + k]);
        }
        assert(matches_at(b.url@, p, i));
    }
    if 0 <= i && i + p.len() <= b.description@.len() && b.description@.subrange(i, i + p.len()) == p {
        assert forall|k: int| 0 <= k < p.len() implies folded(#[trigger] b.description@[i + k]) == folded(p[k]) by {
            assert(b.description@.subrange(i, i + p.len())[k] == b.description@[i + k]);
        }
        assert(matches_at(b.description@, p, i));
    }
    assert(matches_at(b.url@, Seq::empty(), 0));
}

/// Whether the pattern lets the bookmark through.
pub fn matches_filter(b: &Bookmark, pattern: &str) -> (res: bool)
    ensures
        res == matches_pattern(*b, pattern@),
{
    filter_matches(pattern, b.url.as_str()) || filter_matches(pattern, b.description.as_str())
}

/// Whether all the patterns let the bookmark through.
pub fn is_shown(b: &Bookmark, patterns: &Vec<String>) -> (res: bool)
    ensures
        res == passes(*b, strings_view(patterns@)),
{
    let ghost ps = strings_view(patterns@);
    let mut k: usize = 0;
    while k < patterns.len()
        invariant
            k <= patterns@.len(),
            ps == strings_view(patterns@),
            forall|j: int| 0 <= j < k ==> matches_pattern(*b, #[trigger] ps[j]),
        decreases patterns@.len() - k,
    {
        if !matches_filter(b, patterns[k].as_str()) {
            assert(!matches_pattern(*b, ps[k as int]));
            return false;
        }
        k = k + 1;
    }
    true
}

/// The positions of the bookmarks that all the patterns let through, in
/// order.
pub open spec fn matching_positions(bs: Seq<Bookmark>, patterns: Seq<Seq<char>>) -> Seq<int>
    decreases bs.len(),
{
    if bs.len() == 0 {
        Seq::empty()
    } else if passes(bs.last(), patterns) {
        matching_positions(bs.drop_last(), patterns).push(bs.len() - 1)
    } else {
        matching_positions(bs.drop_last(), patterns)
    }
}

/// `a` if it is the smaller, else `b`.
pub open spec fn min_int(a: int, b: int) -> int {
    if a <= b {
        a
    } else {
        b
    }
}

/// The page shown: of the bookmarks that all the patterns let through,
/// those from position `from` on, at most `count` of them.
pub open spec fn page_positions(bs: Seq<Bookmark>, patterns: Seq<Seq<char>>, from: nat, count: nat) -> Seq<int> {
    let m = matching_positions(bs, patterns);
    m.subrange(min_int(from as int, m.len() as int), min_int((from + count) as int, m.len() as int))
}

proof fn lemma_matching_positions_bounded(bs: Seq<Bookmark>, patterns: Seq<Seq<char>>)
    ensures
        forall|k: int|
            0 <= k < matching_positions(bs, patterns).len() ==> 0 <= #[trigger] matching_positions(
                bs,
                patterns,
            )[k] < bs.len(),
        matching_positions(bs, patterns).len() <= bs.len(),
    decreases bs.len(),
{
    if bs.len() > 0 {
        lemma_matching_positions_bounded(bs.drop_last(), patterns);
    }
}

proof fn lemma_matching_positions_pass(bs: Seq<Bookmark>, patterns: Seq<Seq<char>>)
    ensures
        forall|k: int|
            0 <= k < matching_positions(bs, patterns).len() ==> passes(
                bs[#[trigger] matching_positions(bs, patterns)[k]],
                patterns,
            ),
        forall|a: int, b: int|
            0 <= a < b < matching_positions(bs, patterns).len() ==> matching_positions(bs, patterns)[a]
                < matching_positions(bs, patterns)[b],
    decreases bs.len(),
{
    if bs.len() > 0 {
        let rest = bs.drop_last();
        lemma_matching_positions_pass(rest, patterns);
        lemma_matching_positions_bounded(rest, patterns);
        let m = matching_positions(bs, patterns);
        let r = matching_positions(rest, patterns);
        assert forall|k: int| 0 <= k < m.len() implies passes(bs[#[trigger] m[k]], patterns) by {
            if k < r.len() {
                assert(m[k] == r[k]);
                assert(bs[r[k]] == rest[r[k]]);
            }
        }
    }
}

/// The page shows at most `count` bookmarks, each one that all the
/// patterns let through, in their order.
pub proof fn lemma_page_within_filter(bs: Seq<Bookmark>, patterns: Seq<Seq<char>>, from: nat, count: nat)
    ensures
        page_positions(bs, patterns, from, count).len() <= count,
        forall|k: int|
            0 <= k < page_positions(bs, patterns, from, count).len() ==> {
                &&& 0 <= #[trigger] page_positions(bs, patterns, from, count)[k] < bs.len()
                &&& passes(bs[page_positions(bs, patterns, from, count)[k]], patterns)
            },
        forall|a: int, b: int|
            0 <= a < b < page_positions(bs, patterns, from, count).len() ==> page_positions(
                bs,
                patterns,
                from,
                count,
            )[a] < page_positions(bs, patterns, from, count)[b],
{
    lemma_matching_positions_pass(bs, patterns);
    lemma_matching_positions_bounded(bs, patterns);
    let m = matching_positions(bs, patterns);
    let lo = min_int(from as int, m.len() as int);
    let p = page_positions(bs, patterns, from, count);
    assert forall|k: int| 0 <= k < p.len() implies {
        &&& 0 <= #[trigger] p[k] < bs.len()
        &&& passes(bs[p[k]], patterns)
    } by {
        assert(p[k] == m[lo + k]);
    }
    assert forall|a: int, b: int| 0 <= a < b < p.len() implies p[a] < p[b] by {
        assert(p[a] == m[lo + a]);
        assert(p[b] == m[lo + b]);
    }
}

/// With no pattern in force every bookmark is listed, in order: removing
/// all filters brings back the whole list.
pub proof fn lemma_no_filter_lists_all(bs: Seq<Bookmark>)
    ensures
        matching_positions(bs, Seq::empty()) == Seq::new(bs.len(), |i: int| i),
    decreases bs.len(),
{
    if bs.len() > 0 {
        lemma_no_filter_lists_all(bs.drop_last());
        assert(matching_positions(bs, Seq::empty()) =~= Seq::new(bs.len(), |i: int| i));
    } else {
        assert(matching_positions(bs, Seq::empty()) =~= Seq::new(bs.len(), |i: int| i));
    }
}

/// A pattern applied a second time lets through the same bookmarks as
/// once: applying a filter twice is applying it once.
pub proof fn lemma_filter_twice_is_once(b: Bookmark, patterns: Seq<Seq<char>>, p: Seq<char>)
    ensures
        passes(b, patterns.push(p).push(p)) == passes(b, patterns.push(p)),
{
    let once = patterns.push(p);
    let twice = once.push(p);
    if passes(b, once) {
        assert forall|k: int| 0 <= k < twice.len() implies matches_pattern(b, #[trigger] twice[k]) by {
            if k < once.len() {
                assert(twice[k] == once[k]);
            } else {
                assert(once[once.len() - 1] == p);
            }
        }
    }
    if passes(b, twice) {
        assert forall|k: int| 0 <= k < once.len() implies matches_pattern(b, #[trigger] once[k]) by {
            assert(twice[k] == once[k]);
        }
    }
}

/// The positions of the bookmarks on the page that is shown: those all the
/// patterns let through, skipping the first `from` of them and taking at
/// most `count`.
pub fn page(bookmarks: &Vec<Bookmark>, patterns: &Vec<String>, from: usize, count: usize) -> (out: Vec<usize>)
    ensures
        out@.len() == page_positions(bookmarks@, strings_view(patterns@), from as nat, count as nat).len(),
        forall|k: int|
            0 <= k < out@.len() ==> #[trigger] out@[k] as int == page_positions(
                bookmarks@,
                strings_view(patterns@),
                from as nat,
                count as nat,
            )[k],
{
    let ghost f = strings_view(patterns@);
    let mut out: Vec<usize> = Vec::new();
    let mut seen: usize = 0;
    let mut i: usize = 0;
    while i < bookmarks.len()
        invariant
            i <= bookmarks@.len(),
            f == strings_view(patterns@),
            seen == matching_positions(bookmarks@.subrange(0, i as int), f).len(),
            out@.len() == page_positions(bookmarks@.subrange(0, i as int), f, from as nat, count as nat).len(),
            forall|k: int|
                0 <= k < out@.len() ==> #[trigger] out@[k] as int == page_positions(
                    bookmarks@.subrange(0, i as int),
                    f,
                    from as nat,
                    count as nat,
                )[k],
        decreases bookmarks@.len() - i,
    {
        let ghost prev = bookmarks@.subrange(0, i as int);
        let ghost next = bookmarks@.subrange(0, i + 1);
        assert(next.drop_last() =~= prev);
        assert(next.last() == bookmarks@[i as int]);
        proof {
            lemma_matching_positions_bounded(prev, f);
        }
        if is_shown(&bookmarks[i], patterns) {
            assert(matching_positions(next, f) == matching_positions(prev, f).push(i as int));
            if seen >= from && seen - from < count {
                out.push(i);
            }
            seen = seen + 1;
        } else {
            assert(matching_positions(next, f) == matching_positions(prev, f));
        }
        i = i + 1;
    }
    assert(bookmarks@.subrange(0, i as int) =~= bookmarks@);
    out
}

/// The header of the bookmark list: the position of the first bookmark
/// shown, the position after the last, and the number of bookmarks.
pub open spec fn page_header(from: usize, shown: usize, total: usize) -> Seq<char> {
    "Bookmarks ("@ + decimal(from as nat) + "~"@ + decimal(
        if shown + from > usize::MAX {
            usize::MAX as nat
        } else {
            (shown + from) as nat
        },
    ) + "/"@ + decimal(total as nat) + "):"@
}

/// Writes the header of the bookmark list, for a page of `shown` bookmarks
/// starting at `from` among `total`.
pub fn page_header_text(from: usize, shown: usize, total: usize) -> (text: String)
    ensures
        text@ == page_header(from, shown, total),
{
    let mut text = String::from_str("Bookmarks (");
    let a = usize_text(from);
    text.append(a.as_str());
    text.append("~");
    let b = usize_text(shown.saturating_add(from));
    text.append(b.as_str());
    text.append("/");
    let c = usize_text(total);
    text.append(c.as_str());
    text.append("):");
    text
}

/// The extended grapheme clusters of a text, as `unicode_segmentation`
/// splits it.
pub uninterp spec fn grapheme_clusters(text: Seq<char>) -> Seq<Seq<char>>;

/// The texts joined in order.
pub open spec fn joined(parts: Seq<Seq<char>>) -> Seq<char>
    decreases parts.len(),
{
    if parts.len() == 0 {
        Seq::empty()
    } else {
        joined(parts.drop_last()) + parts.last()
    }
}

/// Calls `UnicodeSegmentation::graphemes(text, true)` and collects the
/// clusters. They are named by `grapheme_clusters`; the crate's iterator
/// yields non-empty consecutive slices of the text from its start to its
/// end, so the clusters joined give the text back.
#[verifier::external_body]
fn graphemes(text: &str) -> (gs: Vec<String>)
    ensures
        gs@.map_values(|g: String| g@) == grapheme_clusters(text@),
        joined(gs@.map_values(|g: String| g@)) == text@,
        forall|i: int| 0 <= i < gs@.len() ==> (#[trigger] gs@[i])@.len() > 0,
{
    unicode_segmentation::UnicodeSegmentation::graphemes(text, true).map(String::from).collect()
}

/// A text cut to at most `max_width` grapheme clusters: unchanged when the
/// width is zero or the text is no longer; else its first `max_width - 3`
/// clusters followed by `...`, and for widths of one and two only that
/// many dots.
pub open spec fn truncated(text: Seq<char>, max_width: usize, clusters: Seq<Seq<char>>) -> Seq<char> {
    if max_width == 0 || clusters.len() <= max_width {
        text
    } else if max_width < 3 {
        "..."@.take(max_width as int)
    } else {
        joined(clusters.take(max_width - 3)) + "..."@
    }
}

/// Cuts `content`, whose grapheme clusters are `clusters`, to `max_width`
/// of them.
pub fn truncate_clusters(content: &str, max_width: usize, clusters: &Vec<String>) -> (text: String)
    ensures
        text@ == truncated(content@, max_width, clusters@.map_values(|g: String| g@)),
{
    let ghost gv = clusters@.map_values(|g: String| g@);
    if max_width == 0 || clusters.len() <= max_width {
        return String::from_str(content);
    }
    if max_width < 3 {
        proof {
            reveal_strlit("...");
            reveal_strlit(".");
            reveal_strlit("..");
        }
        if max_width == 1 {
            assert("..."@.take(1) =~= "."@);
            return String::from_str(".");
        } else {
            assert("..."@.take(2) =~= ".."@);
            return String::from_str("..");
        }
    }
    let keep = max_width - 3;
    let mut text = String::new();
    let mut i: usize = 0;
    while i < keep
        invariant
            i <= keep,
            keep <= clusters@.len(),
            gv == clusters@.map_values(|g: String| g@),
            text@ == joined(gv.take(i as int)),
        decreases keep - i,
    {
        assert(gv.take(i + 1).drop_last() =~= gv.take(i as int));
        text.append(clusters[i].as_str());
        i = i + 1;
    }
    text.append("...");
    text
}

/// Cuts `content` to `max_width` grapheme clusters, as the bookmark list
/// shows descriptions and urls.
pub fn truncated_text(content: &str, max_width: usize) -> (text: String)
    ensures
        text@ == truncated(content@, max_width, grapheme_clusters(content@)),
{
    if max_width == 0 {
        return String::from_str(content);
    }
    let gs = graphemes(content);
    truncate_clusters(content, max_width, &gs)
}

/// A row of the bookmark list: an edit button in edit mode, the cut
/// description and url, and opening the bookmark when pressed.
#[derive(Clone, Debug)]
pub struct BookmarkRow {
    /// The position of the bookmark.
    pub index: usize,
    /// In edit mode, the message of the edit button that starts the row.
    pub edit: Option<Msg>,
    /// The description, cut to the description width.
    pub description: String,
    /// The url, cut to the url width.
    pub url: String,
    /// The message sent when the row is pressed.
    pub open: Msg,
}

/// Is `r` the row of the bookmark at `i`, with the given widths and mode?
pub open spec fn is_bookmark_row(
    r: BookmarkRow,
    bs: Seq<Bookmark>,
    i: int,
    desc_width: usize,
    url_width: usize,
    edit_mode_active: bool,
) -> bool {
    &&& r.index == i
    &&& r.edit == (if edit_mode_active {
        Some(Msg::EditBookmark(i as usize))
    } else {
        None
    })
    &&& r.description@ == truncated(
        bs[i].description@,
        desc_width,
        grapheme_clusters(bs[i].description@),
    )
    &&& r.url@ == truncated(bs[i].url@, url_width, grapheme_clusters(bs[i].url@))
    &&& r.open == Msg::GotoBookmarkLocation(i as usize)
}

/// The row of the bookmark at `index`.
pub fn bookmark_row(
    bookmarks: &Vec<Bookmark>,
    index: usize,
    desc_width: usize,
    url_width: usize,
    edit_mode_active: bool,
) -> (row: BookmarkRow)
    requires
        index < bookmarks@.len(),
    ensures
        is_bookmark_row(row, bookmarks@, index as int, desc_width, url_width, edit_mode_active),
{
    let b = &bookmarks[index];
    let edit = if edit_mode_active {
        Some(Msg::EditBookmark(index))
    } else {
        None
    };
    BookmarkRow {
        index,
        edit,
        description: truncated_text(b.description.as_str(), desc_width),
        url: truncated_text(b.url.as_str(), url_width),
        open: Msg::GotoBookmarkLocation(index),
    }
}

/// The bookmark list as shown: its header and its rows.
#[derive(Clone, Debug)]
pub struct BookmarkColumn {
    /// The header with the range shown and the number of bookmarks.
    pub header: String,
    /// The rows of the page shown.
    pub rows: Vec<BookmarkRow>,
}

/// The value of a setting, zero when it has none.
pub open spec fn value_or_zero(v: Option<usize>) -> usize {
    match v {
        Some(x) => x,
        None => 0,
    }
}

/// The patterns the bookmark list is filtered by: the filters applied
/// since the last reset, then the filter being typed, when it is not empty.
pub open spec fn shown_patterns(app: App) -> Seq<Seq<char>> {
    let applied = strings_view(app.applied_filters@);
    if app.column.filter_str@.len() == 0 {
        applied
    } else {
        applied.push(app.column.filter_str@)
    }
}

/// The patterns the bookmark list is filtered by.
pub fn column_patterns(app: &App) -> (ps: Vec<String>)
    ensures
        strings_view(ps@) == shown_patterns(*app),
{
    let mut ps = crate::records::copy_strings(&app.applied_filters);
    if !app.column.filter_str.as_str().is_empty() {
        let ghost before = ps@;
        ps.push(app.column.filter_str.clone());
        assert(strings_view(ps@) =~= strings_view(before).push(app.column.filter_str@));
    }
    ps
}

/// The bookmark list of the browser: the page its settings select from the
/// bookmarks its filters let through, each row cut to the widths and with
/// an edit button exactly in edit mode, under a header giving the first
/// position shown, the position after the last and the number of bookmarks.
pub fn bookmark_column(app: &App) -> (col: BookmarkColumn)
    ensures
        ({
            let from = value_or_zero(app.column.shown_from@.1);
            let count = value_or_zero(app.column.shown_bookmarks@.1);
            let page = page_positions(app.bookmarks@, shown_patterns(*app), from as nat, count as nat);
            &&& col.rows@.len() == page.len()
            &&& forall|k: int|
                0 <= k < page.len() ==> is_bookmark_row(
                    #[trigger] col.rows@[k],
                    app.bookmarks@,
                    page[k],
                    value_or_zero(app.column.desc_width@.1),
                    value_or_zero(app.column.url_width@.1),
                    app.edit_mode_active,
                )
            &&& col.header@ == page_header(from, col.rows@.len() as usize, app.bookmarks@.len() as usize)
        }),
{
    let (from, _) = app.column.shown_from.as_tuple();
    let (count, _) = app.column.shown_bookmarks.as_tuple();
    let (desc_width, _) = app.column.desc_width.as_tuple();
    let (url_width, _) = app.column.url_width.as_tuple();
    let patterns = column_patterns(app);
    let ghost ps = strings_view(patterns@);
    let positions = page(&app.bookmarks, &patterns, from, count);
    proof {
        lemma_page_within_filter(app.bookmarks@, ps, from as nat, count as nat);
    }
    let mut rows: Vec<BookmarkRow> = Vec::new();
    let mut k: usize = 0;
    while k < positions.len()
        invariant
            k <= positions@.len(),
            positions@.len() == page_positions(app.bookmarks@, ps, from as nat, count as nat).len(),
            forall|j: int|
                0 <= j < positions@.len() ==> #[trigger] positions@[j] as int == page_positions(
                    app.bookmarks@,
                    ps,
                    from as nat,
                    count as nat,
                )[j],
            forall|j: int|
                0 <= j < positions@.len() ==> 0 <= #[trigger] page_positions(
                    app.bookmarks@,
                    ps,
                    from as nat,
                    count as nat,
                )[j] < app.bookmarks@.len(),
            rows@.len() == k,
            forall|j: int|
                0 <= j < k ==> is_bookmark_row(
                    #[trigger] rows@[j],
                    app.bookmarks@,
                    positions@[j] as int,
                    desc_width,
                    url_width,
                    app.edit_mode_active,
                ),
        decreases positions@.len() - k,
    {
        assert(positions@[k as int] as int == page_positions(app.bookmarks@, ps, from as nat, count as nat)[k as int]);
        let row = bookmark_row(&app.bookmarks, positions[k], desc_width, url_width, app.edit_mode_active);
        rows.push(row);
        k = k + 1;
    }
    let total = app.bookmarks.len();
    let header = page_header_text(from, rows.len(), total);
    BookmarkColumn { header, rows }
}

} // verus!
