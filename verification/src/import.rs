//! Importing bookmarks from foreign formats: OneTab exports and Firefox
//! JSON bookmark backups.

use vstd::prelude::*;
use vstd::string::*;
use crate::records::Bookmark;

verus! {

// ---------------------------------------------------------------------
// OneTab
// ---------------------------------------------------------------------

/// The separator between url and description in a OneTab line.
pub open spec fn onetab_separator() -> Seq<char> {
    " | "@
}

/// Does the separator start at position `k` of `s`?
pub open spec fn separator_at(s: Seq<char>, k: int) -> bool {
    0 <= k && k + 3 <= s.len() && s.subrange(k, k + 3) == onetab_separator()
}

/// The first position at or after `k` where the separator starts.
pub open spec fn find_separator_from(s: Seq<char>, k: int) -> Option<int>
    decreases s.len() - k,
{
    if k < 0 || k + 3 > s.len() {
        None
    } else if separator_at(s, k) {
        Some(k)
    } else {
        find_separator_from(s, k + 1)
    }
}

/// The first position where the separator starts.
pub open spec fn find_separator(s: Seq<char>) -> Option<int> {
    find_separator_from(s, 0)
}

/// The url and description of a OneTab line: what stands before and after
/// the first separator. A line without a separator gives nothing.
pub open spec fn onetab_fields(line: Seq<char>) -> Option<(Seq<char>, Seq<char>)> {
    match find_separator(line) {
        Some(k) => Some((line.subrange(0, k), line.subrange(k + 3, line.len() as int))),
        None => None,
    }
}

fn chars_of(s: &str) -> (v: Vec<char>)
    ensures
        v@ == s@,
{
    let n = s.unicode_len();
    let mut v: Vec<char> = Vec::new();
    let mut i: usize = 0;
    while i < n
        invariant
            n == s@.len(),
            i <= n,
            v@ == s@.subrange(0, i as int),
        decreases n - i,
    {
        v.push(s.get_char(i));
        i = i + 1;
        assert(v@ =~= s@.subrange(0, i as int));
    }
    v
}

/// Splits a line of a OneTab export into url and description at the first
/// `" | "`; a line without one gives `None`.
pub fn parse_onetab_line(line: &str) -> (res: Option<(String, String)>)
    ensures
        match onetab_fields(line@) {
            Some((url, desc)) => res matches Some((u, d)) && u@ == url && d@ == desc,
            None => res is None,
        },
{
    let chars = chars_of(line);
    let n = chars.len();
    let mut k: usize = 0;
    proof {
        reveal_strlit(" | ");
    }
    while n >= 3 && k <= n - 3
        invariant
            k <= n,
            onetab_separator() == seq![' ', '|', ' '],
            chars@ == line@,
            n == chars@.len(),
            find_separator(line@) == find_separator_from(line@, k as int),
        decreases n - k,
    {
        if chars[k] == ' ' && chars[k + 1] == '|' && chars[k + 2] == ' ' {
            assert(line@.subrange(k as int, k + 3) =~= onetab_separator());
            let url = String::from_str(line.substring_char(0, k));
            let desc = String::from_str(line.substring_char(k + 3, n));
            return Some((url, desc));
        }
        assert(!separator_at(line@, k as int)) by {
            if separator_at(line@, k as int) {
                assert(line@.subrange(k as int, k + 3)[0] == ' ');
                assert(line@.subrange(k as int, k + 3)[1] == '|');
                assert(line@.subrange(k as int, k + 3)[2] == ' ');
            }
        }
        k = k + 1;
    }
    assert(find_separator_from(line@, k as int) is None);
    None
}

/// Does the separator occur somewhere in the line?
pub open spec fn has_separator(line: Seq<char>) -> bool {
    exists|k: int| separator_at(line, k)
}

/// The lines that hold the separator, in order.
pub open spec fn separator_lines(lines: Seq<Seq<char>>) -> Seq<Seq<char>>
    decreases lines.len(),
{
    if lines.len() == 0 {
        Seq::empty()
    } else if has_separator(lines.last()) {
        separator_lines(lines.drop_last()).push(lines.last())
    } else {
        separator_lines(lines.drop_last())
    }
}

proof fn lemma_find_separator_from(s: Seq<char>, k: int)
    requires
        0 <= k,
    ensures
        match find_separator_from(s, k) {
            Some(j) => k <= j && separator_at(s, j) && forall|m: int|
                k <= m < j ==> !separator_at(s, m),
            None => forall|m: int| k <= m ==> !separator_at(s, m),
        },
    decreases s.len() - k,
{
    if k + 3 <= s.len() && !separator_at(s, k) {
        lemma_find_separator_from(s, k + 1);
    }
}

/// A line gives a bookmark exactly when it holds the separator; the url is
/// what stands before the first separator, the description all that
/// follows it, and the line is the url, the separator and the description.
pub proof fn lemma_onetab_line(line: Seq<char>)
    ensures
        onetab_fields(line) is Some <==> has_separator(line),
        onetab_fields(line) matches Some((url, desc)) ==> {
            &&& line == url + onetab_separator() + desc
            &&& separator_at(line, url.len() as int)
            &&& forall|k: int| 0 <= k < url.len() ==> !separator_at(line, k)
        },
{
    reveal_strlit(" | ");
    lemma_find_separator_from(line, 0);
    match find_separator(line) {
        Some(j) => {
            assert(has_separator(line));
            let url = line.subrange(0, j);
            let desc = line.subrange(j + 3, line.len() as int);
            assert(line.subrange(j, j + 3) == onetab_separator());
            assert(line =~= url + onetab_separator() + desc);
        },
        None => {
            if has_separator(line) {
                let k = choose|k: int| separator_at(line, k);
                assert(!separator_at(line, k));
            }
        },
    }
}

/// A OneTab export gives one bookmark for every line that holds the
/// separator, in order: the url is the text before the line's first
/// separator and the description all the text after it, whatever that
/// text holds.
pub proof fn lemma_onetab_import(lines: Seq<Seq<char>>)
    ensures
        onetab_bookmarks(lines).len() == separator_lines(lines).len(),
        forall|j: int|
            0 <= j < onetab_bookmarks(lines).len() ==> {
                &&& separator_lines(lines)[j] == (#[trigger] onetab_bookmarks(lines)[j]).0
                    + onetab_separator() + onetab_bookmarks(lines)[j].1
                &&& forall|k: int|
                    0 <= k < onetab_bookmarks(lines)[j].0.len() ==> !separator_at(
                        separator_lines(lines)[j],
                        k,
                    )
            },
    decreases lines.len(),
{
    if lines.len() > 0 {
        let rest = lines.drop_last();
        lemma_onetab_import(rest);
        lemma_onetab_line(lines.last());
        let b = onetab_bookmarks(lines);
        let sl = separator_lines(lines);
        let rb = onetab_bookmarks(rest);
        let rsl = separator_lines(rest);
        assert forall|j: int| 0 <= j < b.len() implies {
            &&& sl[j] == (#[trigger] b[j]).0 + onetab_separator() + b[j].1
            &&& forall|k: int| 0 <= k < b[j].0.len() ==> !separator_at(sl[j], k)
        } by {
            if j < rb.len() {
                assert(b[j] == rb[j]);
                assert(sl[j] == rsl[j]);
            }
        }
    }
}

/// Writing a bookmark as a OneTab line, its url, `" | "` and its
/// description, and reading the line back gives the url and description
/// again, provided no separator starts within the url (or straddles its
/// end).
pub proof fn lemma_onetab_round_trip(url: Seq<char>, desc: Seq<char>)
    requires
        forall|k: int| 0 <= k < url.len() ==> !separator_at(url + onetab_separator(), k),
    ensures
        onetab_fields(url + onetab_separator() + desc) == Some((url, desc)),
{
    reveal_strlit(" | ");
    let line = url + onetab_separator() + desc;
    let head = url + onetab_separator();
    assert forall|k: int| 0 <= k < url.len() implies !separator_at(line, k) by {
        assert(!separator_at(head, k));
        if separator_at(line, k) {
            assert(line.subrange(k, k + 3) =~= head.subrange(k, k + 3));
            assert(separator_at(head, k));
        }
    }
    assert(line.subrange(url.len() as int, url.len() + 3int) =~= onetab_separator());
    lemma_find_from(line, 0, url.len() as int);
    assert(line.subrange(0, url.len() as int) =~= url);
    assert(line.subrange(url.len() + 3int, line.len() as int) =~= desc);
}

proof fn lemma_find_from(s: Seq<char>, k: int, target: int)
    requires
        0 <= k <= target,
        separator_at(s, target),
        forall|j: int| k <= j < target ==> !separator_at(s, j),
    ensures
        find_separator_from(s, k) == Some(target),
    decreases target - k,
{
    if k < target {
        lemma_find_from(s, k + 1, target);
    }
}

/// The bookmarks a OneTab export gives: one for each line with a
/// separator, in order, with no tags.
pub open spec fn onetab_bookmarks(lines: Seq<Seq<char>>) -> Seq<(Seq<char>, Seq<char>)>
    decreases lines.len(),
{
    if lines.len() == 0 {
        Seq::empty()
    } else {
        let before = onetab_bookmarks(lines.drop_last());
        match onetab_fields(lines.last()) {
            Some(f) => before.push(f),
            None => before,
        }
    }
}

/// The url and description of each bookmark, with no tags on any.
pub open spec fn untagged_view(bookmarks: Seq<Bookmark>) -> Seq<(Seq<char>, Seq<char>)> {
    bookmarks.map_values(|b: Bookmark| (b.url@, b.description@))
}

/// Are all bookmarks without tags?
pub open spec fn all_untagged(bookmarks: Seq<Bookmark>) -> bool {
    forall|i: int| 0 <= i < bookmarks.len() ==> bookmarks[i].tags@.len() == 0
}

/// Reads the lines of a OneTab export into bookmarks.
pub fn import_onetab(lines: &Vec<String>) -> (bookmarks: Vec<Bookmark>)
    ensures
        untagged_view(bookmarks@) == onetab_bookmarks(lines@.map_values(|l: String| l@)),
        all_untagged(bookmarks@),
{
    let ghost views = lines@.map_values(|l: String| l@);
    let mut out: Vec<Bookmark> = Vec::new();
    let mut i: usize = 0;
    while i < lines.len()
        invariant
            i <= lines.len(),
            views == lines@.map_values(|l: String| l@),
            untagged_view(out@) == onetab_bookmarks(views.subrange(0, i as int)),
            all_untagged(out@),
        decreases lines.len() - i,
    {
        let ghost prefix = views.subrange(0, i + 1);
        assert(prefix.drop_last() =~= views.subrange(0, i as int));
        match parse_onetab_line(lines[i].as_str()) {
            Some((url, desc)) => {
                let ghost before = out@;
                out.push(Bookmark { url, description: desc, tags: Vec::new() });
                assert(untagged_view(out@) =~= untagged_view(before).push((url@, desc@)));
            },
            None => {},
        }
        i = i + 1;
    }
    assert(views.subrange(0, i as int) =~= views);
    out
}

// ---------------------------------------------------------------------
// JSON bookmark backup
// ---------------------------------------------------------------------

/// A JSON value, as far as the import reads it.
#[derive(Debug)]
pub enum JsonNode {
    /// An object: its members in order.
    Object(Vec<(String, JsonNode)>),
    /// An array.
    Array(Vec<JsonNode>),
    /// A string.
    Str(String),
    /// A number, boolean or null.
    Other,
}

/// The index of the first member named `key`, among the first `n`.
pub open spec fn member_index(entries: Seq<(String, JsonNode)>, key: Seq<char>, n: int) -> Option<
    int,
>
    decreases n,
{
    if n <= 0 {
        None
    } else {
        match member_index(entries, key, n - 1) {
            Some(k) => Some(k),
            None => if entries[n - 1].0@ == key {
                Some(n - 1)
            } else {
                None
            },
        }
    }
}

/// The string value of member `key`, if it has one.
pub open spec fn member_str(entries: Seq<(String, JsonNode)>, key: Seq<char>) -> Option<Seq<char>> {
    match member_index(entries, key, entries.len() as int) {
        Some(k) => match entries[k].1 {
            JsonNode::Str(s) => Some(s@),
            _ => None,
        },
        None => None,
    }
}

/// The bookmark of a node without children: its `uri` and its `title`
/// (empty when absent); a node without an `uri` string gives none.
pub open spec fn json_leaf(entries: Seq<(String, JsonNode)>) -> Seq<(Seq<char>, Seq<char>)> {
    match member_str(entries, "uri"@) {
        Some(url) => seq![
            (url, match member_str(entries, "title"@) {
                Some(t) => t,
                None => Seq::empty(),
            }),
        ],
        None => Seq::empty(),
    }
}

/// The bookmarks below a node: an object with `children` gives those of its
/// object children, the last child first; an object without gives its own
/// bookmark; anything else gives none.
pub open spec fn json_bookmarks(node: JsonNode) -> Seq<(Seq<char>, Seq<char>)>
    decreases node, 0int,
{
    match node {
        JsonNode::Object(entries) => match member_index(entries@, "children"@, entries@.len() as int) {
            Some(k) => if 0 <= k < entries@.len() {
                match entries@[k].1 {
                    JsonNode::Array(items) => json_children(items@, items@.len() as int),
                    _ => Seq::empty(),
                }
            } else {
                Seq::empty()
            },
            None => json_leaf(entries@),
        },
        _ => Seq::empty(),
    }
}

/// The bookmarks below the first `n` children, the last first.
pub open spec fn json_children(items: Seq<JsonNode>, n: int) -> Seq<(Seq<char>, Seq<char>)>
    decreases items, n,
{
    if n <= 0 || n > items.len() {
        Seq::empty()
    } else {
        json_bookmarks(items[n - 1]) + json_children(items, n - 1)
    }
}

fn find_member(entries: &Vec<(String, JsonNode)>, key: &str) -> (res: Option<usize>)
    ensures
        match res {
            Some(k) => member_index(entries@, key@, entries@.len() as int) == Some(k as int) && k
                < entries@.len(),
            None => member_index(entries@, key@, entries@.len() as int) is None,
        },
{
    let wanted = String::from_str(key);
    let mut i: usize = 0;
    while i < entries.len()
        invariant
            i <= entries.len(),
            wanted@ == key@,
            member_index(entries@, key@, i as int) is None,
        decreases entries.len() - i,
    {
        if entries[i].0 == wanted {
            proof {
                lemma_member_index_stable(entries@, key@, i + 1, entries@.len() as int);
            }
            return Some(i);
        }
        i = i + 1;
    }
    None
}

proof fn lemma_member_index_stable(
    entries: Seq<(String, JsonNode)>,
    key: Seq<char>,
    n: int,
    m: int,
)
    requires
        0 < n <= m,
        member_index(entries, key, n) is Some,
    ensures
        member_index(entries, key, m) == member_index(entries, key, n),
    decreases m - n,
{
    if m > n {
        lemma_member_index_stable(entries, key, n, m - 1);
    }
}

fn member_string(entries: &Vec<(String, JsonNode)>, key: &str) -> (res: Option<String>)
    ensures
        match member_str(entries@, key@) {
            Some(s) => res matches Some(r) && r@ == s,
            None => res is None,
        },
{
    match find_member(entries, key) {
        Some(k) => match &entries[k].1 {
            JsonNode::Str(s) => Some(s.clone()),
            _ => None,
        },
        None => None,
    }
}

fn walk_json(node: &JsonNode, out: &mut Vec<Bookmark>)
    requires
        all_untagged(old(out)@),
    ensures
        untagged_view(final(out)@) == untagged_view(old(out)@) + json_bookmarks(*node),
        all_untagged(final(out)@),
    decreases node,
{
    let ghost start = untagged_view(out@);
    match node {
        JsonNode::Object(entries) => {
            match find_member(entries, "children") {
                Some(k) => {
                    match &entries[k].1 {
                        JsonNode::Array(items) => {
                            let mut n = items.len();
                            while n > 0
                                invariant
                                    n <= items@.len(),
                                    all_untagged(out@),
                                    *node == JsonNode::Object(*entries),
                                    k < entries@.len(),
                                    entries@[k as int].1 == JsonNode::Array(*items),
                                    untagged_view(out@) + json_children(items@, n as int) == start
                                        + json_children(items@, items@.len() as int),
                                decreases n,
                            {
                                let ghost before = untagged_view(out@);
                                assert(decreases_to!(*node => node->Object_0));
                                assert(decreases_to!(*entries => entries@));
                                assert(decreases_to!(entries@ => entries@[k as int]));
                                assert(decreases_to!(entries@[k as int] => entries@[k as int].1));
                                assert(decreases_to!(entries@[k as int].1 => entries@[k as int].1->Array_0));
                                assert(decreases_to!(*items => items@));
                                assert(decreases_to!(items@ => items@[n - 1]));
                                assert(decreases_to!(*node => items@[n - 1]));
                                walk_json(&items[n - 1], out);
                                assert(untagged_view(out@) + json_children(items@, n - 1)
                                    =~= before + json_children(items@, n as int));
                                n = n - 1;
                            }
                            assert(untagged_view(out@) =~= untagged_view(out@) + json_children(
                                items@,
                                0,
                            ));
                        },
                        _ => {
                            assert(untagged_view(out@) =~= start + json_bookmarks(*node));
                        },
                    }
                },
                None => {
                    let url = member_string(entries, "uri");
                    match url {
                        Some(url) => {
                            let description = match member_string(entries, "title") {
                                Some(t) => t,
                                None => String::new(),
                            };
                            let ghost before = out@;
                            out.push(Bookmark { url, description, tags: Vec::new() });
                            assert(untagged_view(out@) =~= untagged_view(before) + json_leaf(
                                entries@,
                            ));
                        },
                        None => {
                            assert(untagged_view(out@) =~= start + json_bookmarks(*node));
                        },
                    }
                },
            }
        },
        _ => {
            assert(untagged_view(out@) =~= start + json_bookmarks(*node));
        },
    }
}

/// Why a JSON bookmark backup cannot be imported.
#[derive(Debug, Clone)]
pub enum JsonImportError {
    /// The bytes are no JSON document; the parser's description of why.
    Syntax(String),
    /// The document is not an object.
    RootNotObject,
}

/// The message a failed JSON import is reported with.
pub open spec fn json_error_text(err: JsonImportError) -> Seq<char> {
    match err {
        JsonImportError::Syntax(m) => "failure parsing json: "@ + m@,
        JsonImportError::RootNotObject => "root of json file was not an object"@,
    }
}

impl JsonImportError {
    /// The message the failed import is reported with.
    pub fn message(&self) -> (text: String)
        ensures
            text@ == json_error_text(*self),
    {
        match self {
            JsonImportError::Syntax(m) => {
                let mut text = String::from_str("failure parsing json: ");
                text.append(m.as_str());
                text
            },
            JsonImportError::RootNotObject => String::from_str("root of json file was not an object"),
        }
    }
}

#[verifier::external_type_specification]
#[verifier::external_body]
pub struct ExJsonValue(serde_json::Value);

/// What `serde_json` reads from the bytes of a JSON document, as the import
/// sees it; none when the bytes are no JSON document.
pub uninterp spec fn json_document(bytes: Seq<u8>) -> Option<JsonNode>;

/// Converts a value read by `serde_json` into the import's view of it: the
/// members of an object in the map's order, the items of an array, a
/// string, and anything else as `Other`. It moves values only and is called
/// by `parse_json_document` alone.
#[verifier::external_body]
fn json_node_of(value: &serde_json::Value) -> JsonNode {
    match value {
        serde_json::Value::Object(m) => JsonNode::Object(
            m.iter().map(|(k, v)| (k.clone(), json_node_of(v))).collect(),
        ),
        serde_json::Value::Array(a) => JsonNode::Array(a.iter().map(json_node_of).collect()),
        serde_json::Value::String(s) => JsonNode::Str(s.clone()),
        _ => JsonNode::Other,
    }
}

/// Calls `serde_json::from_slice::<serde_json::Value>` and converts the
/// value; its result is named by `json_document`. The parser's error is
/// given as its display text, of which nothing is stated.
#[verifier::external_body]
fn parse_json_document(bytes: &[u8]) -> (res: Result<JsonNode, String>)
    ensures
        match res {
            Ok(n) => json_document(bytes@) == Some(n),
            Err(_) => json_document(bytes@) is None,
        },
{
    match serde_json::from_slice::<serde_json::Value>(bytes) {
        Ok(v) => Ok(json_node_of(&v)),
        Err(e) => Err(e.to_string()),
    }
}

/// Reads the bookmarks of the bytes of a Firefox JSON bookmark backup:
/// refused when the bytes are no JSON document or its root is no object,
/// else the bookmarks `import_json` reads from the document.
pub fn import_json_bytes(bytes: &[u8]) -> (res: Result<Vec<Bookmark>, JsonImportError>)
    ensures
        match json_document(bytes@) {
            None => res matches Err(e) && e is Syntax,
            Some(root) => {
                &&& res is Err <==> !(root is Object)
                &&& res matches Err(e) ==> e is RootNotObject
                &&& res matches Ok(bookmarks) ==> {
                    &&& untagged_view(bookmarks@) == json_bookmarks(root)
                    &&& all_untagged(bookmarks@)
                }
            },
        },
{
    match parse_json_document(bytes) {
        Err(m) => Err(JsonImportError::Syntax(m)),
        Ok(root) => import_json(&root),
    }
}

/// Reads the bookmarks of a Firefox JSON bookmark backup: every object
/// without `children` that has an `uri` string gives a bookmark with that
/// url and its `title` as description, children read last first.
pub fn import_json(root: &JsonNode) -> (res: Result<Vec<Bookmark>, JsonImportError>)
    ensures
        res is Err <==> !(*root is Object),
        res matches Err(e) ==> e is RootNotObject,
        res matches Ok(bookmarks) ==> {
            &&& untagged_view(bookmarks@) == json_bookmarks(*root)
            &&& all_untagged(bookmarks@)
        },
{
    match root {
        JsonNode::Object(_) => {
            let mut out: Vec<Bookmark> = Vec::new();
            walk_json(root, &mut out);
            assert(untagged_view(out@) =~= json_bookmarks(*root));
            Ok(out)
        },
        _ => Err(JsonImportError::RootNotObject),
    }
}

/// The import command: reads bookmarks from the formats of other programs.
#[derive(Debug, Clone, Copy)]
pub struct Import;

impl Import {
    /// The name under which the command is called.
    pub fn name(&self) -> (s: &'static str)
        ensures
            s@ == "import"@,
    {
        "import"
    }

    /// The subcommands with their help texts, in the order they are listed.
    pub fn subcommands(&self) -> (v: Vec<(&'static str, &'static str)>)
        ensures
            v@.len() == 3,
            v@[0].0@ == "onetab"@ && v@[0].1@ == "import a onetab export"@,
            v@[1].0@ == "html"@ && v@[1].1@ == "import a firefox html export"@,
            v@[2].0@ == "json"@ && v@[2].1@ == "parse firefox bookmark backup"@,
    {
        vec![
            ("onetab", "import a onetab export"),
            ("html", "import a firefox html export"),
            ("json", "parse firefox bookmark backup"),
        ]
    }
}

} // verus!
