//! Classification of the text the user selected: the first entity found in it
//! (URL, e-mail, date, file path, price), its content type, and the quick
//! actions offered for that content type.

use crate::text::{
    chars_of, has_substring, is_blank, is_blank_str, owned,
};
use vstd::prelude::*;

verus! {

/// Names the leftmost-first match that the `regex` crate finds for `pattern`
/// in `haystack` (`None` also when the pattern does not compile).
pub uninterp spec fn regex_first_match(pattern: Seq<char>, haystack: Seq<char>) -> Option<
    Seq<char>,
>;

/// Compiles `pattern` with `regex::Regex::new` and runs `Regex::find` on
/// `haystack`, returning the matched text (`Match::as_str`). The contract
/// claims that the result is the named first match, and that a match is a
/// substring of the haystack, as the crate documents. A pattern that does
/// not compile gives `None`.
#[verifier::external_body]
fn regex_find(pattern: &str, haystack: &str) -> (r: Option<String>)
    ensures
        match r {
            Some(m) => regex_first_match(pattern@, haystack@) == Some(m@) && has_substring(
                haystack@,
                m@,
            ),
            None => regex_first_match(pattern@, haystack@) is None,
        },
{
    match regex::Regex::new(pattern) {
        Ok(re) => match re.find(haystack) {
            Some(m) => Some(m.as_str().to_string()),
            None => None,
        },
        Err(_) => None,
    }
}

/// One action offered for a detected entity: a label, the tool it runs, and
/// the tool's arguments as key/value pairs.
pub struct EntityAction {
    pub label: String,
    pub tool: String,
    pub args: Vec<(String, String)>,
}

/// An entity found in the selected text.
pub struct DetectedEntity {
    pub entity_type: String,
    pub value: String,
    pub actions: Vec<EntityAction>,
}

/// What kind of content the selection holds.
#[derive(Clone, Copy, Debug, PartialEq, Eq, Structural)]
pub enum ContentType {
    Text,
    Code,
    Image,
    Chart,
    Table,
    Ui,
    Url,
    Mixed,
    Unknown,
}

/// A prompt the overlay offers for the content type.
pub struct QuickAction {
    pub label: String,
    pub prompt: String,
}

/// The kinds of entity, in the order in which they are looked for.
#[derive(Clone, Copy, Debug, PartialEq, Eq, Structural)]
pub enum EntityKind {
    Url,
    Email,
    Date,
    FilePath,
    Price,
}

/// The lowercase name of a content type.
pub open spec fn content_type_name(ct: ContentType) -> Seq<char> {
    match ct {
        ContentType::Text => "text"@,
        ContentType::Code => "code"@,
        ContentType::Image => "image"@,
        ContentType::Chart => "chart"@,
        ContentType::Table => "table"@,
        ContentType::Ui => "ui"@,
        ContentType::Url => "url"@,
        ContentType::Mixed => "mixed"@,
        ContentType::Unknown => "unknown"@,
    }
}

impl ContentType {
    /// The lowercase name of the content type.
    pub fn as_str(&self) -> (s: &'static str)
        ensures
            s@ == content_type_name(*self),
    {
        match self {
            ContentType::Text => "text",
            ContentType::Code => "code",
            ContentType::Image => "image",
            ContentType::Chart => "chart",
            ContentType::Table => "table",
            ContentType::Ui => "ui",
            ContentType::Url => "url",
            ContentType::Mixed => "mixed",
            ContentType::Unknown => "unknown",
        }
    }
}

/// The pattern that finds an entity of each kind.
pub open spec fn kind_pattern(k: EntityKind) -> Seq<char> {
    match k {
        EntityKind::Url => r"(?i)https?://[^\s<>\x22\{\}\|\\\^\[\]]+"@,
        EntityKind::Email => r"[a-zA-Z0-9._%+\-]+@[a-zA-Z0-9.\-]+\.[a-zA-Z]{2,}"@,
        EntityKind::Date => r"\b(\d{4}-\d{2}-\d{2}|\d{1,2}/\d{1,2}/\d{2,4}|(?:Jan|Feb|Mar|Apr|May|Jun|Jul|Aug|Sep|Oct|Nov|Dec)[a-z]* \d{1,2},? \d{4})\b"@,
        EntityKind::FilePath => r"(?:[A-Za-z]:\\[^\s<>\x22\{\}\|\\\^\[\]]+|/(?:[a-zA-Z0-9._\-]+/)+[a-zA-Z0-9._\-]*)"@,
        EntityKind::Price => r"[$\x{00A3}\x{20AC}\x{00A5}]\s*\d[\d,.]*|\d[\d,.]*\s*(?:USD|EUR|GBP|JPY)"@,
    }
}

/// The pattern that marks text as code.
pub open spec fn code_pattern() -> Seq<char> {
    r"(?:fn |def |class |import |#include|var |let |const |function |\bif\s*\()"@
}

fn pattern_of(k: EntityKind) -> (p: &'static str)
    ensures
        p@ == kind_pattern(k),
{
    match k {
        EntityKind::Url => r"(?i)https?://[^\s<>\x22\{\}\|\\\^\[\]]+",
        EntityKind::Email => r"[a-zA-Z0-9._%+\-]+@[a-zA-Z0-9.\-]+\.[a-zA-Z]{2,}",
        EntityKind::Date => r"\b(\d{4}-\d{2}-\d{2}|\d{1,2}/\d{1,2}/\d{2,4}|(?:Jan|Feb|Mar|Apr|May|Jun|Jul|Aug|Sep|Oct|Nov|Dec)[a-z]* \d{1,2},? \d{4})\b",
        EntityKind::FilePath => r"(?:[A-Za-z]:\\[^\s<>\x22\{\}\|\\\^\[\]]+|/(?:[a-zA-Z0-9._\-]+/)+[a-zA-Z0-9._\-]*)",
        EntityKind::Price => r"[$\x{00A3}\x{20AC}\x{00A5}]\s*\d[\d,.]*|\d[\d,.]*\s*(?:USD|EUR|GBP|JPY)",
    }
}

/// The kinds in the order they are tried.
pub open spec fn kind_order() -> Seq<EntityKind> {
    seq![EntityKind::Url, EntityKind::Email, EntityKind::Date, EntityKind::FilePath, EntityKind::Price]
}

fn kind_at(i: usize) -> (k: EntityKind)
    requires
        i < 5,
    ensures
        k == kind_order()[i as int],
{
    if i == 0 {
        EntityKind::Url
    } else if i == 1 {
        EntityKind::Email
    } else if i == 2 {
        EntityKind::Date
    } else if i == 3 {
        EntityKind::FilePath
    } else {
        EntityKind::Price
    }
}

/// The `entity_type` reported for each kind.
pub open spec fn kind_type_name(k: EntityKind) -> Seq<char> {
    match k {
        EntityKind::Url => "url"@,
        EntityKind::Email => "email"@,
        EntityKind::Date => "date"@,
        EntityKind::FilePath => "file_path"@,
        EntityKind::Price => "price"@,
    }
}

/// An action by its label, tool and arguments.
pub type ActionView = (Seq<char>, Seq<char>, Seq<(Seq<char>, Seq<char>)>);

pub open spec fn action_view(a: EntityAction) -> ActionView {
    (a.label@, a.tool@, a.args@.map_values(|p: (String, String)| (p.0@, p.1@)))
}

/// The actions offered for an entity of kind `k` with value `v`.
pub open spec fn expected_actions(k: EntityKind, v: Seq<char>) -> Seq<ActionView> {
    match k {
        EntityKind::Url => seq![
            ("Open"@, "open_url"@, seq![("url"@, v)]),
            ("Copy"@, "copy_to_clipboard"@, seq![("text"@, v)]),
        ],
        EntityKind::FilePath => seq![
            ("Read"@, "read_file"@, seq![("path"@, v)]),
            ("Copy path"@, "copy_to_clipboard"@, seq![("text"@, v)]),
        ],
        _ => seq![("Copy"@, "copy_to_clipboard"@, seq![("text"@, v)])],
    }
}

/// `e` is the entity reported for kind `k` with value `v`.
pub open spec fn is_entity_for(e: DetectedEntity, k: EntityKind, v: Seq<char>) -> bool {
    &&& e.entity_type@ == kind_type_name(k)
    &&& e.value@ == v
    &&& e.actions@.map_values(|a: EntityAction| action_view(a)) == expected_actions(k, v)
}

/// The first kind, from position `i` of the order on, whose pattern matches
/// `text`, with the text it matched.
pub open spec fn first_entity_from(text: Seq<char>, i: int) -> Option<(EntityKind, Seq<char>)>
    decreases 5 - i,
{
    if i < 0 || i >= 5 {
        None
    } else {
        match regex_first_match(kind_pattern(kind_order()[i]), text) {
            Some(m) => Some((kind_order()[i], m)),
            None => first_entity_from(text, i + 1),
        }
    }
}

fn make_action(label: &str, tool: &str, key: &str, value: &String) -> (a: EntityAction)
    ensures
        action_view(a) == (label@, tool@, seq![(key@, value@)]),
{
    let mut args: Vec<(String, String)> = Vec::new();
    args.push((owned(key), value.clone()));
    let a = EntityAction { label: owned(label), tool: owned(tool), args };
    assert(a.args@.map_values(|p: (String, String)| (p.0@, p.1@)) =~= seq![(key@, value@)]);
    a
}

/// The entity reported when the pattern for `kind` matched `value`.
pub fn entity_from_match(kind: EntityKind, value: String) -> (e: DetectedEntity)
    ensures
        is_entity_for(e, kind, value@),
{
    let mut actions: Vec<EntityAction> = Vec::new();
    let entity_type = match kind {
        EntityKind::Url => {
            actions.push(make_action("Open", "open_url", "url", &value));
            actions.push(make_action("Copy", "copy_to_clipboard", "text", &value));
            owned("url")
        },
        EntityKind::Email => {
            actions.push(make_action("Copy", "copy_to_clipboard", "text", &value));
            owned("email")
        },
        EntityKind::Date => {
            actions.push(make_action("Copy", "copy_to_clipboard", "text", &value));
            owned("date")
        },
        EntityKind::FilePath => {
            actions.push(make_action("Read", "read_file", "path", &value));
            actions.push(make_action("Copy path", "copy_to_clipboard", "text", &value));
            owned("file_path")
        },
        EntityKind::Price => {
            actions.push(make_action("Copy", "copy_to_clipboard", "text", &value));
            owned("price")
        },
    };
    let e = DetectedEntity { entity_type, value, actions };
    assert(e.actions@.map_values(|a: EntityAction| action_view(a)) =~= expected_actions(
        kind,
        e.value@,
    ));
    e
}

/// Finds the first entity in `text`: a URL, else an e-mail address, else a
/// date, else a file path, else a price. Blank text has none.
pub fn detect_entity(text: &str) -> (r: Option<DetectedEntity>)
    ensures
        is_blank(text@) ==> r is None,
        !is_blank(text@) ==> match first_entity_from(text@, 0) {
            None => r is None,
            Some(found) => r matches Some(e) && is_entity_for(e, found.0, found.1),
        },
        r matches Some(e) ==> has_substring(text@, e.value@),
{
    if is_blank_str(text) {
        return None;
    }
    let mut i: usize = 0;
    while i < 5
        invariant
            i <= 5,
            !is_blank(text@),
            first_entity_from(text@, 0) == first_entity_from(text@, i as int),
        decreases 5 - i,
    {
        let kind = kind_at(i);
        match regex_find(pattern_of(kind), text) {
            Some(m) => {
                return Some(entity_from_match(kind, m));
            },
            None => {},
        }
        i += 1;
    }
    None
}

/// Number of lines (pieces between line feeds) that hold a `|`, scanning
/// the first `i` characters: lines closed so far, and whether the open line
/// holds one.
pub open spec fn bar_line_scan(s: Seq<char>, i: int) -> (nat, bool)
    decreases i,
{
    if i <= 0 {
        (0, false)
    } else {
        let prev = bar_line_scan(s, i - 1);
        if s[i - 1] == '\n' {
            ((prev.0 + if prev.1 { 1nat } else { 0nat }) as nat, false)
        } else {
            (prev.0, prev.1 || s[i - 1] == '|')
        }
    }
}

/// Number of lines of `s` that hold a `|`.
pub open spec fn bar_line_count(s: Seq<char>) -> nat {
    let scan = bar_line_scan(s, s.len() as int);
    (scan.0 + if scan.1 { 1nat } else { 0nat }) as nat
}

/// Counts the lines of `text` that hold a `|`.
pub fn count_bar_lines(text: &str) -> (n: usize)
    ensures
        n == bar_line_count(text@),
{
    let v = chars_of(text);
    let mut count: usize = 0;
    let mut open_has_bar = false;
    let mut i: usize = 0;
    while i < v.len()
        invariant
            v@ == text@,
            i <= v@.len(),
            count + (if open_has_bar { 1int } else { 0int }) <= i,
            (count as nat, open_has_bar) == bar_line_scan(text@, i as int),
        decreases v@.len() - i,
    {
        if v[i] == '\n' {
            if open_has_bar {
                count += 1;
            }
            open_has_bar = false;
        } else if v[i] == '|' {
            open_has_bar = true;
        }
        i += 1;
    }
    if open_has_bar {
        count + 1
    } else {
        count
    }
}

/// The content type of the selection: unknown when blank, else URL, code,
/// table (two or more lines holding `|`) or plain text, first that applies.
pub open spec fn content_type_of(text: Seq<char>) -> ContentType {
    if is_blank(text) {
        ContentType::Unknown
    } else if regex_first_match(kind_pattern(EntityKind::Url), text) is Some {
        ContentType::Url
    } else if regex_first_match(code_pattern(), text) is Some {
        ContentType::Code
    } else if bar_line_count(text) >= 2 {
        ContentType::Table
    } else {
        ContentType::Text
    }
}

/// Classifies the selected text.
pub fn detect_content_type(text: &str) -> (ct: ContentType)
    ensures
        ct == content_type_of(text@),
{
    if is_blank_str(text) {
        return ContentType::Unknown;
    }
    if regex_find(pattern_of(EntityKind::Url), text).is_some() {
        return ContentType::Url;
    }
    if regex_find(
        r"(?:fn |def |class |import |#include|var |let |const |function |\bif\s*\()",
        text,
    ).is_some() {
        return ContentType::Code;
    }
    if count_bar_lines(text) >= 2 {
        return ContentType::Table;
    }
    ContentType::Text
}

/// Non-blank text is classified as a URL exactly when the entity found in it
/// is a URL: both go by the same pattern, and URLs are looked for first.
pub proof fn lemma_url_content_matches_url_entity(text: Seq<char>)
    requires
        !is_blank(text),
    ensures
        (content_type_of(text) == ContentType::Url) <==> (first_entity_from(text, 0) matches Some(
            found,
        ) && found.0 == EntityKind::Url),
{
    let first = first_entity_from(text, 0);
    if regex_first_match(kind_pattern(EntityKind::Url), text) is None {
        if first matches Some(found) {
            lemma_first_entity_kind_from(text, 1);
        }
    }
}

proof fn lemma_first_entity_kind_from(text: Seq<char>, i: int)
    requires
        1 <= i <= 5,
    ensures
        first_entity_from(text, i) matches Some(found) ==> found.0 != EntityKind::Url,
    decreases 5 - i,
{
    if i < 5 {
        lemma_first_entity_kind_from(text, i + 1);
    }
}

/// The entity search goes URL, e-mail, date, file path, price: the first of
/// these patterns that matches decides the kind, and its leftmost match is
/// the value.
pub proof fn lemma_entity_search_order(text: Seq<char>)
    ensures
        match regex_first_match(r"(?i)https?://[^\s<>\x22\{\}\|\\\^\[\]]+"@, text) {
            Some(m) => first_entity_from(text, 0) == Some((EntityKind::Url, m)),
            None => match regex_first_match(r"[a-zA-Z0-9._%+\-]+@[a-zA-Z0-9.\-]+\.[a-zA-Z]{2,}"@, text) {
                Some(m) => first_entity_from(text, 0) == Some((EntityKind::Email, m)),
                None => match regex_first_match(r"\b(\d{4}-\d{2}-\d{2}|\d{1,2}/\d{1,2}/\d{2,4}|(?:Jan|Feb|Mar|Apr|May|Jun|Jul|Aug|Sep|Oct|Nov|Dec)[a-z]* \d{1,2},? \d{4})\b"@, text) {
                    Some(m) => first_entity_from(text, 0) == Some((EntityKind::Date, m)),
                    None => match regex_first_match(r"(?:[A-Za-z]:\\[^\s<>\x22\{\}\|\\\^\[\]]+|/(?:[a-zA-Z0-9._\-]+/)+[a-zA-Z0-9._\-]*)"@, text) {
                        Some(m) => first_entity_from(text, 0) == Some((EntityKind::FilePath, m)),
                        None => match regex_first_match(r"[$\x{00A3}\x{20AC}\x{00A5}]\s*\d[\d,.]*|\d[\d,.]*\s*(?:USD|EUR|GBP|JPY)"@, text) {
                            Some(m) => first_entity_from(text, 0) == Some((EntityKind::Price, m)),
                            None => first_entity_from(text, 0) is None,
                        },
                    },
                },
            },
        },
{
    reveal_with_fuel(first_entity_from, 6);
}

/// What an entity reports for each kind: its type name, and its actions,
/// which always end with copying the value (or its path) to the clipboard;
/// a URL can also be opened and a file path read.
pub proof fn lemma_entity_report(e: DetectedEntity, k: EntityKind, v: Seq<char>)
    requires
        is_entity_for(e, k, v),
    ensures
        e.value@ == v,
        k == EntityKind::Url ==> e.entity_type@ == "url"@ && e.actions@.len() == 2 && action_view(
            e.actions@[0],
        ) == ("Open"@, "open_url"@, seq![("url"@, v)]),
        k == EntityKind::Email ==> e.entity_type@ == "email"@ && e.actions@.len() == 1,
        k == EntityKind::Date ==> e.entity_type@ == "date"@ && e.actions@.len() == 1,
        k == EntityKind::FilePath ==> e.entity_type@ == "file_path"@ && e.actions@.len() == 2
            && action_view(e.actions@[0]) == ("Read"@, "read_file"@, seq![("path"@, v)]),
        k == EntityKind::Price ==> e.entity_type@ == "price"@ && e.actions@.len() == 1,
        e.actions@.len() >= 1,
        action_view(e.actions@[e.actions@.len() - 1]) == (if k == EntityKind::FilePath {
            "Copy path"@
        } else {
            "Copy"@
        }, "copy_to_clipboard"@, seq![("text"@, v)]),
{
    let views = e.actions@.map_values(|a: EntityAction| action_view(a));
    assert(views.len() == e.actions@.len());
    assert(views[e.actions@.len() - 1] == action_view(e.actions@[e.actions@.len() - 1]));
    assert(views[0] == action_view(e.actions@[0]));
}

/// The content type goes by URL pattern, then code pattern, then at least
/// two lines holding `|`; blank text is unknown and anything else text.
pub proof fn lemma_content_type_order(text: Seq<char>)
    ensures
        is_blank(text) ==> content_type_of(text) == ContentType::Unknown,
        !is_blank(text) && regex_first_match(r"(?i)https?://[^\s<>\x22\{\}\|\\\^\[\]]+"@, text) is Some ==> content_type_of(text)
            == ContentType::Url,
        !is_blank(text) && regex_first_match(r"(?i)https?://[^\s<>\x22\{\}\|\\\^\[\]]+"@, text) is None && regex_first_match(
            r"(?:fn |def |class |import |#include|var |let |const |function |\bif\s*\()"@,
            text,
        ) is Some ==> content_type_of(text) == ContentType::Code,
        !is_blank(text) && regex_first_match(r"(?i)https?://[^\s<>\x22\{\}\|\\\^\[\]]+"@, text) is None && regex_first_match(
            r"(?:fn |def |class |import |#include|var |let |const |function |\bif\s*\()"@,
            text,
        ) is None ==> content_type_of(text) == if bar_line_count(text) >= 2 {
            ContentType::Table
        } else {
            ContentType::Text
        },
{
}

proof fn lemma_bar_scan_prefix(s: Seq<char>, t: Seq<char>, i: int)
    requires
        0 <= i <= s.len(),
        s == t.take(s.len() as int),
        s.len() <= t.len(),
    ensures
        bar_line_scan(t, i) == bar_line_scan(s, i),
    decreases i,
{
    if i > 0 {
        lemma_bar_scan_prefix(s, t, i - 1);
        assert(t[i - 1] == s[i - 1]);
    }
}

proof fn lemma_bar_scan_one_line(s: Seq<char>, i: int)
    requires
        0 <= i <= s.len(),
        !s.contains('\n'),
    ensures
        bar_line_scan(s, i) == (0nat, s.take(i).contains('|')),
    decreases i,
{
    if i > 0 {
        lemma_bar_scan_one_line(s, i - 1);
        assert(s.take(i) =~= s.take(i - 1).push(s[i - 1]));
        if s[i - 1] == '\n' {
            assert(s.contains('\n'));
        }
        assert(s[i - 1] != '\n');
        assert(s.take(i)[i - 1] == s[i - 1]);
        if s[i - 1] == '|' {
            assert(s.take(i).contains('|'));
        }
        if s.take(i - 1).contains('|') {
            let w = choose|w: int| 0 <= w < i - 1 && #[trigger] s.take(i - 1)[w] == '|';
            assert(s.take(i)[w] == '|');
        }
        if s.take(i).contains('|') {
            let w = choose|w: int| 0 <= w < i && #[trigger] s.take(i)[w] == '|';
            if w < i - 1 {
                assert(s.take(i - 1)[w] == '|');
            }
        }
    } else {
        assert(s.take(0) =~= Seq::<char>::empty());
    }
}

/// A single line (no line feed) counts once when it holds a `|`, else not.
pub proof fn lemma_bar_count_one_line(s: Seq<char>)
    requires
        !s.contains('\n'),
    ensures
        bar_line_count(s) == if s.contains('|') {
            1nat
        } else {
            0nat
        },
{
    lemma_bar_scan_one_line(s, s.len() as int);
    assert(s.take(s.len() as int) =~= s);
}

proof fn lemma_bar_scan_split(a: Seq<char>, b: Seq<char>, j: int)
    requires
        0 <= j <= b.len(),
    ensures
        bar_line_scan(a + seq!['\n'] + b, a.len() + 1 + j) == (
            (bar_line_count(a) + bar_line_scan(b, j).0) as nat,
            bar_line_scan(b, j).1,
        ),
    decreases j,
{
    let t = a + seq!['\n'] + b;
    if j == 0 {
        assert(t.take(a.len() as int) =~= a);
        lemma_bar_scan_prefix(a, t, a.len() as int);
        assert(t[a.len() as int] == '\n');
    } else {
        lemma_bar_scan_split(a, b, j - 1);
        assert(t[a.len() + 1 + j - 1] == b[j - 1]);
    }
}

/// Lines are counted one by one: the text before a line feed and the text
/// after it add up.
pub proof fn lemma_bar_count_split(a: Seq<char>, b: Seq<char>)
    ensures
        bar_line_count(a + seq!['\n'] + b) == bar_line_count(a) + bar_line_count(b),
{
    lemma_bar_scan_split(a, b, b.len() as int);
    assert((a + seq!['\n'] + b).len() == a.len() + 1 + b.len());
}

proof fn lemma_bar_scan_no_bar(s: Seq<char>, i: int)
    requires
        0 <= i <= s.len(),
        !s.contains('|'),
    ensures
        bar_line_scan(s, i) == (0nat, false),
    decreases i,
{
    if i > 0 {
        lemma_bar_scan_no_bar(s, i - 1);
        if s[i - 1] == '|' {
            assert(s.contains('|'));
        }
    }
}

/// Text without any `|` has no table line, so it is never a table.
pub proof fn lemma_no_bar_no_table(text: Seq<char>)
    requires
        !text.contains('|'),
    ensures
        bar_line_count(text) == 0,
        content_type_of(text) != ContentType::Table,
{
    lemma_bar_scan_no_bar(text, text.len() as int);
}

/// A quick action by its label and prompt.
pub open spec fn quick_view(q: QuickAction) -> (Seq<char>, Seq<char>) {
    (q.label@, q.prompt@)
}

/// The quick actions offered for each content type.
pub open spec fn suggested_actions_for(ct: ContentType) -> Seq<(Seq<char>, Seq<char>)> {
    match ct {
        ContentType::Text => seq![
            ("Summarize"@, "Summarize the selected text concisely."@),
            ("Explain"@, "Explain the selected text in simple terms."@),
            ("Translate"@, "Translate the selected text to English."@),
            ("Simplify"@, "Rewrite the selected text in simpler language."@),
        ],
        ContentType::Code => seq![
            ("Explain"@, "Explain what this code does step by step."@),
            ("Fix bugs"@, "Find and fix any bugs in this code."@),
            ("Add comments"@, "Add clear comments to this code."@),
            ("Convert"@, "Convert this code to Python."@),
        ],
        ContentType::Url => seq![
            ("Open"@, "Open this URL in the browser."@),
            ("Summarize page"@, "Summarize what this URL/page is about."@),
            ("Copy"@, "Copy this URL to clipboard."@),
        ],
        ContentType::Table => seq![
            ("Summarize"@, "Summarize the data in this table."@),
            ("Export as list"@, "Convert this table to a bullet list."@),
            ("Find patterns"@, "Identify patterns or trends in this table."@),
        ],
        ContentType::Image | ContentType::Chart => seq![
            ("Describe"@, "Describe what you see in this image."@),
            ("Extract text"@, "Extract any text visible in this image."@),
        ],
        _ => seq![
            ("Explain"@, "Explain what you see."@),
            ("Summarize"@, "Summarize this content."@),
            ("Ask anything"@, "What would you like to know?"@),
        ],
    }
}

fn push_quick(v: &mut Vec<QuickAction>, label: &str, prompt: &str)
    ensures
        final(v)@.len() == old(v)@.len() + 1,
        forall|i: int| 0 <= i < old(v)@.len() ==> final(v)@[i] == old(v)@[i],
        quick_view(final(v)@[old(v)@.len() as int]) == (label@, prompt@),
{
    v.push(QuickAction { label: owned(label), prompt: owned(prompt) });
}

/// The quick actions offered for a content type.
pub fn suggested_actions(ct: &ContentType) -> (actions: Vec<QuickAction>)
    ensures
        actions@.map_values(|q: QuickAction| quick_view(q)) == suggested_actions_for(*ct),
{
    let mut v: Vec<QuickAction> = Vec::new();
    match ct {
        ContentType::Text => {
            push_quick(&mut v, "Summarize", "Summarize the selected text concisely.");
            push_quick(&mut v, "Explain", "Explain the selected text in simple terms.");
            push_quick(&mut v, "Translate", "Translate the selected text to English.");
            push_quick(&mut v, "Simplify", "Rewrite the selected text in simpler language.");
        },
        ContentType::Code => {
            push_quick(&mut v, "Explain", "Explain what this code does step by step.");
            push_quick(&mut v, "Fix bugs", "Find and fix any bugs in this code.");
            push_quick(&mut v, "Add comments", "Add clear comments to this code.");
            push_quick(&mut v, "Convert", "Convert this code to Python.");
        },
        ContentType::Url => {
            push_quick(&mut v, "Open", "Open this URL in the browser.");
            push_quick(&mut v, "Summarize page", "Summarize what this URL/page is about.");
            push_quick(&mut v, "Copy", "Copy this URL to clipboard.");
        },
        ContentType::Table => {
            push_quick(&mut v, "Summarize", "Summarize the data in this table.");
            push_quick(&mut v, "Export as list", "Convert this table to a bullet list.");
            push_quick(&mut v, "Find patterns", "Identify patterns or trends in this table.");
        },
        ContentType::Image | ContentType::Chart => {
            push_quick(&mut v, "Describe", "Describe what you see in this image.");
            push_quick(&mut v, "Extract text", "Extract any text visible in this image.");
        },
        _ => {
            push_quick(&mut v, "Explain", "Explain what you see.");
            push_quick(&mut v, "Summarize", "Summarize this content.");
            push_quick(&mut v, "Ask anything", "What would you like to know?");
        },
    }
    assert(v@.map_values(|q: QuickAction| quick_view(q)) =~= suggested_actions_for(*ct));
    v
}

/// The quick-action table: every content type gets two to four actions,
/// each with a label and a prompt, no label twice; images and charts get
/// the same actions.
pub proof fn lemma_quick_action_table(ct: ContentType)
    ensures
        2 <= suggested_actions_for(ct).len() <= 4,
        forall|i: int|
            0 <= i < suggested_actions_for(ct).len() ==> (#[trigger] suggested_actions_for(ct)[i]).0.len()
                > 0 && suggested_actions_for(ct)[i].1.len() > 0,
        forall|i: int, j: int|
            0 <= i < j < suggested_actions_for(ct).len() ==> (#[trigger] suggested_actions_for(ct)[i]).0
                != (#[trigger] suggested_actions_for(ct)[j]).0,
        suggested_actions_for(ContentType::Image) == suggested_actions_for(ContentType::Chart),
{
    reveal_strlit("Summarize");
    reveal_strlit("Explain");
    reveal_strlit("Translate");
    reveal_strlit("Simplify");
    reveal_strlit("Fix bugs");
    reveal_strlit("Add comments");
    reveal_strlit("Convert");
    reveal_strlit("Open");
    reveal_strlit("Summarize page");
    reveal_strlit("Copy");
    reveal_strlit("Export as list");
    reveal_strlit("Find patterns");
    reveal_strlit("Describe");
    reveal_strlit("Extract text");
    reveal_strlit("Ask anything");
    reveal_strlit("Summarize the selected text concisely.");
    reveal_strlit("Explain the selected text in simple terms.");
    reveal_strlit("Translate the selected text to English.");
    reveal_strlit("Rewrite the selected text in simpler language.");
    reveal_strlit("Explain what this code does step by step.");
    reveal_strlit("Find and fix any bugs in this code.");
    reveal_strlit("Add clear comments to this code.");
    reveal_strlit("Convert this code to Python.");
    reveal_strlit("Open this URL in the browser.");
    reveal_strlit("Summarize what this URL/page is about.");
    reveal_strlit("Copy this URL to clipboard.");
    reveal_strlit("Summarize the data in this table.");
    reveal_strlit("Convert this table to a bullet list.");
    reveal_strlit("Identify patterns or trends in this table.");
    reveal_strlit("Describe what you see in this image.");
    reveal_strlit("Extract any text visible in this image.");
    reveal_strlit("Explain what you see.");
    reveal_strlit("Summarize this content.");
    reveal_strlit("What would you like to know?");
    let t = suggested_actions_for(ct);
    assert forall|i: int, j: int| 0 <= i < j < t.len() implies (#[trigger] t[i]).0 != (
    #[trigger] t[j]).0 by {
        assert(t[i].0.len() != t[j].0.len() || t[i].0[0] != t[j].0[0] || t[i].0[1] != t[j].0[1]);
    }
}

/// What the overlay is told about the selected text.
pub struct SelectionInsight {
    pub content_type: ContentType,
    pub quick_actions: Vec<QuickAction>,
    pub entity: Option<DetectedEntity>,
}

/// Classifies the selection (no selection counts as empty text): its content
/// type, the quick actions for that type, and the first entity in it.
pub fn analyze_selection(selected: Option<&str>) -> (r: SelectionInsight)
    ensures
        ({
            let text = match selected {
                Some(t) => t@,
                None => Seq::<char>::empty(),
            };
            &&& r.content_type == content_type_of(text)
            &&& r.quick_actions@.map_values(|q: QuickAction| quick_view(q)) == suggested_actions_for(
                r.content_type,
            )
            &&& is_blank(text) ==> r.entity is None
            &&& !is_blank(text) ==> match first_entity_from(text, 0) {
                None => r.entity is None,
                Some(found) => r.entity matches Some(e) && is_entity_for(e, found.0, found.1),
            }
        }),
{
    let text: &str = match selected {
        Some(t) => t,
        None => "",
    };
    proof {
        reveal_strlit("");
    }
    let entity = detect_entity(text);
    let content_type = detect_content_type(text);
    let quick_actions = suggested_actions(&content_type);
    SelectionInsight { content_type, quick_actions, entity }
}

} // verus!
