//! What is gathered about the user's screen at shake time: which clipboard
//! text counts as a fresh selection, which application a window title
//! belongs to, and the screen area captured around the cursor.

use crate::text::{
    chars_of, concat, contains_char, contains_str, ends_with, has_substring, is_blank_str, owned,
    starts_with, str_eq, trim, trimmed,
};
use vstd::prelude::*;
use vstd::utf8::encode_utf8;

verus! {

/// Structured context about the active application; fields are `None` when
/// the information is not available.
pub struct AppContext {
    /// Human-readable application name, e.g. "Google Chrome".
    pub app_name: Option<String>,
    /// Current browser tab URL (browsers only).
    pub browser_url: Option<String>,
    /// Directory shown in the file manager (file managers only).
    pub file_path: Option<String>,
}

impl Default for AppContext {
    fn default() -> (c: Self)
        ensures
            c.app_name is None,
            c.browser_url is None,
            c.file_path is None,
    {
        AppContext { app_name: None, browser_url: None, file_path: None }
    }
}

/// Everything captured at shake time.
pub struct CapturedContext {
    pub selected_text: Option<String>,
    pub screenshot_b64: Option<String>,
    pub window_title: Option<String>,
    pub app_context: Option<AppContext>,
}

impl Default for CapturedContext {
    fn default() -> (c: Self)
        ensures
            c.selected_text is None,
            c.screenshot_b64 is None,
            c.window_title is None,
            c.app_context is None,
    {
        CapturedContext { selected_text: None, screenshot_b64: None, window_title: None, app_context: None }
    }
}

// ── Clipboard freshness and filtering ───────────────────────────────────────

/// Number of bytes UTF-8 takes for `c`.
pub open spec fn utf8_width(c: char) -> int {
    let u = c as u32;
    if u < 0x80 {
        1
    } else if u < 0x800 {
        2
    } else if u < 0x10000 {
        3
    } else {
        4
    }
}

proof fn lemma_encode_utf8_append(a: Seq<char>, b: Seq<char>)
    ensures
        encode_utf8(a + b) == encode_utf8(a) + encode_utf8(b),
    decreases a.len(),
{
    if a.len() == 0 {
        assert(a + b =~= b);
        assert(encode_utf8(a) =~= Seq::<u8>::empty());
        assert(encode_utf8(a) + encode_utf8(b) =~= encode_utf8(b));
    } else {
        lemma_encode_utf8_append(a.drop_first(), b);
        assert((a + b).drop_first() =~= a.drop_first() + b);
        assert((a + b)[0] == a[0]);
        assert(encode_utf8(a + b) =~= encode_utf8(a) + encode_utf8(b));
    }
}

proof fn lemma_encode_utf8_single(c: char)
    ensures
        encode_utf8(seq![c]).len() == utf8_width(c),
{
    assert(seq![c].drop_first() =~= Seq::<char>::empty());
    assert(encode_utf8(Seq::<char>::empty()) =~= Seq::<u8>::empty());
}

/// The UTF-8 byte length of `v`, or `cap + 1` when it is longer than `cap`.
fn utf8_len_capped(v: &Vec<char>, cap: u64) -> (n: u64)
    requires
        cap < 1000,
    ensures
        n == if byte_len(v@) > cap {
            cap + 1
        } else {
            byte_len(v@)
        },
{
    let mut acc: u64 = 0;
    let mut i: usize = 0;
    while i < v.len()
        invariant
            i <= v@.len(),
            cap < 1000,
            acc <= cap,
            acc == byte_len(v@.take(i as int)),
        decreases v@.len() - i,
    {
        let u = v[i] as u32;
        let w: u64 = if u < 0x80 {
            1
        } else if u < 0x800 {
            2
        } else if u < 0x10000 {
            3
        } else {
            4
        };
        proof {
            lemma_encode_utf8_append(v@.take(i as int), seq![v@[i as int]]);
            lemma_encode_utf8_single(v@[i as int]);
            assert(v@.take(i as int) + seq![v@[i as int]] =~= v@.take(i + 1));
        }
        acc = acc + w;
        i = i + 1;
        if acc > cap {
            proof {
                lemma_encode_utf8_append(v@.take(i as int), v@.skip(i as int));
                assert(v@.take(i as int) + v@.skip(i as int) =~= v@);
            }
            return cap + 1;
        }
    }
    assert(v@.take(i as int) =~= v@);
    acc
}

/// Length of the text in UTF-8 bytes, as `str::len` gives.
pub open spec fn byte_len(s: Seq<char>) -> int {
    encode_utf8(s).len() as int
}

/// Whether freshly copied, trimmed text is taken as the selection: at least
/// four bytes; not JSON-like (starting with `{` or `[`); and no single word
/// that is a URL, or longer than 60 bytes unless it is a path.
pub open spec fn selection_accepted(t: Seq<char>) -> bool {
    let has_space = t.contains(' ') || t.contains('\n');
    let looks_like_url = "http://"@.is_prefix_of(t) || "https://"@.is_prefix_of(t);
    let looks_like_path = t.contains('/') || t.contains('\\');
    &&& byte_len(t) >= 4
    &&& t[0] != '{' && t[0] != '['
    &&& !(!has_space && !looks_like_path && (byte_len(t) > 60 || looks_like_url))
    &&& !(looks_like_url && !has_space)
}

/// One look at the clipboard: what is given back (the trimmed text when it
/// is new and accepted) and the text remembered afterwards.
pub open spec fn selection_step(clipboard: Seq<char>, last_seen: Seq<char>) -> (
    Option<Seq<char>>,
    Seq<char>,
) {
    let t = trimmed(clipboard);
    if t == last_seen {
        (None, last_seen)
    } else if selection_accepted(t) {
        (Some(t), t)
    } else {
        (None, t)
    }
}

/// The rules for copied text: under four bytes, or starting like JSON
/// (`{` or `[`), it is no selection; a single word that is a URL, or a
/// single word over 60 bytes that is no path, is no selection either;
/// text of four bytes or more with a space in it that does not start like
/// JSON is one, and so is a path of four bytes or more.
pub proof fn lemma_selection_rules(t: Seq<char>)
    ensures
        byte_len(t) < 4 ==> !selection_accepted(t),
        t.len() > 0 && (t[0] == '{' || t[0] == '[') ==> !selection_accepted(t),
        ("http://"@.is_prefix_of(t) || "https://"@.is_prefix_of(t)) && !t.contains(' ')
            && !t.contains('\n') ==> !selection_accepted(t),
        !t.contains(' ') && !t.contains('\n') && !t.contains('/') && !t.contains('\\') && byte_len(t)
            > 60 ==> !selection_accepted(t),
        t.len() > 0 && byte_len(t) >= 4 && t[0] != '{' && t[0] != '[' && t.contains(' ')
            ==> selection_accepted(t),
        t.len() > 0 && byte_len(t) >= 4 && t[0] != '{' && t[0] != '[' && t.contains('/')
            && !"http://"@.is_prefix_of(t) && !"https://"@.is_prefix_of(t) ==> selection_accepted(t),
{
}

/// Reading the same clipboard text twice in a row gives nothing the second
/// time: a selection is reported once.
pub proof fn lemma_selection_reported_once(clipboard: Seq<char>, last_seen: Seq<char>)
    ensures
        selection_step(clipboard, selection_step(clipboard, last_seen).1).0 is None,
        selection_step(clipboard, selection_step(clipboard, last_seen).1).1 == selection_step(
            clipboard,
            last_seen,
        ).1,
{
}

/// Decides whether clipboard text is a new selection. `last_seen` holds the
/// trimmed clipboard text seen last time. Unchanged text gives nothing and
/// leaves `last_seen` as it is; changed text is remembered and then given
/// back, trimmed, when it is accepted as a selection.
pub fn fresh_selection(clipboard: &str, last_seen: &mut String) -> (r: Option<String>)
    ensures
        final(last_seen)@ == selection_step(clipboard@, old(last_seen)@).1,
        match r {
            Some(s) => selection_step(clipboard@, old(last_seen)@).0 == Some(s@),
            None => selection_step(clipboard@, old(last_seen)@).0 is None,
        },
{
    let t = trim(clipboard);
    if t == *last_seen {
        return None;
    }
    *last_seen = t.clone();
    let ts = t.as_str();
    let chars = chars_of(ts);
    let len = utf8_len_capped(&chars, 61);
    if len < 4 {
        return None;
    }
    proof {
        assert(t@.len() > 0) by {
            if t@.len() == 0 {
                assert(encode_utf8(t@) =~= Seq::<u8>::empty());
            }
        }
    }
    let first = ts.get_char(0);
    if first == '{' || first == '[' {
        return None;
    }
    let has_space = contains_char(ts, ' ') || contains_char(ts, '\n');
    let looks_like_url = starts_with(ts, "http://") || starts_with(ts, "https://");
    let looks_like_path = contains_char(ts, '/') || contains_char(ts, '\\');
    if !has_space && !looks_like_path && (len > 60 || looks_like_url) {
        return None;
    }
    if looks_like_url && !has_space {
        return None;
    }
    Some(t)
}

// ── Application detection from the window title ─────────────────────────────

/// The window title when there is one that is not blank, trimmed.
pub fn usable_title(window_title: Option<&str>) -> (t: Option<String>)
    ensures
        match window_title {
            Some(w) => match t {
                Some(s) => s@ == trimmed(w@) && s@.len() > 0,
                None => trimmed(w@).len() == 0,
            },
            None => t is None,
        },
{
    match window_title {
        Some(w) => {
            let s = trim(w);
            if s.as_str().is_empty() {
                None
            } else {
                Some(s)
            }
        },
        None => None,
    }
}

/// The context gathered on platforms without an application probe: just the
/// window title as the application name.
pub fn title_only_context(window_title: Option<&str>) -> (c: Option<AppContext>)
    ensures
        match window_title {
            Some(w) if trimmed(w@).len() > 0 => c matches Some(ctx) && ctx.app_name matches Some(
                n,
            ) && n@ == trimmed(w@) && ctx.browser_url is None && ctx.file_path is None,
            _ => c is None,
        },
{
    match usable_title(window_title) {
        Some(t) => Some(AppContext { app_name: Some(t), browser_url: None, file_path: None }),
        None => None,
    }
}

/// The separator between the parts of a window title.
pub open spec fn title_sep() -> Seq<char> {
    " - "@
}

/// Splitting `s` on `" - "` from the left, as `str::split` does, starting a
/// piece at `start` and looking at position `i`: the last piece.
pub open spec fn last_piece_from(s: Seq<char>, start: int, i: int) -> Seq<char>
    decreases s.len() - i,
{
    if i < 0 || i + 3 > s.len() {
        s.subrange(start, s.len() as int)
    } else if s.subrange(i, i + 3) == title_sep() {
        last_piece_from(s, i + 3, i + 3)
    } else {
        last_piece_from(s, start, i + 1)
    }
}

/// The text after the last `" - "` separator, as `split(" - ").last()` gives.
pub open spec fn last_piece(s: Seq<char>) -> Seq<char> {
    last_piece_from(s, 0, 0)
}

/// The last `" - "`-separated part of a title, trimmed.
pub fn last_title_part(title: &str) -> (r: String)
    ensures
        r@ == trimmed(last_piece(title@)),
{
    let v = chars_of(title);
    let n = v.len();
    let sep: Vec<char> = chars_of(" - ");
    proof {
        reveal_strlit(" - ");
        assert(sep@.len() == 3);
    }
    let mut start: usize = 0;
    let mut i: usize = 0;
    while n >= 3 && i <= n - 3
        invariant
            sep@.len() == 3,
            v@ == title@,
            n == v@.len(),
            sep@ == title_sep(),
            0 <= start <= i <= n,
            last_piece_from(title@, start as int, i as int) == last_piece(title@),
        decreases n - i,
    {
        let is_sep = v[i] == sep[0] && v[i + 1] == sep[1] && v[i + 2] == sep[2];
        proof {
            if is_sep {
                assert(v@.subrange(i as int, i + 3) =~= title_sep());
            } else {
                assert(!(v@.subrange(i as int, i + 3) =~= title_sep()));
            }
        }
        if is_sep {
            start = i + 3;
            i = i + 3;
        } else {
            i = i + 1;
        }
    }
    let piece = title.substring_char(start, n);
    trim(piece)
}

/// Kinds of application recognised on Windows.
#[derive(Clone, Copy, Debug, PartialEq, Eq, Structural)]
pub enum WindowsAppKind {
    FileExplorer,
    Browser,
    Other,
}

/// Kinds of application recognised on macOS; a browser carries its name.
pub enum MacOSAppKind {
    Finder,
    Browser(String),
    Other,
}

/// The title names application `name`: it ends with it, or holds it after
/// a `" - "` or `" — "` separator.
pub open spec fn title_names(title: Seq<char>, name: Seq<char>) -> bool {
    name.is_suffix_of(title) || has_substring(title, " - "@ + name) || has_substring(
        title,
        " — "@ + name,
    )
}

fn title_names_exec(title: &str, name: &str) -> (b: bool)
    ensures
        b == title_names(title@, name@),
{
    let dash = concat(" - ", name);
    let em = concat(" — ", name);
    ends_with(title, name) || contains_str(title, dash.as_str()) || contains_str(title, em.as_str())
}

/// Browsers recognised on Windows, in the order they are tried.
pub open spec fn windows_browsers() -> Seq<Seq<char>> {
    seq!["Google Chrome"@, "Mozilla Firefox"@, "Microsoft Edge"@, "Brave"@, "Opera"@, "Arc"@]
}

/// Browsers recognised on macOS, in the order they are tried.
pub open spec fn macos_browsers() -> Seq<Seq<char>> {
    seq![
        "Google Chrome"@,
        "Chromium"@,
        "Firefox"@,
        "Safari"@,
        "Microsoft Edge"@,
        "Brave Browser"@,
        "Arc"@,
        "Opera"@,
    ]
}

/// The first browser of `list`, from position `i` on, that the title names.
pub open spec fn first_named(title: Seq<char>, list: Seq<Seq<char>>, i: int) -> Option<Seq<char>>
    decreases list.len() - i,
{
    if i < 0 || i >= list.len() {
        None
    } else if title_names(title, list[i]) {
        Some(list[i])
    } else {
        first_named(title, list, i + 1)
    }
}

fn windows_browser_at(i: usize) -> (s: &'static str)
    requires
        i < 6,
    ensures
        s@ == windows_browsers()[i as int],
{
    if i == 0 {
        "Google Chrome"
    } else if i == 1 {
        "Mozilla Firefox"
    } else if i == 2 {
        "Microsoft Edge"
    } else if i == 3 {
        "Brave"
    } else if i == 4 {
        "Opera"
    } else {
        "Arc"
    }
}

fn macos_browser_at(i: usize) -> (s: &'static str)
    requires
        i < 8,
    ensures
        s@ == macos_browsers()[i as int],
{
    if i == 0 {
        "Google Chrome"
    } else if i == 1 {
        "Chromium"
    } else if i == 2 {
        "Firefox"
    } else if i == 3 {
        "Safari"
    } else if i == 4 {
        "Microsoft Edge"
    } else if i == 5 {
        "Brave Browser"
    } else if i == 6 {
        "Arc"
    } else {
        "Opera"
    }
}

/// Recognises the application behind a Windows window title: File Explorer
/// when the title ends with it; else the first browser the title names;
/// else the last `" - "` part of the title.
pub fn detect_windows_app(window_title: &str) -> (r: (String, WindowsAppKind))
    ensures
        "File Explorer"@.is_suffix_of(window_title@) ==> r.0@ == "File Explorer"@ && r.1
            == WindowsAppKind::FileExplorer,
        !"File Explorer"@.is_suffix_of(window_title@) ==> match first_named(
            window_title@,
            windows_browsers(),
            0,
        ) {
            Some(b) => r.0@ == b && r.1 == WindowsAppKind::Browser,
            None => r.0@ == trimmed(last_piece(window_title@)) && r.1 == WindowsAppKind::Other,
        },
{
    if ends_with(window_title, "File Explorer") {
        return (owned("File Explorer"), WindowsAppKind::FileExplorer);
    }
    let mut i: usize = 0;
    while i < 6
        invariant
            i <= 6,
            !"File Explorer"@.is_suffix_of(window_title@),
            first_named(window_title@, windows_browsers(), 0) == first_named(
                window_title@,
                windows_browsers(),
                i as int,
            ),
        decreases 6 - i,
    {
        let b = windows_browser_at(i);
        if title_names_exec(window_title, b) {
            return (owned(b), WindowsAppKind::Browser);
        }
        i += 1;
    }
    (last_title_part(window_title), WindowsAppKind::Other)
}

/// Recognises the application behind a macOS window title: the first
/// browser the title names; else Finder when the title ends with it; else
/// the last `" - "` part of the title.
pub fn detect_macos_app(window_title: &str) -> (r: (String, MacOSAppKind))
    ensures
        match first_named(window_title@, macos_browsers(), 0) {
            Some(b) => r.0@ == b && (r.1 matches MacOSAppKind::Browser(n) && n@ == b),
            None => if "Finder"@.is_suffix_of(window_title@) {
                r.0@ == "Finder"@ && (r.1 matches MacOSAppKind::Finder)
            } else {
                r.0@ == trimmed(last_piece(window_title@)) && (r.1 matches MacOSAppKind::Other)
            },
        },
{
    let mut i: usize = 0;
    while i < 8
        invariant
            i <= 8,
            first_named(window_title@, macos_browsers(), 0) == first_named(
                window_title@,
                macos_browsers(),
                i as int,
            ),
        decreases 8 - i,
    {
        let b = macos_browser_at(i);
        if title_names_exec(window_title, b) {
            return (owned(b), MacOSAppKind::Browser(owned(b)));
        }
        i += 1;
    }
    if ends_with(window_title, "Finder") {
        return (owned("Finder"), MacOSAppKind::Finder);
    }
    (last_title_part(window_title), MacOSAppKind::Other)
}

/// A browser URL read from the browser is kept when it is a web address.
pub fn browser_url_from(raw: Option<String>) -> (r: Option<String>)
    ensures
        match raw {
            Some(u) => if u@.len() > 0 && "http"@.is_prefix_of(u@) {
                r == Some(u)
            } else {
                r is None
            },
            None => r is None,
        },
{
    match raw {
        Some(u) => {
            if !u.as_str().is_empty() && starts_with(u.as_str(), "http") {
                Some(u)
            } else {
                None
            }
        },
        None => None,
    }
}

/// The AppleScript that reads the active tab's URL from each browser.
pub open spec fn browser_url_script_of(browser: Seq<char>) -> Seq<char> {
    if browser == "Firefox"@ {
        "tell application \"Firefox\"\n            try\n                return URL of active tab of front window\n            end try\n            return \"\"\n        end tell"@
    } else if browser == "Safari"@ {
        "tell application \"Safari\"\n            try\n                return URL of current tab of front window\n            end try\n            return \"\"\n        end tell"@
    } else if browser == "Arc"@ {
        "tell application \"Arc\"\n            try\n                return URL of active tab of front window\n            end try\n            return \"\"\n        end tell"@
    } else {
        "tell application \""@ + browser
            + "\"\n            try\n                return URL of active tab of front window\n            end try\n            return \"\"\n        end tell"@
    }
}

/// The AppleScript that reads the active tab's URL from `browser`.
pub fn browser_url_script(browser: &str) -> (s: String)
    ensures
        s@ == browser_url_script_of(browser@),
{
    if str_eq(browser, "Firefox") {
        owned(
            "tell application \"Firefox\"\n            try\n                return URL of active tab of front window\n            end try\n            return \"\"\n        end tell",
        )
    } else if str_eq(browser, "Safari") {
        owned(
            "tell application \"Safari\"\n            try\n                return URL of current tab of front window\n            end try\n            return \"\"\n        end tell",
        )
    } else if str_eq(browser, "Arc") {
        owned(
            "tell application \"Arc\"\n            try\n                return URL of active tab of front window\n            end try\n            return \"\"\n        end tell",
        )
    } else {
        let head = concat("tell application \"", browser);
        concat(
            head.as_str(),
            "\"\n            try\n                return URL of active tab of front window\n            end try\n            return \"\"\n        end tell",
        )
    }
}

/// Output of a helper process: trimmed, and only when something is left.
pub fn trimmed_output(stdout: &str) -> (r: Option<String>)
    ensures
        match r {
            Some(s) => s@ == trimmed(stdout@) && s@.len() > 0,
            None => trimmed(stdout@).len() == 0,
        },
{
    let s = trim(stdout);
    if s.as_str().is_empty() {
        None
    } else {
        Some(s)
    }
}

// ── Screenshot area ───────────────────────────────────────────────────────────

/// The screen area captured around the cursor at (`x`, `y`): a square of
/// side `2 * radius` centred on the cursor, in coordinates relative to the
/// origin of the screen it is on. Returns left, top, width and height.
pub fn capture_region(x: i32, y: i32, radius: u32, origin_x: i32, origin_y: i32) -> (r: (
    i32,
    i32,
    u32,
    u32,
))
    requires
        radius * 2 <= u32::MAX,
        i32::MIN <= x - radius - origin_x <= i32::MAX,
        i32::MIN <= y - radius - origin_y <= i32::MAX,
        i32::MIN <= x - radius <= i32::MAX,
        i32::MIN <= y - radius <= i32::MAX,
    ensures
        r.0 == x - radius - origin_x,
        r.1 == y - radius - origin_y,
        r.2 == radius * 2,
        r.3 == radius * 2,
{
    let r = radius as i32;
    let cap_x = x - r - origin_x;
    let cap_y = y - r - origin_y;
    let side = radius * 2;
    (cap_x, cap_y, side, side)
}

/// The capture area when its arithmetic stays in range; `None` when a
/// coordinate or the side would overflow.
pub fn checked_capture_region(x: i32, y: i32, radius: u32, origin_x: i32, origin_y: i32) -> (r:
    Option<(i32, i32, u32, u32)>)
    ensures
        match r {
            Some(a) => a.0 == x - radius - origin_x && a.1 == y - radius - origin_y && a.2 == radius
                * 2 && a.3 == radius * 2,
            None => !(radius * 2 <= u32::MAX && i32::MIN <= x - radius - origin_x <= i32::MAX
                && i32::MIN <= y - radius - origin_y <= i32::MAX && i32::MIN <= x - radius
                <= i32::MAX && i32::MIN <= y - radius <= i32::MAX),
        },
{
    let r = radius as i64;
    let lo = -2147483648i64;
    let hi = 2147483647i64;
    let ax = x as i64 - r - origin_x as i64;
    let ay = y as i64 - r - origin_y as i64;
    let bx = x as i64 - r;
    let by = y as i64 - r;
    if radius > 2147483647u32 || ax < lo || ax > hi || ay < lo || ay > hi || bx < lo || bx > hi
        || by < lo || by > hi {
        return None;
    }
    Some(capture_region(x, y, radius, origin_x, origin_y))
}

/// The alphabet of standard base64 (RFC 4648, section 4).
pub open spec fn base64_alphabet() -> Seq<char> {
    "ABCDEFGHIJKLMNOPQRSTUVWXYZabcdefghijklmnopqrstuvwxyz0123456789+/"@
}

/// Standard base64 with padding (RFC 4648): each group of three bytes gives
/// four characters for its four 6-bit pieces; a last group of one or two
/// bytes is filled with zero bits and padded with `=` to four characters.
pub open spec fn base64_standard(bytes: Seq<u8>) -> Seq<char>
    decreases bytes.len(),
{
    let a = base64_alphabet();
    if bytes.len() == 0 {
        Seq::empty()
    } else if bytes.len() == 1 {
        let b0 = bytes[0] as int;
        seq![a[b0 / 4], a[(b0 % 4) * 16], '=', '=']
    } else if bytes.len() == 2 {
        let b0 = bytes[0] as int;
        let b1 = bytes[1] as int;
        seq![a[b0 / 4], a[(b0 % 4) * 16 + b1 / 16], a[(b1 % 16) * 4], '=']
    } else {
        let b0 = bytes[0] as int;
        let b1 = bytes[1] as int;
        let b2 = bytes[2] as int;
        seq![a[b0 / 4], a[(b0 % 4) * 16 + b1 / 16], a[(b1 % 16) * 4 + b2 / 64], a[b2 % 64]]
            + base64_standard(bytes.skip(3))
    }
}

/// Padded base64 takes four characters per started group of three bytes.
pub proof fn lemma_base64_length(bytes: Seq<u8>)
    ensures
        base64_standard(bytes).len() == 4 * ((bytes.len() + 2) / 3),
    decreases bytes.len(),
{
    if bytes.len() >= 3 {
        lemma_base64_length(bytes.skip(3));
    }
}

/// Encodes `bytes` with `base64::engine::general_purpose::STANDARD.encode`.
/// The contract claims that the result is standard padded base64, as the
/// crate documents for this engine.
#[verifier::external_body]
fn base64_encode(bytes: &[u8]) -> (s: String)
    requires
        bytes@.len() <= usize::MAX / 2,
    ensures
        s@ == base64_standard(bytes@),
{
    base64::Engine::encode(&base64::engine::general_purpose::STANDARD, bytes)
}

/// The screenshot as sent to the overlay: its PNG bytes in base64.
pub fn encode_png_base64(png: &Vec<u8>) -> (s: String)
    requires
        png@.len() <= usize::MAX / 2,
    ensures
        s@ == base64_standard(png@),
        s@.len() == 4 * ((png@.len() + 2) / 3),
{
    proof {
        lemma_base64_length(png@);
    }
    base64_encode(png.as_slice())
}

} // verus!
