//! From a request to a command or an error.
use vstd::prelude::*;

use crate::api::types::{
    ApiCommand, ErrorBody, MoveToMonitorRequest, NamedAction, ResizeRequest, ScrollRequest,
};
use crate::search::{lemma_first_hit, lemma_first_miss};
use crate::text::{
    char_mask, decimal, ends_with, find_char, first_char, law_decimal_reads_back, number,
    number_up_to, parse_u32, parse_u64, part, same, starts_with,
};

verus! {

#[derive(Debug, Clone, Copy, PartialEq, Eq, Structural)]
pub enum Method {
    Get,
    Post,
    Other,
}

/// The endpoint a request is for. Ids are as they stand in the path.
#[derive(Debug)]
pub enum Route {
    Root,
    State,
    Windows,
    Monitors,
    MoveToMonitor { id: String },
    Resize { id: String },
    Wake { id: String },
    Thumbnail { id: String, max_width: Option<u32> },
    Focus { id: String },
    Scroll,
    Action { name: String },
    NotFound,
}

/// `s` without the slashes at its end.
pub open spec fn without_slashes(s: Seq<char>) -> Seq<char>
    decreases s.len(),
{
    if s.len() > 0 && s.last() == '/' {
        without_slashes(s.drop_last())
    } else {
        s
    }
}

/// The path of a URL, without a query and without slashes at its end.
pub open spec fn path_of(url: Seq<char>) -> Seq<char> {
    match first_char(url, '?') {
        Some(i) => without_slashes(url.subrange(0, i)),
        None => without_slashes(url),
    }
}

/// What follows the question mark.
pub open spec fn query_of(url: Seq<char>) -> Option<Seq<char>> {
    match first_char(url, '?') {
        Some(i) => Some(url.subrange(i + 1, url.len() as int)),
        None => None,
    }
}

/// The path is that of a window, with `suffix` behind its id. The two ends do
/// not share a slash: a path without any id is none of a window.
pub open spec fn of_window(path: Seq<char>, suffix: Seq<char>) -> bool {
    &&& "/windows/"@.is_prefix_of(path)
    &&& suffix.is_suffix_of(path)
    &&& "/windows/"@.len() + suffix.len() <= path.len()
}

/// What stands between the two ends of such a path.
pub open spec fn window_part(path: Seq<char>, suffix: Seq<char>) -> Seq<char> {
    path.subrange("/windows/"@.len() as int, path.len() - suffix.len())
}

pub open spec fn after(path: Seq<char>, prefix: Seq<char>) -> Seq<char> {
    path.subrange(prefix.len() as int, path.len() as int)
}

/// The width that one `key=value` pair asks for.
pub open spec fn pair_width(pair: Seq<char>) -> Option<u32> {
    match first_char(pair, '=') {
        None => None,
        Some(i) => {
            let key = pair.subrange(0, i);
            match number_up_to(pair.subrange(i + 1, pair.len() as int), u32::MAX as nat) {
                Some(n) => if (key == "w"@ || key == "width"@) && n > 0 {
                    Some(n as u32)
                } else {
                    None
                },
                None => None,
            }
        },
    }
}

/// The width that a query asks for: that of the first pair that names one.
/// Pairs that make no sense are passed over.
pub open spec fn query_width(query: Seq<char>) -> Option<u32>
    decreases query.len(),
{
    match first_char(query, '&') {
        None => pair_width(query),
        Some(i) => if 0 <= i < query.len() {
            match pair_width(query.subrange(0, i)) {
                Some(n) => Some(n),
                None => query_width(query.subrange(i + 1, query.len() as int)),
            }
        } else {
            None
        },
    }
}

/// `r` is the endpoint for the request.
pub open spec fn is_route(method: Method, url: Seq<char>, r: Route) -> bool {
    let path = path_of(url);
    let get = method == Method::Get;
    let post = method == Method::Post;
    if get && path.len() == 0 {
        r is Root
    } else if get && path == "/state"@ {
        r is State
    } else if get && path == "/windows"@ {
        r is Windows
    } else if get && path == "/monitors"@ {
        r is Monitors
    } else if post && of_window(path, "/move-to-monitor"@) {
        r matches Route::MoveToMonitor { id } && id@ == window_part(path, "/move-to-monitor"@)
    } else if post && of_window(path, "/resize"@) {
        r matches Route::Resize { id } && id@ == window_part(path, "/resize"@)
    } else if post && of_window(path, "/wake"@) {
        r matches Route::Wake { id } && id@ == window_part(path, "/wake"@)
    } else if get && of_window(path, "/thumbnail"@) {
        r matches Route::Thumbnail { id, max_width } && id@ == window_part(path, "/thumbnail"@)
            && max_width == (match query_of(url) {
            Some(q) => query_width(q),
            None => None,
        })
    } else if post && "/focus/"@.is_prefix_of(path) {
        r matches Route::Focus { id } && id@ == after(path, "/focus/"@)
    } else if post && path == "/scroll"@ {
        r is Scroll
    } else if post && "/action/"@.is_prefix_of(path) {
        r matches Route::Action { name } && name@ == after(path, "/action/"@)
    } else {
        r is NotFound
    }
}

fn trim_slashes(s: &str) -> (r: String)
    ensures
        r@ == without_slashes(s@),
{
    let mut end: usize = s.unicode_len();
    proof {
        assert(s@.subrange(0, s@.len() as int) =~= s@);
    }
    while end > 0 && s.get_char(end - 1) == '/'
        invariant
            end <= s@.len(),
            without_slashes(s@) == without_slashes(s@.subrange(0, end as int)),
        decreases end,
    {
        proof {
            assert(s@.subrange(0, end as int).drop_last() =~= s@.subrange(0, end - 1));
            assert(s@.subrange(0, end as int).last() == s@[end - 1]);
        }
        end = end - 1;
    }
    proof {
        if end > 0 {
            assert(s@.subrange(0, end as int).last() == s@[end - 1]);
        }
    }
    part(s, 0, end)
}

fn parse_pair(pair: &str) -> (r: Option<u32>)
    ensures
        r == pair_width(pair@),
{
    match find_char(pair, '=') {
        None => None,
        Some(i) => {
            let len: usize = pair.unicode_len();
            let key: String = part(pair, 0, i);
            let value: String = part(pair, i + 1, len);
            match parse_u32(value.as_str()) {
                Some(n) => if (same(key.as_str(), "w") || same(key.as_str(), "width")) && n > 0 {
                    Some(n)
                } else {
                    None
                },
                None => None,
            }
        },
    }
}

/// The width that `?w=` or `?width=` asks for.
pub fn parse_width_param(query: &str) -> (r: Option<u32>)
    ensures
        r == query_width(query@),
    decreases query@.len(),
{
    match find_char(query, '&') {
        None => parse_pair(query),
        Some(i) => {
            let pair: String = part(query, 0, i);
            match parse_pair(pair.as_str()) {
                Some(n) => Some(n),
                None => {
                    let len: usize = query.unicode_len();
                    let rest: String = part(query, i + 1, len);
                    parse_width_param(rest.as_str())
                },
            }
        },
    }
}

fn is_window_path(path: &str, suffix: &str) -> (r: bool)
    ensures
        r == of_window(path@, suffix@),
{
    let prefix: &str = "/windows/";
    let ends: u128 = prefix.unicode_len() as u128 + suffix.unicode_len() as u128;
    starts_with(path, "/windows/") && ends_with(path, suffix) && ends
        <= path.unicode_len() as u128
}

fn cut_window_part(path: &str, suffix: &str) -> (r: String)
    requires
        "/windows/"@.len() + suffix@.len() <= path@.len(),
    ensures
        r@ == window_part(path@, suffix@),
{
    let prefix: &str = "/windows/";
    part(path, prefix.unicode_len(), path.unicode_len() - suffix.unicode_len())
}

fn cut_prefix(path: &str, prefix: &str) -> (r: String)
    requires
        prefix@.is_prefix_of(path@),
    ensures
        r@ == after(path@, prefix@),
{
    part(path, prefix.unicode_len(), path.unicode_len())
}

/// The endpoint a request is for.
pub fn route(method: Method, url: &str) -> (r: Route)
    ensures
        is_route(method, url@, r),
{
    let (path, query): (String, Option<String>) = match find_char(url, '?') {
        Some(i) => {
            let len: usize = url.unicode_len();
            let before: String = part(url, 0, i);
            (trim_slashes(before.as_str()), Some(part(url, i + 1, len)))
        },
        None => (trim_slashes(url), None),
    };
    let p: &str = path.as_str();
    match method {
        Method::Get => {
            if p.unicode_len() == 0 {
                Route::Root
            } else if same(p, "/state") {
                Route::State
            } else if same(p, "/windows") {
                Route::Windows
            } else if same(p, "/monitors") {
                Route::Monitors
            } else if is_window_path(p, "/thumbnail") {
                let max_width: Option<u32> = match query {
                    Some(q) => parse_width_param(q.as_str()),
                    None => None,
                };
                Route::Thumbnail { id: cut_window_part(p, "/thumbnail"), max_width }
            } else {
                Route::NotFound
            }
        },
        Method::Post => {
            if is_window_path(p, "/move-to-monitor") {
                Route::MoveToMonitor { id: cut_window_part(p, "/move-to-monitor") }
            } else if is_window_path(p, "/resize") {
                Route::Resize { id: cut_window_part(p, "/resize") }
            } else if is_window_path(p, "/wake") {
                Route::Wake { id: cut_window_part(p, "/wake") }
            } else if starts_with(p, "/focus/") {
                Route::Focus { id: cut_prefix(p, "/focus/") }
            } else if same(p, "/scroll") {
                Route::Scroll
            } else if starts_with(p, "/action/") {
                Route::Action { name: cut_prefix(p, "/action/") }
            } else {
                Route::NotFound
            }
        },
        Method::Other => Route::NotFound,
    }
}

/// Behind `/windows/` there has to be an id and what is wanted of the window:
/// with one part alone, such as `/windows/resize`, a request leads nowhere.
pub proof fn law_path_without_id_leads_nowhere(method: Method, url: Seq<char>, r: Route)
    requires
        is_route(method, url, r),
        "/windows/"@.is_prefix_of(path_of(url)),
        forall|k: int|
            "/windows/"@.len() <= k < path_of(url).len() ==> #[trigger] path_of(url)[k] != '/',
    ensures
        r is NotFound,
{
    let path = path_of(url);
    reveal_strlit("/windows/");
    reveal_strlit("/windows");
    reveal_strlit("/state");
    reveal_strlit("/monitors");
    reveal_strlit("/focus/");
    reveal_strlit("/scroll");
    reveal_strlit("/action/");
    reveal_strlit("/move-to-monitor");
    reveal_strlit("/resize");
    reveal_strlit("/wake");
    reveal_strlit("/thumbnail");
    assert(path[1] == "/windows/"@[1]);
    assert forall|suffix: Seq<char>|
        suffix.len() > 0 && suffix[0] == '/' implies !#[trigger] of_window(path, suffix) by {
        if of_window(path, suffix) {
            assert(path[path.len() - suffix.len()] == suffix[0]);
        }
    }
    assert(!of_window(path, "/move-to-monitor"@));
    assert(!of_window(path, "/resize"@));
    assert(!of_window(path, "/wake"@));
    assert(!of_window(path, "/thumbnail"@));
    assert(!"/focus/"@.is_prefix_of(path)) by {
        assert("/focus/"@[1] != path[1]);
    }
    assert(!"/action/"@.is_prefix_of(path)) by {
        assert("/action/"@[1] != path[1]);
    }
    assert(path != "/state"@ && path != "/monitors"@ && path != "/scroll"@);
}

/// What a request comes to before anything is done about it.
#[derive(Debug)]
pub enum Reply {
    /// Hand the command over and report how that went.
    Command(ApiCommand),
    /// Capture the window and send the picture.
    Capture { hwnd: u64, max_width: Option<u32> },
    Error { status: u16, body: ErrorBody },
}

pub open spec fn is_error(r: Reply, code: u16, message: Seq<char>) -> bool {
    r matches Reply::Error { status, body } && status == code && body.error@ == message
}

pub fn error_reply(status: u16, message: &str) -> (r: Reply)
    ensures
        is_error(r, status, message@),
{
    Reply::Error { status, body: ErrorBody { error: message.to_owned() } }
}

/// The answer for a path that leads nowhere.
pub fn not_found() -> (r: Reply)
    ensures
        is_error(r, 404, "no such endpoint"@),
{
    error_reply(404, "no such endpoint")
}

/// The handle an id stands for.
pub open spec fn hwnd_of(id: Seq<char>) -> Option<nat> {
    number_up_to(id, u64::MAX as nat)
}

fn joined(a: &str, b: &str, c: &str) -> (r: String)
    ensures
        r@ == a@ + b@ + c@,
{
    let mut out: String = a.to_owned();
    out.append(b);
    out.append(c);
    out
}

fn bad_json(e: &str) -> (r: Reply)
    ensures
        is_error(r, 400, "invalid JSON: "@ + e@),
{
    let mut message: String = "invalid JSON: ".to_owned();
    message.append(e);
    error_reply(400, message.as_str())
}

/// `body` is the body of the request, or what is wrong with it.
pub fn handle_move_to_monitor(id: &str, body: Result<MoveToMonitorRequest, String>) -> (r: Reply)
    ensures
        match hwnd_of(id@) {
            None => is_error(r, 400, "invalid window id"@),
            Some(n) => match body {
                Err(e) => is_error(r, 400, "invalid JSON: "@ + e@),
                Ok(req) => r matches Reply::Command(ApiCommand::MoveToMonitor { hwnd, device_name })
                    && hwnd == n && device_name == req.device_name,
            },
        },
{
    let hwnd: u64 = match parse_u64(id) {
        Some(n) => n,
        None => {
            return error_reply(400, "invalid window id");
        },
    };
    match body {
        Err(e) => bad_json(e.as_str()),
        Ok(req) => Reply::Command(
            ApiCommand::MoveToMonitor { hwnd, device_name: req.device_name },
        ),
    }
}

pub fn handle_resize(id: &str, body: Result<ResizeRequest, String>) -> (r: Reply)
    ensures
        match hwnd_of(id@) {
            None => is_error(r, 400, "invalid window id"@),
            Some(n) => match body {
                Err(e) => is_error(r, 400, "invalid JSON: "@ + e@),
                Ok(req) => if !req.width.finite || !req.width.positive {
                    is_error(r, 400, "`width` must be a positive finite number"@)
                } else {
                    r matches Reply::Command(
                        ApiCommand::ResizeWindow { hwnd, target_width, animate_ms, center },
                    ) && hwnd == n && target_width == req.width.units && animate_ms
                        == req.animate_ms && center == req.center
                },
            },
        },
{
    let hwnd: u64 = match parse_u64(id) {
        Some(n) => n,
        None => {
            return error_reply(400, "invalid window id");
        },
    };
    match body {
        Err(e) => bad_json(e.as_str()),
        Ok(req) => {
            if !req.width.finite || !req.width.positive {
                return error_reply(400, "`width` must be a positive finite number");
            }
            Reply::Command(
                ApiCommand::ResizeWindow {
                    hwnd,
                    target_width: req.width.units,
                    animate_ms: req.animate_ms,
                    center: req.center,
                },
            )
        },
    }
}

pub fn handle_wake(id: &str) -> (r: Reply)
    ensures
        match hwnd_of(id@) {
            None => is_error(r, 400, "invalid window id"@),
            Some(n) => r matches Reply::Command(ApiCommand::WakeWindow { hwnd }) && hwnd == n,
        },
{
    match parse_u64(id) {
        Some(hwnd) => Reply::Command(ApiCommand::WakeWindow { hwnd }),
        None => error_reply(400, "invalid window id"),
    }
}

pub fn handle_thumbnail(id: &str, max_width: Option<u32>) -> (r: Reply)
    ensures
        match hwnd_of(id@) {
            None => is_error(r, 400, "invalid window id"@),
            Some(n) => r matches Reply::Capture { hwnd, max_width: m } && hwnd == n && m
                == max_width,
        },
{
    match parse_u64(id) {
        Some(hwnd) => Reply::Capture { hwnd, max_width },
        None => error_reply(400, "invalid window id"),
    }
}

/// The answer to a capture that failed.
pub fn capture_failed(reason: &str) -> (r: Reply)
    ensures
        is_error(r, 500, "capture failed: "@ + reason@),
{
    let mut message: String = "capture failed: ".to_owned();
    message.append(reason);
    error_reply(500, message.as_str())
}

pub fn handle_focus(id: &str) -> (r: Reply)
    ensures
        match hwnd_of(id@) {
            None => is_error(r, 400, "invalid window id"@),
            Some(n) => r matches Reply::Command(ApiCommand::Focus(hwnd)) && hwnd == n,
        },
{
    match parse_u64(id) {
        Some(hwnd) => Reply::Command(ApiCommand::Focus(hwnd)),
        None => error_reply(400, "invalid window id"),
    }
}

pub fn handle_scroll(body: Result<ScrollRequest, String>) -> (r: Reply)
    ensures
        match body {
            Err(e) => is_error(r, 400, "invalid JSON: "@ + e@),
            Ok(req) => match (req.offset, req.delta) {
                (Some(o), _) => r matches Reply::Command(
                    ApiCommand::SetScrollOffset { offset, animate_ms },
                ) && offset == o && animate_ms == req.animate_ms,
                (None, Some(d)) => r matches Reply::Command(
                    ApiCommand::ScrollBy { delta, animate_ms },
                ) && delta == d && animate_ms == req.animate_ms,
                (None, None) => is_error(r, 400, "must provide `offset` or `delta`"@),
            },
        },
{
    match body {
        Err(e) => bad_json(e.as_str()),
        Ok(req) => match (req.offset, req.delta) {
            (Some(offset), _) => Reply::Command(
                ApiCommand::SetScrollOffset { offset, animate_ms: req.animate_ms },
            ),
            (None, Some(delta)) => Reply::Command(
                ApiCommand::ScrollBy { delta, animate_ms: req.animate_ms },
            ),
            (None, None) => error_reply(400, "must provide `offset` or `delta`"),
        },
    }
}

/// The name of an action on the wire.
pub open spec fn action_name(a: NamedAction) -> Seq<char> {
    match a {
        NamedAction::FocusPrev => "focus-prev"@,
        NamedAction::FocusNext => "focus-next"@,
        NamedAction::SwapPrev => "swap-prev"@,
        NamedAction::SwapNext => "swap-next"@,
        NamedAction::ResizeFullscreen => "resize-fullscreen"@,
        NamedAction::ResizeHalfscreen => "resize-halfscreen"@,
        NamedAction::WidthIncrement => "width-increment"@,
        NamedAction::WidthDecrement => "width-decrement"@,
        NamedAction::Refresh => "refresh"@,
        NamedAction::CenterFocused => "center-focused"@,
        NamedAction::OpenOverview => "open-overview"@,
        NamedAction::CloseOverview => "close-overview"@,
        NamedAction::OpenSettings => "open-settings"@,
        NamedAction::Exit => "exit"@,
    }
}

/// The action with the given name.
pub fn named_action(name: &str) -> (r: Option<NamedAction>)
    ensures
        match r {
            Some(a) => action_name(a) == name@,
            None => forall|a: NamedAction| #[trigger] action_name(a) != name@,
        },
{
    if same(name, "focus-prev") {
        Some(NamedAction::FocusPrev)
    } else if same(name, "focus-next") {
        Some(NamedAction::FocusNext)
    } else if same(name, "swap-prev") {
        Some(NamedAction::SwapPrev)
    } else if same(name, "swap-next") {
        Some(NamedAction::SwapNext)
    } else if same(name, "resize-fullscreen") {
        Some(NamedAction::ResizeFullscreen)
    } else if same(name, "resize-halfscreen") {
        Some(NamedAction::ResizeHalfscreen)
    } else if same(name, "width-increment") {
        Some(NamedAction::WidthIncrement)
    } else if same(name, "width-decrement") {
        Some(NamedAction::WidthDecrement)
    } else if same(name, "refresh") {
        Some(NamedAction::Refresh)
    } else if same(name, "center-focused") {
        Some(NamedAction::CenterFocused)
    } else if same(name, "open-overview") {
        Some(NamedAction::OpenOverview)
    } else if same(name, "close-overview") {
        Some(NamedAction::CloseOverview)
    } else if same(name, "open-settings") {
        Some(NamedAction::OpenSettings)
    } else if same(name, "exit") {
        Some(NamedAction::Exit)
    } else {
        None
    }
}

/// Length of a name and the letter that tells it from others as long.
spec fn mark(name: Seq<char>) -> (int, char) {
    let at: int = if name.len() == 10 || name.len() == 15 {
        6
    } else if name.len() == 17 {
        7
    } else if name.len() == 4 {
        0
    } else {
        5
    };
    (name.len() as int, name[at])
}

spec fn action_marked(m: (int, char)) -> NamedAction {
    if m.0 == 10 {
        if m.1 == 'p' {
            NamedAction::FocusPrev
        } else {
            NamedAction::FocusNext
        }
    } else if m.0 == 9 {
        if m.1 == 'p' {
            NamedAction::SwapPrev
        } else {
            NamedAction::SwapNext
        }
    } else if m.0 == 17 {
        if m.1 == 'f' {
            NamedAction::ResizeFullscreen
        } else {
            NamedAction::ResizeHalfscreen
        }
    } else if m.0 == 15 {
        if m.1 == 'i' {
            NamedAction::WidthIncrement
        } else {
            NamedAction::WidthDecrement
        }
    } else if m.0 == 7 {
        NamedAction::Refresh
    } else if m.0 == 14 {
        if m.1 == 'r' {
            NamedAction::CenterFocused
        } else {
            NamedAction::CloseOverview
        }
    } else if m.0 == 13 {
        if m.1 == 'o' {
            NamedAction::OpenOverview
        } else {
            NamedAction::OpenSettings
        }
    } else {
        NamedAction::Exit
    }
}

/// No two actions share a name, so that every name stands for one action.
pub proof fn law_action_names_differ(a: NamedAction, b: NamedAction)
    requires
        action_name(a) == action_name(b),
    ensures
        a == b,
{
    reveal_strlit("focus-prev");
    reveal_strlit("focus-next");
    reveal_strlit("swap-prev");
    reveal_strlit("swap-next");
    reveal_strlit("resize-fullscreen");
    reveal_strlit("resize-halfscreen");
    reveal_strlit("width-increment");
    reveal_strlit("width-decrement");
    reveal_strlit("refresh");
    reveal_strlit("center-focused");
    reveal_strlit("open-overview");
    reveal_strlit("close-overview");
    reveal_strlit("open-settings");
    reveal_strlit("exit");
    assert(a == action_marked(mark(action_name(a))));
    assert(b == action_marked(mark(action_name(b))));
}

pub fn handle_action(name: &str) -> (r: Reply)
    ensures
        (exists|a: NamedAction| #[trigger] action_name(a) == name@) ==> (r matches Reply::Command(
            ApiCommand::Action(a),
        ) && action_name(a) == name@),
        (forall|a: NamedAction| #[trigger] action_name(a) != name@) ==> is_error(
            r,
            400,
            "unknown action `"@ + name@ + "`"@,
        ),
{
    match named_action(name) {
        Some(a) => Reply::Command(ApiCommand::Action(a)),
        None => {
            let message: String = joined("unknown action `", name, "`");
            error_reply(400, message.as_str())
        },
    }
}

/// How handing a command over is reported.
#[derive(Debug)]
pub enum Dispatched {
    Accepted { status: u16 },
    Refused { status: u16, body: ErrorBody },
}

/// The answer to a command: 202 where it was handed over, 503 where it could
/// not be.
pub fn dispatch_command(sent: Result<(), String>) -> (r: Dispatched)
    ensures
        match sent {
            Ok(_) => r matches Dispatched::Accepted { status } && status == 202,
            Err(e) => r matches Dispatched::Refused { status, body } && status == 503 && body.error
                == e,
        },
{
    match sent {
        Ok(_) => Dispatched::Accepted { status: 202 },
        Err(e) => Dispatched::Refused { status: 503, body: ErrorBody { error: e } },
    }
}

/// A character stands nowhere in the text.
pub open spec fn lacks(s: Seq<char>, c: char) -> bool {
    forall|k: int| 0 <= k < s.len() ==> #[trigger] s[k] != c
}

proof fn lemma_split_at(head: Seq<char>, c: char, tail: Seq<char>)
    requires
        lacks(head, c),
    ensures
        first_char(head + seq![c] + tail, c) == Some(head.len() as int),
        (head + seq![c] + tail).subrange(0, head.len() as int) == head,
        (head + seq![c] + tail).subrange(head.len() as int + 1, head.len() as int + 1 + tail.len())
            == tail,
        (head + seq![c] + tail).len() == head.len() + 1 + tail.len(),
{
    let s = head + seq![c] + tail;
    let mask = char_mask(s, c);
    assert(mask[head.len() as int]);
    assert forall|k: int| 0 <= k < head.len() implies !mask[k] by {
        assert(s[k] == head[k]);
    }
    lemma_first_hit(mask, head.len() as int);
    assert(s.subrange(0, head.len() as int) =~= head);
    assert(s.subrange(head.len() as int + 1, head.len() as int + 1 + tail.len()) =~= tail);
}

proof fn lemma_nowhere(s: Seq<char>, c: char)
    requires
        lacks(s, c),
    ensures
        first_char(s, c) is None,
{
    lemma_first_miss(char_mask(s, c));
}

/// A query does not change which path a URL names, nor do slashes at the end of
/// the path. What follows the first question mark is the query.
pub proof fn law_queries_and_slashes_do_not_change_the_path(path: Seq<char>, query: Seq<char>)
    requires
        lacks(path, '?'),
    ensures
        path_of(path + seq!['?'] + query) == path_of(path),
        query_of(path + seq!['?'] + query) == Some(query),
        query_of(path) is None,
        path_of(path.push('/')) == path_of(path),
        path.len() == 0 || path.last() != '/' ==> path_of(path) == path,
{
    lemma_split_at(path, '?', query);
    lemma_nowhere(path, '?');
    let slashed = path.push('/');
    assert(lacks(slashed, '?'));
    lemma_nowhere(slashed, '?');
    assert(slashed.drop_last() =~= path);
}

/// One pair of a query asks for a width where its key is `w` or `width` and its
/// value a positive number of 32 bits. A pair without an equals sign asks for
/// none.
pub proof fn law_pairs_that_ask_for_a_width(key: Seq<char>, value: Seq<char>)
    requires
        lacks(key, '='),
    ensures
        pair_width(key) is None,
        match pair_width(key + seq!['='] + value) {
            Some(n) => (key == seq!['w'] || key == seq!['w', 'i', 'd', 't', 'h']) && n > 0
                && number(value) == Some(n as nat),
            None => !(key == seq!['w'] || key == seq!['w', 'i', 'd', 't', 'h']) || !(number(
                value,
            ) matches Some(n) && 0 < n <= 4_294_967_295),
        },
{
    lemma_split_at(key, '=', value);
    lemma_nowhere(key, '=');
    reveal_strlit("w");
    reveal_strlit("width");
    assert("w"@ =~= seq!['w']);
    assert("width"@ =~= seq!['w', 'i', 'd', 't', 'h']);
}

/// Of several pairs the first that asks for a width counts.
pub proof fn law_first_width_of_a_query_counts(first: Seq<char>, rest: Seq<char>)
    requires
        lacks(first, '&'),
    ensures
        query_width(first) == pair_width(first),
        pair_width(first) is Some ==> query_width(first + seq!['&'] + rest) == pair_width(first),
        pair_width(first) is None ==> query_width(first + seq!['&'] + rest) == query_width(rest),
{
    lemma_split_at(first, '&', rest);
    lemma_nowhere(first, '&');
}

/// The endpoint behind a path of a window: what stands between the two ends is
/// the id.
pub open spec fn window_path(path: Seq<char>, id: Seq<char>, suffix: Seq<char>) -> bool {
    path == "/windows/"@ + id + suffix
}

proof fn lemma_window_path(path: Seq<char>, suffix: Seq<char>)
    ensures
        of_window(path, suffix) ==> window_path(path, window_part(path, suffix), suffix),
        forall|id: Seq<char>| #[trigger]
            window_path(path, id, suffix) ==> of_window(path, suffix) && window_part(path, suffix)
                == id,
{
    let head = "/windows/"@;
    if of_window(path, suffix) {
        let id = window_part(path, suffix);
        assert(path =~= head + id + suffix) by {
            assert forall|k: int| 0 <= k < path.len() implies #[trigger] path[k] == (head + id
                + suffix)[k] by {
                if k >= path.len() - suffix.len() {
                    assert(suffix[k - (path.len() - suffix.len())] == path[k]);
                }
            }
        }
    }
    assert forall|id: Seq<char>| #[trigger] window_path(path, id, suffix) implies of_window(
        path,
        suffix,
    ) && window_part(path, suffix) == id by {
        assert(head =~= path.subrange(0, head.len() as int));
        assert(suffix =~= path.subrange(path.len() - suffix.len(), path.len() as int));
        assert(window_part(path, suffix) =~= id);
    }
}

/// A request is answered by the endpoint that its method and its path name, and
/// the endpoint gets the id or the name that stands in the path. No endpoint
/// answers to both methods.
pub proof fn law_endpoints_answer_to_their_paths(method: Method, url: Seq<char>, r: Route)
    requires
        is_route(method, url, r),
    ensures
        ({
            let path = path_of(url);
            match r {
                Route::Root => method == Method::Get && path.len() == 0,
                Route::State => method == Method::Get && path == "/state"@,
                Route::Windows => method == Method::Get && path == "/windows"@,
                Route::Monitors => method == Method::Get && path == "/monitors"@,
                Route::MoveToMonitor { id } => method == Method::Post && window_path(
                    path,
                    id@,
                    "/move-to-monitor"@,
                ),
                Route::Resize { id } => method == Method::Post && window_path(
                    path,
                    id@,
                    "/resize"@,
                ),
                Route::Wake { id } => method == Method::Post && window_path(path, id@, "/wake"@),
                Route::Thumbnail { id, max_width } => method == Method::Get && window_path(
                    path,
                    id@,
                    "/thumbnail"@,
                ) && (query_of(url) is None ==> max_width is None) && (query_of(url) matches Some(q)
                    ==> max_width == query_width(q)),
                Route::Focus { id } => method == Method::Post && path == "/focus/"@ + id@,
                Route::Scroll => method == Method::Post && path == "/scroll"@,
                Route::Action { name } => method == Method::Post && path == "/action/"@ + name@,
                Route::NotFound => true,
            }
        }),
{
    let path = path_of(url);
    lemma_window_path(path, "/move-to-monitor"@);
    lemma_window_path(path, "/resize"@);
    lemma_window_path(path, "/wake"@);
    lemma_window_path(path, "/thumbnail"@);
    if "/focus/"@.is_prefix_of(path) {
        assert(path =~= "/focus/"@ + after(path, "/focus/"@));
    }
    if "/action/"@.is_prefix_of(path) {
        assert(path =~= "/action/"@ + after(path, "/action/"@));
    }
}

/// Every endpoint can be reached: no request that names one comes to nothing.
pub proof fn law_named_endpoints_are_found(
    method: Method,
    url: Seq<char>,
    r: Route,
    part: Seq<char>,
)
    requires
        is_route(method, url, r),
    ensures
        ({
            let path = path_of(url);
            let get = method == Method::Get;
            let post = method == Method::Post;
            r is NotFound ==> !{
                ||| get && path.len() == 0
                ||| get && (path == "/state"@ || path == "/windows"@ || path == "/monitors"@)
                ||| get && window_path(path, part, "/thumbnail"@)
                ||| post && path == "/scroll"@
                ||| post && window_path(path, part, "/move-to-monitor"@)
                ||| post && window_path(path, part, "/resize"@)
                ||| post && window_path(path, part, "/wake"@)
                ||| post && path == "/focus/"@ + part
                ||| post && path == "/action/"@ + part
            }
        }),
{
    let path = path_of(url);
    lemma_window_path(path, "/move-to-monitor"@);
    lemma_window_path(path, "/resize"@);
    lemma_window_path(path, "/wake"@);
    lemma_window_path(path, "/thumbnail"@);
    if path == "/focus/"@ + part {
        assert("/focus/"@ =~= path.subrange(0, "/focus/"@.len() as int));
    }
    if path == "/action/"@ + part {
        assert("/action/"@ =~= path.subrange(0, "/action/"@.len() as int));
    }
}

/// The id of a window is its handle in decimal.
pub proof fn law_ids_are_handles_in_decimal(hwnd: u64)
    ensures
        hwnd_of(decimal(hwnd as nat)) == Some(hwnd as nat),
{
    law_decimal_reads_back(hwnd as nat);
}

} // verus!
