//! Everything that can be said of one window, as text for the log.
use vstd::prelude::*;

use crate::geometry::{magnitude, Rect};
use crate::text::{decimal, decimal_text, hexadecimal, hexadecimal_text, quoted, quoted_text};
use crate::window::{dialog_style, Desktop, Window};

verus! {

/// The outcome of a query: its value, or that it failed.
pub open spec fn outcome(value: Option<Seq<char>>) -> Seq<char> {
    match value {
        Some(v) => "Ok("@ + v + ")"@,
        None => "Err(unknown)"@,
    }
}

fn outcome_text(value: Option<String>) -> (r: String)
    ensures
        r@ == outcome(
            match value {
                Some(v) => Some(v@),
                None => None,
            },
        ),
{
    match value {
        Some(v) => {
            let mut out: String = "Ok(".to_owned();
            out.append(v.as_str());
            out.append(")");
            out
        },
        None => "Err(unknown)".to_owned(),
    }
}

pub open spec fn flag(value: Option<bool>) -> Seq<char> {
    outcome(
        match value {
            Some(true) => Some("true"@),
            Some(false) => Some("false"@),
            None => None,
        },
    )
}

fn flag_text(value: Option<bool>) -> (r: String)
    ensures
        r@ == flag(value),
{
    match value {
        Some(true) => outcome_text(Some("true".to_owned())),
        Some(false) => outcome_text(Some("false".to_owned())),
        None => outcome_text(None),
    }
}

pub open spec fn phrase(value: Option<Seq<char>>) -> Seq<char> {
    outcome(
        match value {
            Some(v) => Some(quoted(v)),
            None => None,
        },
    )
}

fn phrase_text(value: Option<String>) -> (r: String)
    ensures
        r@ == phrase(
            match value {
                Some(v) => Some(v@),
                None => None,
            },
        ),
{
    match value {
        Some(v) => outcome_text(Some(quoted_text(v.as_str()))),
        None => outcome_text(None),
    }
}

/// A title, which may be there or not.
pub open spec fn title(value: Option<Option<String>>) -> Seq<char> {
    outcome(
        match value {
            Some(Some(t)) => Some("Some("@ + quoted(t@) + ")"@),
            Some(None) => Some("None"@),
            None => None,
        },
    )
}

fn title_text(value: Option<Option<String>>) -> (r: String)
    ensures
        r@ == title(value),
{
    match value {
        Some(Some(t)) => {
            let mut out: String = "Some(".to_owned();
            out.append(quoted_text(t.as_str()).as_str());
            out.append(")");
            outcome_text(Some(out))
        },
        Some(None) => outcome_text(Some("None".to_owned())),
        None => outcome_text(None),
    }
}

/// A whole number of pixels.
pub open spec fn pixels(v: int) -> Seq<char> {
    let digits = decimal(magnitude(v) as nat) + ".0"@;
    if v < 0 {
        "-"@ + digits
    } else {
        digits
    }
}

fn pixels_text(v: i64) -> (r: String)
    ensures
        r@ == pixels(v as int),
{
    let wide: i128 = v as i128;
    let digits: String = decimal_text(
        if wide < 0 {
            (-wide) as u64
        } else {
            wide as u64
        },
    );
    let mut out: String = if v < 0 {
        "-".to_owned()
    } else {
        "".to_owned()
    };
    out.append(digits.as_str());
    out.append(".0");
    proof {
        reveal_strlit("");
        assert(out@ =~= pixels(v as int));
    }
    out
}

pub open spec fn edges(value: Option<Rect>) -> Seq<char> {
    outcome(
        match value {
            Some(r) => Some(
                "Bounds { left: "@ + pixels(r.left as int) + ", top: "@ + pixels(r.top as int)
                    + ", right: "@ + pixels(r.right as int) + ", bottom: "@ + pixels(
                    r.bottom as int,
                ) + " }"@,
            ),
            None => None,
        },
    )
}

fn edges_text(value: Option<Rect>) -> (r: String)
    ensures
        r@ == edges(value),
{
    match value {
        Some(rect) => {
            let mut out: String = "Bounds { left: ".to_owned();
            out.append(pixels_text(rect.left as i64).as_str());
            out.append(", top: ");
            out.append(pixels_text(rect.top as i64).as_str());
            out.append(", right: ");
            out.append(pixels_text(rect.right as i64).as_str());
            out.append(", bottom: ");
            out.append(pixels_text(rect.bottom as i64).as_str());
            out.append(" }");
            outcome_text(Some(out))
        },
        None => outcome_text(None),
    }
}

/// The borders that do not show, in whole pixels: left, top, right, bottom.
pub open spec fn borders(frame: Option<Rect>, outer: Option<Rect>) -> Seq<char> {
    outcome(
        match (frame, outer) {
            (Some(f), Some(o)) => Some(
                "["@ + pixels(magnitude(o.left - f.left)) + ", "@ + pixels(
                    magnitude(o.top - f.top),
                ) + ", "@ + pixels(magnitude(o.right - f.right)) + ", "@ + pixels(
                    magnitude(o.bottom - f.bottom),
                ) + "]"@,
            ),
            _ => None,
        },
    )
}

fn apart(a: i32, b: i32) -> (r: i64)
    ensures
        r == magnitude(a - b),
{
    let d: i64 = a as i64 - b as i64;
    if d < 0 {
        -d
    } else {
        d
    }
}

fn borders_text(frame: Option<Rect>, outer: Option<Rect>) -> (r: String)
    ensures
        r@ == borders(frame, outer),
{
    match (frame, outer) {
        (Some(f), Some(o)) => {
            let mut out: String = "[".to_owned();
            out.append(pixels_text(apart(o.left, f.left)).as_str());
            out.append(", ");
            out.append(pixels_text(apart(o.top, f.top)).as_str());
            out.append(", ");
            out.append(pixels_text(apart(o.right, f.right)).as_str());
            out.append(", ");
            out.append(pixels_text(apart(o.bottom, f.bottom)).as_str());
            out.append("]");
            outcome_text(Some(out))
        },
        _ => outcome_text(None),
    }
}

pub open spec fn handle(value: Option<Window>) -> Seq<char> {
    outcome(
        match value {
            Some(w) => Some("Window { hwnd: "@ + decimal(w.hwnd as nat) + " }"@),
            None => None,
        },
    )
}

fn handle_text(value: Option<Window>) -> (r: String)
    ensures
        r@ == handle(value),
{
    match value {
        Some(w) => {
            let mut out: String = "Window { hwnd: ".to_owned();
            out.append(decimal_text(w.hwnd).as_str());
            out.append(" }");
            outcome_text(Some(out))
        },
        None => outcome_text(None),
    }
}

pub open spec fn number(value: Option<u32>) -> Seq<char> {
    outcome(
        match value {
            Some(n) => Some(decimal(n as nat)),
            None => None,
        },
    )
}

fn number_text(value: Option<u32>) -> (r: String)
    ensures
        r@ == number(value),
{
    match value {
        Some(n) => outcome_text(Some(decimal_text(n as u64))),
        None => outcome_text(None),
    }
}

/// One line of the text.
pub open spec fn line(name: Seq<char>, value: Seq<char>) -> Seq<char> {
    "\n\t"@ + name + ": "@ + value
}

fn push_line(out: &mut String, name: &str, value: String)
    ensures
        final(out)@ == old(out)@ + line(name@, value@),
{
    let ghost before = out@;
    out.append("\n\t");
    out.append(name);
    out.append(": ");
    out.append(value.as_str());
    proof {
        assert(out@ =~= before + line(name@, value@));
    }
}

impl Desktop {
    /// Whether the handle of `w` denotes a window, where that is known.
    pub open spec fn validity(self, w: Window) -> Option<bool> {
        if w.hwnd == 0 {
            Some(false)
        } else {
            match self.facts(w) {
                Some(o) => o.valid,
                None => None,
            }
        }
    }

    pub open spec fn title_of(self, w: Window) -> Option<Option<String>> {
        match self.facts(w) {
            Some(o) if self.valid(w) => o.title,
            _ => None,
        }
    }

    pub open spec fn visibility(self, w: Window) -> Option<bool> {
        match self.facts(w) {
            Some(o) if self.valid(w) => o.visible,
            _ => None,
        }
    }

    pub open spec fn cloaking(self, w: Window) -> Option<bool> {
        match self.facts(w) {
            Some(o) if self.valid(w) => o.cloaked,
            _ => None,
        }
    }

    pub open spec fn ancestor_of(self, w: Window) -> Option<Window> {
        match self.facts(w) {
            Some(o) if self.valid(w) => o.ancestor,
            _ => None,
        }
    }

    pub open spec fn dialog(self, w: Window) -> Option<bool> {
        match self.facts(w) {
            Some(o) => match o.style {
                Some(s) if self.valid(w) => Some(dialog_style(s)),
                _ => None,
            },
            None => None,
        }
    }
}

/// What is known of a window: a heading with its handle, and a line for each
/// query. The process and the client area are not part of a [`Desktop`].
pub open spec fn extensive_info(
    w: Window,
    desk: Desktop,
    process_id: Option<u32>,
    client: Option<Rect>,
) -> Seq<char> {
    "Window HWND(0x"@ + hexadecimal(w.hwnd as nat) + ") info:"@ + line(
        "is_valid"@,
        flag(desk.validity(w)),
    ) + line("title"@, title(desk.title_of(w))) + line("process_id"@, number(process_id)) + line(
        "process_name"@,
        phrase(desk.process_of(w)),
    ) + line("class"@, phrase(desk.class_of(w))) + line("is_visible"@, flag(desk.visibility(w)))
        + line("is_cloaked"@, flag(desk.cloaking(w))) + line(
        "ancestor"@,
        handle(desk.ancestor_of(w)),
    ) + line(
        "is_ancestor"@,
        flag(
            match desk.ancestor_of(w) {
                Some(a) => Some(a == w),
                None => None,
            },
        ),
    ) + line("outer_bounds"@, edges(desk.outer_of(w))) + line("inner_bounds"@, edges(client))
        + line("desktop_manager_bounds"@, edges(desk.frame_of(w))) + line(
        "padding"@,
        borders(desk.frame_of(w), desk.outer_of(w)),
    ) + line(
        "is_focused"@,
        flag(
            match desk.foreground {
                Some(f) if desk.valid(w) => Some(f == w),
                _ => None,
            },
        ),
    ) + line("is_dialog"@, flag(desk.dialog(w)))
}

impl Window {
    fn known_validity(self, desk: &Desktop) -> (r: Option<bool>)
        ensures
            r == desk.validity(self),
    {
        if self.hwnd == 0 {
            return Some(false);
        }
        match desk.look_up(self) {
            Some(o) => o.valid,
            None => None,
        }
    }

    fn known_title(self, desk: &Desktop) -> (r: String)
        ensures
            r@ == title(desk.title_of(self)),
    {
        title_text(self.title(desk))
    }

    fn known_cloaking(self, desk: &Desktop) -> (r: Option<bool>)
        ensures
            r == desk.cloaking(self),
    {
        if !self.is_valid(desk) {
            return None;
        }
        match desk.look_up(self) {
            Some(o) => o.cloaked,
            None => None,
        }
    }

    fn outer_frame(self, desk: &Desktop) -> (r: Option<Rect>)
        ensures
            r == desk.outer_of(self),
    {
        if !self.is_valid(desk) {
            return None;
        }
        match desk.look_up(self) {
            Some(o) => o.outer,
            None => None,
        }
    }

    /// Everything that is known of the window, line by line.
    pub fn get_formatted_extensive_info(
        self,
        desk: &Desktop,
        process_id: Option<u32>,
        client: Option<Rect>,
    ) -> (r: String)
        ensures
            r@ == extensive_info(self, *desk, process_id, client),
    {
        let frame: Option<Rect> = self.frame(desk);
        let outer: Option<Rect> = self.outer_frame(desk);
        let mut out: String = "Window HWND(0x".to_owned();
        out.append(hexadecimal_text(self.hwnd).as_str());
        out.append(") info:");
        push_line(&mut out, "is_valid", flag_text(self.known_validity(desk)));
        push_line(&mut out, "title", self.known_title(desk));
        push_line(&mut out, "process_id", number_text(process_id));
        push_line(&mut out, "process_name", phrase_text(self.process_name(desk)));
        push_line(&mut out, "class", phrase_text(self.class(desk)));
        push_line(&mut out, "is_visible", flag_text(self.is_visible(desk)));
        push_line(&mut out, "is_cloaked", flag_text(self.known_cloaking(desk)));
        push_line(&mut out, "ancestor", handle_text(self.ancestor(desk)));
        push_line(&mut out, "is_ancestor", flag_text(self.is_ancestor(desk)));
        push_line(&mut out, "outer_bounds", edges_text(outer));
        push_line(&mut out, "inner_bounds", edges_text(client));
        push_line(&mut out, "desktop_manager_bounds", edges_text(frame));
        push_line(&mut out, "padding", borders_text(frame, outer));
        push_line(&mut out, "is_focused", flag_text(self.is_focused(desk)));
        push_line(&mut out, "is_dialog", flag_text(self.is_dialog(desk)));
        out
    }
}

/// The lines that tell of a window.
pub open spec fn info_lines(
    w: Window,
    desk: Desktop,
    process_id: Option<u32>,
    client: Option<Rect>,
) -> Seq<Seq<char>> {
    let o = desk.facts(w)->0;
    seq![
        line("is_valid"@, flag(Some(true))),
        line("title"@, title(o.title)),
        line("process_id"@, number(process_id)),
        line("process_name"@, phrase(desk.process_of(w))),
        line("class"@, phrase(desk.class_of(w))),
        line("is_visible"@, flag(o.visible)),
        line("is_cloaked"@, flag(o.cloaked)),
        line("ancestor"@, handle(o.ancestor)),
        line("is_ancestor"@, flag(same_window(o.ancestor, w))),
        line("outer_bounds"@, edges(o.outer)),
        line("inner_bounds"@, edges(client)),
        line("desktop_manager_bounds"@, edges(o.frame)),
        line("padding"@, borders(o.frame, o.outer)),
        line("is_focused"@, flag(same_window(desk.foreground, w))),
        line("is_dialog"@, flag(desk.dialog(w))),
    ]
}

/// Whether the window, where it is known, is `w`.
pub open spec fn same_window(v: Option<Window>, w: Window) -> Option<bool> {
    match v {
        Some(a) => Some(a == w),
        None => None,
    }
}

/// The texts one behind the other.
pub open spec fn joined(parts: Seq<Seq<char>>, upto: int) -> Seq<char>
    decreases upto,
{
    if upto <= 0 {
        seq![]
    } else {
        joined(parts, upto - 1) + parts[upto - 1]
    }
}

/// What is told of a valid window is one line for each fact that was observed,
/// behind a heading with its handle.
pub proof fn law_info_tells_what_was_observed(
    w: Window,
    desk: Desktop,
    process_id: Option<u32>,
    client: Option<Rect>,
)
    requires
        desk.valid(w),
    ensures
        extensive_info(w, desk, process_id, client) == "Window HWND(0x"@ + hexadecimal(
            w.hwnd as nat,
        ) + ") info:"@ + joined(info_lines(w, desk, process_id, client), 15),
{
    let parts = info_lines(w, desk, process_id, client);
    let head = "Window HWND(0x"@ + hexadecimal(w.hwnd as nat) + ") info:"@;
    reveal_with_fuel(joined, 16);
    assert(head + joined(parts, 0) =~= head);
    lemma_step(head, parts, 0);
    lemma_step(head, parts, 1);
    lemma_step(head, parts, 2);
    lemma_step(head, parts, 3);
    lemma_step(head, parts, 4);
    lemma_step(head, parts, 5);
    lemma_step(head, parts, 6);
    lemma_step(head, parts, 7);
    lemma_step(head, parts, 8);
    lemma_step(head, parts, 9);
    lemma_step(head, parts, 10);
    lemma_step(head, parts, 11);
    lemma_step(head, parts, 12);
    lemma_step(head, parts, 13);
    lemma_step(head, parts, 14);
}

proof fn lemma_step(head: Seq<char>, parts: Seq<Seq<char>>, k: int)
    requires
        0 <= k < parts.len(),
    ensures
        head + joined(parts, k + 1) == head + joined(parts, k) + parts[k],
{
    assert(head + joined(parts, k + 1) =~= head + joined(parts, k) + parts[k]);
}

} // verus!
