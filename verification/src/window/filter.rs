//! Which windows are tiled.
use vstd::prelude::*;

use crate::config::{any_rule_matches, listed, some_rule_applies, Config};
use crate::text::{contains, holds, occurs_at, occurs_in, same};
use crate::window::{dialog_style, Desktop, Observed, Window, WS_EX_TOOLWINDOW};

verus! {

/// Whether windows of this class are never tiled.
pub open spec fn builtin_class(c: Seq<char>) -> bool {
    ||| c == "Progman"@
    ||| c == "TopLevelWindowForOverflowXamlIsland"@
    ||| c == "XamlExplorerHostIslandWindow"@
    ||| c == "Xaml_WindowedPopupClass"@
    ||| c == "Shell_TrayWnd"@
    ||| c == "FindMyMouse"@
    ||| c == "Microsoft.UI.Content.PopupWindowSiteBridge"@
    ||| c == "Winri_IgnoreWindowClass"@
}

fn is_builtin_class(class: &str) -> (r: bool)
    ensures
        r == builtin_class(class@),
{
    same(class, "Progman") || same(class, "TopLevelWindowForOverflowXamlIsland") || same(
        class,
        "XamlExplorerHostIslandWindow",
    ) || same(class, "Xaml_WindowedPopupClass") || same(class, "Shell_TrayWnd") || same(
        class,
        "FindMyMouse",
    ) || same(class, "Microsoft.UI.Content.PopupWindowSiteBridge") || same(
        class,
        "Winri_IgnoreWindowClass",
    )
}

/// Whether windows of this executable are never tiled.
pub open spec fn builtin_process(p: Seq<char>) -> bool {
    ||| p == "Microsoft.CmdPal.UI.exe"@
    ||| p == "PowerToys.MeasureToolUI.exe"@
    ||| p == "ShareX.exe"@
    ||| p == "SnippingTool.exe"@
    ||| p == "PowerToys.PowerLauncher.exe"@
    ||| p == "Ditto.exe"@
}

fn is_builtin_process(process: &str) -> (r: bool)
    ensures
        r == builtin_process(process@),
{
    same(process, "Microsoft.CmdPal.UI.exe") || same(process, "PowerToys.MeasureToolUI.exe")
        || same(process, "ShareX.exe") || same(process, "SnippingTool.exe") || same(
        process,
        "PowerToys.PowerLauncher.exe",
    ) || same(process, "Ditto.exe")
}

/// A fact the filter needs could not be had.
#[derive(Debug, Clone, Copy, PartialEq, Eq, Structural)]
pub struct QueryFailed;

/// `Some(reject)` with the answer of a check, `None` where its fact is missing.
pub open spec fn rejects_if(fact: Option<bool>, when: bool) -> Option<bool> {
    match fact {
        Some(b) => Some(b == when),
        None => None,
    }
}

/// The answers of the checks on a valid window, in the order they are made.
pub open spec fn checks(o: Observed, cfg: Config) -> Seq<Option<bool>> {
    let titles = cfg.filter.ignored_window_titles@;
    seq![
        rejects_if(o.visible, false),
        rejects_if(o.cloaked, true),
        match o.ancestor {
            Some(a) => Some(a != o.window),
            None => None,
        },
        match o.style {
            Some(s) => Some(dialog_style(s)),
            None => None,
        },
        match o.ex_style {
            Some(s) => Some(s & WS_EX_TOOLWINDOW != 0),
            None => None,
        },
        rejects_if(o.has_owner, true),
        match o.title {
            Some(Some(t)) => Some(occurs_in(t@, "[Winri Ignore Window]"@)),
            Some(None) => Some(true),
            None => None,
        },
        match o.class {
            Some(c) => Some(builtin_class(c@)),
            None => None,
        },
        match o.process {
            Some(p) => Some(
                builtin_process(p@) || listed(cfg.filter.ignored_classes@, o.class->0@)
                    || listed(cfg.filter.ignored_processes@, p@) || some_rule_applies(
                    titles,
                    p@,
                    o.title->0->0@,
                    o.class->0@,
                ),
            ),
            None => None,
        },
    ]
}

/// The first check that rejects, or whose fact is missing, decides; a window
/// that passes them all is tiled.
pub open spec fn verdict(answers: Seq<Option<bool>>) -> Result<bool, QueryFailed>
    decreases answers.len(),
{
    if answers.len() == 0 {
        Ok(true)
    } else {
        match answers[0] {
            None => Err(QueryFailed),
            Some(true) => Ok(false),
            Some(false) => verdict(answers.drop_first()),
        }
    }
}

pub open spec fn tile_verdict(desk: Desktop, w: Window, cfg: Config) -> Result<bool, QueryFailed> {
    match desk.facts(w) {
        Some(o) => if desk.valid(w) {
            verdict(checks(o, cfg))
        } else {
            Err(QueryFailed)
        },
        None => Err(QueryFailed),
    }
}

/// The check at `k` decides when all before it pass.
proof fn lemma_verdict(answers: Seq<Option<bool>>, k: int)
    requires
        0 <= k <= answers.len(),
        forall|j: int| 0 <= j < k ==> answers[j] == Some(false),
        k < answers.len() ==> answers[k] != Some(false),
    ensures
        verdict(answers) == (if k == answers.len() {
            Ok(true)
        } else if answers[k] is None {
            Err(QueryFailed)
        } else {
            Ok(false)
        }),
    decreases k,
{
    if k > 0 {
        let rest = answers.drop_first();
        assert forall|j: int| 0 <= j < k - 1 implies rest[j] == Some(false) by {
            assert(answers[j + 1] == Some(false));
        }
        lemma_verdict(rest, k - 1);
    }
}

/// Whether the window belongs into the strip.
pub fn should_be_tiled(window: Window, desk: &Desktop, cfg: &Config) -> (r: Result<
    bool,
    QueryFailed,
>)
    ensures
        r == tile_verdict(*desk, window, *cfg),
{
    if !window.is_valid(desk) {
        return Err(QueryFailed);
    }
    let o: &Observed = match desk.look_up(window) {
        Some(o) => o,
        None => {
            return Err(QueryFailed);
        },
    };
    proof {
        crate::window::lemma_facts_window(*desk, window);
    }
    let ghost answers = checks(*o, *cfg);
    match window.is_visible(desk) {
        Some(true) => {},
        Some(false) => {
            proof {
                lemma_verdict(answers, 0);
            }
            return Ok(false);
        },
        None => {
            proof {
                lemma_verdict(answers, 0);
            }
            return Err(QueryFailed);
        },
    }
    match o.cloaked {
        Some(false) => {},
        Some(true) => {
            proof {
                lemma_verdict(answers, 1);
            }
            return Ok(false);
        },
        None => {
            proof {
                lemma_verdict(answers, 1);
            }
            return Err(QueryFailed);
        },
    }
    match window.is_ancestor(desk) {
        Some(true) => {},
        Some(false) => {
            proof {
                lemma_verdict(answers, 2);
            }
            return Ok(false);
        },
        None => {
            proof {
                lemma_verdict(answers, 2);
            }
            return Err(QueryFailed);
        },
    }
    match window.is_dialog(desk) {
        Some(false) => {},
        Some(true) => {
            proof {
                lemma_verdict(answers, 3);
            }
            return Ok(false);
        },
        None => {
            proof {
                lemma_verdict(answers, 3);
            }
            return Err(QueryFailed);
        },
    }
    match window.is_tool_window(desk) {
        Some(false) => {},
        Some(true) => {
            proof {
                lemma_verdict(answers, 4);
            }
            return Ok(false);
        },
        None => {
            proof {
                lemma_verdict(answers, 4);
            }
            return Err(QueryFailed);
        },
    }
    match window.has_owner(desk) {
        Some(false) => {},
        Some(true) => {
            proof {
                lemma_verdict(answers, 5);
            }
            return Ok(false);
        },
        None => {
            proof {
                lemma_verdict(answers, 5);
            }
            return Err(QueryFailed);
        },
    }
    let title: &String = match &o.title {
        Some(Some(t)) => {
            if contains(t.as_str(), "[Winri Ignore Window]") {
                proof {
                    lemma_verdict(answers, 6);
                }
                return Ok(false);
            }
            t
        },
        Some(None) => {
            proof {
                lemma_verdict(answers, 6);
            }
            return Ok(false);
        },
        None => {
            proof {
                lemma_verdict(answers, 6);
            }
            return Err(QueryFailed);
        },
    };
    let class: &String = match &o.class {
        Some(c) => {
            if is_builtin_class(c.as_str()) {
                proof {
                    lemma_verdict(answers, 7);
                }
                return Ok(false);
            }
            c
        },
        None => {
            proof {
                lemma_verdict(answers, 7);
            }
            return Err(QueryFailed);
        },
    };
    match &o.process {
        Some(p) => {
            let rejected: bool = is_builtin_process(p.as_str()) || holds(
                &cfg.filter.ignored_classes,
                class.as_str(),
            ) || holds(&cfg.filter.ignored_processes, p.as_str()) || any_rule_matches(
                &cfg.filter.ignored_window_titles,
                p.as_str(),
                title.as_str(),
                class.as_str(),
            );
            proof {
                lemma_verdict(
                    answers,
                    if rejected {
                        8int
                    } else {
                        9int
                    },
                );
            }
            Ok(!rejected)
        },
        None => {
            proof {
                lemma_verdict(answers, 8);
            }
            Err(QueryFailed)
        },
    }
}

/// The windows that the filter lets through, in the order they were observed.
pub open spec fn opened(desk: Desktop, cfg: Config, upto: int) -> Seq<Window>
    decreases upto,
{
    if upto <= 0 {
        seq![]
    } else {
        let w = desk.observed@[upto - 1].window;
        let before = opened(desk, cfg, upto - 1);
        if tile_verdict(desk, w, cfg) == Ok::<bool, QueryFailed>(true) && !before.contains(w) {
            before.push(w)
        } else {
            before
        }
    }
}

pub proof fn lemma_opened_len(desk: Desktop, cfg: Config, upto: int)
    requires
        upto >= 0,
    ensures
        opened(desk, cfg, upto).len() <= upto,
    decreases upto,
{
    if upto > 0 {
        lemma_opened_len(desk, cfg, upto - 1);
    }
}

/// All windows to tile, each once.
pub fn opened_windows(desk: &Desktop, cfg: &Config) -> (r: Vec<Window>)
    ensures
        r@ == opened(*desk, *cfg, desk.observed@.len() as int),
        r@.no_duplicates(),
        forall|w: Window| #[trigger]
            r@.contains(w) ==> tile_verdict(*desk, w, *cfg) == Ok::<bool, QueryFailed>(true),
        forall|i: int|
            0 <= i < desk.observed@.len() && tile_verdict(
                *desk,
                (#[trigger] desk.observed@[i]).window,
                *cfg,
            ) == Ok::<bool, QueryFailed>(true) ==> r@.contains(desk.observed@[i].window),
{
    let mut out: Vec<Window> = Vec::new();
    let mut i: usize = 0;
    while i < desk.observed.len()
        invariant
            i <= desk.observed.len(),
            out@ == opened(*desk, *cfg, i as int),
            out@.no_duplicates(),
            forall|w: Window| #[trigger]
                out@.contains(w) ==> tile_verdict(*desk, w, *cfg) == Ok::<bool, QueryFailed>(true),
            forall|j: int|
                0 <= j < i && tile_verdict(*desk, (#[trigger] desk.observed@[j]).window, *cfg)
                    == Ok::<bool, QueryFailed>(true) ==> out@.contains(desk.observed@[j].window),
        decreases desk.observed.len() - i,
    {
        let w: Window = desk.observed[i].window;
        let tiled: bool = match should_be_tiled(w, desk, cfg) {
            Ok(b) => b,
            Err(_) => false,
        };
        let ghost before = out@;
        if tiled && !in_list(&out, w) {
            out.push(w);
            proof {
                assert(out@[out@.len() - 1] == w);
                assert forall|v: Window| #[trigger] out@.contains(v) implies v == w
                    || before.contains(v) by {
                    let k = choose|k: int| 0 <= k < out@.len() && out@[k] == v;
                    if k < before.len() {
                        assert(before[k] == v);
                    }
                }
                assert forall|v: Window| before.contains(v) implies #[trigger] out@.contains(v) by {
                    let k = choose|k: int| 0 <= k < before.len() && before[k] == v;
                    assert(out@[k] == v);
                }
            }
        }
        i = i + 1;
    }
    out
}

pub fn in_list(list: &Vec<Window>, w: Window) -> (r: bool)
    ensures
        r == list@.contains(w),
{
    let mut i: usize = 0;
    while i < list.len()
        invariant
            i <= list.len(),
            forall|j: int| 0 <= j < i ==> list@[j] != w,
        decreases list.len() - i,
    {
        if list[i] == w {
            return true;
        }
        i = i + 1;
    }
    false
}

/// The text stands in `s` somewhere.
pub open spec fn stands_in(s: Seq<char>, text: Seq<char>) -> bool {
    exists|before: Seq<char>, after: Seq<char>| s == #[trigger] (before + text + after)
}

proof fn lemma_stands_in(s: Seq<char>, text: Seq<char>)
    ensures
        stands_in(s, text) == occurs_in(s, text),
{
    if occurs_in(s, text) {
        let a = choose|a: int| occurs_at(s, text, a);
        let before = s.subrange(0, a);
        let after = s.subrange(a + text.len(), s.len() as int);
        assert(s =~= before + text + after) by {
            assert(s.subrange(a, a + text.len()) == text);
            assert forall|k: int| 0 <= k < s.len() implies #[trigger] s[k] == (before + text
                + after)[k] by {
                if a <= k < a + text.len() {
                    assert(s.subrange(a, a + text.len())[k - a] == s[k]);
                }
            }
        }
    }
    if stands_in(s, text) {
        let (before, after) = choose|before: Seq<char>, after: Seq<char>|
            s == #[trigger] (before + text + after);
        let a = before.len() as int;
        assert(s.subrange(a, a + text.len()) =~= text);
        assert(occurs_at(s, text, a));
    }
}

/// The binary digit of `bits` at `place` is one.
pub open spec fn flag(bits: u32, place: int) -> bool {
    bits as int / place % 2 == 1
}

/// A window without the popup flag or without a dialog frame is no dialog; one
/// with both is.
pub proof fn law_dialogs_are_popups_with_a_dialog_frame(style: u32)
    ensures
        dialog_style(style) == (flag(style, 0x8000_0000) && flag(style, 0x0040_0000)),
{
    assert(style & 0x8000_0000 == 0x8000_0000 <==> style / 0x8000_0000 % 2 == 1) by (bit_vector);
    assert(style & 0x0040_0000 == 0x0040_0000 <==> style / 0x0040_0000 % 2 == 1) by (bit_vector);
}

/// What is known of an ordinary window: visible, nobody's child and nobody's
/// own, no dialog and no palette, titled, and made by no program that draws
/// parts of the desktop.
pub open spec fn ordinary(o: Observed) -> bool {
    &&& o.visible == Some(true)
    &&& o.cloaked == Some(false)
    &&& o.ancestor == Some(o.window)
    &&& o.style matches Some(s) && !(flag(s, 0x8000_0000) && flag(s, 0x0040_0000))
    &&& o.ex_style matches Some(s) && !flag(s, 0x80)
    &&& o.has_owner == Some(false)
    &&& o.title matches Some(Some(t)) && !stands_in(t@, "[Winri Ignore Window]"@)
    &&& o.class matches Some(c) && !seq![
        "Progman"@,
        "TopLevelWindowForOverflowXamlIsland"@,
        "XamlExplorerHostIslandWindow"@,
        "Xaml_WindowedPopupClass"@,
        "Shell_TrayWnd"@,
        "FindMyMouse"@,
        "Microsoft.UI.Content.PopupWindowSiteBridge"@,
        "Winri_IgnoreWindowClass"@,
    ].contains(c@)
    &&& o.process matches Some(p) && !seq![
        "Microsoft.CmdPal.UI.exe"@,
        "PowerToys.MeasureToolUI.exe"@,
        "ShareX.exe"@,
        "SnippingTool.exe"@,
        "PowerToys.PowerLauncher.exe"@,
        "Ditto.exe"@,
    ].contains(p@)
}

/// The user has said nothing against the window: neither its class nor its
/// program is listed, and every rule on titles differs from it in the program,
/// in the class it names, or in the title or the beginning of one.
pub open spec fn unobjected(o: Observed, cfg: Config) -> bool {
    let class = o.class->0@;
    let process = o.process->0@;
    let title = o.title->0->0@;
    let f = cfg.filter;
    &&& forall|k: int|
        0 <= k < f.ignored_classes@.len() ==> (#[trigger] f.ignored_classes@[k])@ != class
    &&& forall|k: int|
        0 <= k < f.ignored_processes@.len() ==> (#[trigger] f.ignored_processes@[k])@ != process
    &&& forall|k: int|
        0 <= k < f.ignored_window_titles@.len() ==> {
            let rule = #[trigger] f.ignored_window_titles@[k];
            ||| rule.process@ != process
            ||| rule.class is Some && rule.class->0@ != class
            ||| rule.title is None && rule.title_starts_with is None
            ||| rule.title_starts_with is Some && !(rule.title_starts_with->0@.len() <= title.len()
                && title.take(rule.title_starts_with->0@.len() as int)
                == rule.title_starts_with->0@)
            ||| rule.title_starts_with is None && rule.title is Some && rule.title->0@ != title
        }
}

/// Exactly the ordinary windows that the user has nothing against are tiled.
/// Whatever else its style says, one without the popup flag is never taken for a
/// dialog.
pub proof fn law_ordinary_windows_are_tiled(desk: Desktop, w: Window, cfg: Config)
    requires
        desk.valid(w),
    ensures
        ({
            let o = desk.facts(w)->0;
            tile_verdict(desk, w, cfg) == Ok::<bool, QueryFailed>(true) <==> ordinary(o)
                && unobjected(o, cfg)
        }),
{
    crate::window::lemma_facts_window(desk, w);
    let o = desk.facts(w)->0;
    let answers = checks(o, cfg);
    match o.style {
        Some(s) => {
            law_dialogs_are_popups_with_a_dialog_frame(s);
        },
        None => {},
    }
    match o.ex_style {
        Some(s) => {
            assert(s & 0x80 != 0 <==> s / 0x80 % 2 == 1) by (bit_vector);
        },
        None => {},
    }
    match o.title {
        Some(Some(t)) => {
            lemma_stands_in(t@, "[Winri Ignore Window]"@);
        },
        _ => {},
    }
    match o.class {
        Some(c) => {
            lemma_builtin_class(c@);
        },
        None => {},
    }
    match o.process {
        Some(p) => {
            lemma_builtin_process(p@);
        },
        None => {},
    }
    lemma_passes(answers);
    if ordinary(o) {
        lemma_unobjected(o, cfg);
        assert(unobjected(o, cfg) ==> forall|k: int|
            0 <= k < answers.len() ==> #[trigger] answers[k] == Some(false));
        assert(!unobjected(o, cfg) ==> answers[8] == Some(true));
    } else {
        assert(answers[0] != Some(false) || answers[1] != Some(false) || answers[2] != Some(false)
            || answers[3] != Some(false) || answers[4] != Some(false) || answers[5] != Some(false)
            || answers[6] != Some(false) || answers[7] != Some(false) || answers[8] != Some(
            false,
        ));
    }
}

/// A window whose checks all pass, and no other, is tiled.
proof fn lemma_passes(answers: Seq<Option<bool>>)
    ensures
        verdict(answers) == Ok::<bool, QueryFailed>(true) <==> forall|k: int|
            0 <= k < answers.len() ==> #[trigger] answers[k] == Some(false),
    decreases answers.len(),
{
    if answers.len() > 0 {
        let rest = answers.drop_first();
        lemma_passes(rest);
        if answers[0] == Some(false) {
            assert forall|k: int|
                0 <= k < answers.len() && (forall|j: int|
                    0 <= j < rest.len() ==> #[trigger] rest[j] == Some(
                        false,
                    )) implies #[trigger] answers[k] == Some(false) by {
                if k > 0 {
                    assert(rest[k - 1] == answers[k]);
                }
            }
            assert forall|j: int|
                0 <= j < rest.len() && (forall|k: int|
                    0 <= k < answers.len() ==> #[trigger] answers[k] == Some(
                        false,
                    )) implies #[trigger] rest[j] == Some(false) by {
                assert(rest[j] == answers[j + 1]);
            }
        }
    }
}

proof fn lemma_builtin_class(c: Seq<char>)
    ensures
        builtin_class(c) == seq![
            "Progman"@,
            "TopLevelWindowForOverflowXamlIsland"@,
            "XamlExplorerHostIslandWindow"@,
            "Xaml_WindowedPopupClass"@,
            "Shell_TrayWnd"@,
            "FindMyMouse"@,
            "Microsoft.UI.Content.PopupWindowSiteBridge"@,
            "Winri_IgnoreWindowClass"@,
        ].contains(c),
{
    let all = seq![
        "Progman"@,
        "TopLevelWindowForOverflowXamlIsland"@,
        "XamlExplorerHostIslandWindow"@,
        "Xaml_WindowedPopupClass"@,
        "Shell_TrayWnd"@,
        "FindMyMouse"@,
        "Microsoft.UI.Content.PopupWindowSiteBridge"@,
        "Winri_IgnoreWindowClass"@,
    ];
    assert(all[0] == "Progman"@ && all[1] == "TopLevelWindowForOverflowXamlIsland"@ && all[2]
        == "XamlExplorerHostIslandWindow"@ && all[3] == "Xaml_WindowedPopupClass"@ && all[4]
        == "Shell_TrayWnd"@ && all[5] == "FindMyMouse"@ && all[6]
        == "Microsoft.UI.Content.PopupWindowSiteBridge"@ && all[7] == "Winri_IgnoreWindowClass"@);
}

proof fn lemma_builtin_process(p: Seq<char>)
    ensures
        builtin_process(p) == seq![
            "Microsoft.CmdPal.UI.exe"@,
            "PowerToys.MeasureToolUI.exe"@,
            "ShareX.exe"@,
            "SnippingTool.exe"@,
            "PowerToys.PowerLauncher.exe"@,
            "Ditto.exe"@,
        ].contains(p),
{
    let all = seq![
        "Microsoft.CmdPal.UI.exe"@,
        "PowerToys.MeasureToolUI.exe"@,
        "ShareX.exe"@,
        "SnippingTool.exe"@,
        "PowerToys.PowerLauncher.exe"@,
        "Ditto.exe"@,
    ];
    assert(all[0] == "Microsoft.CmdPal.UI.exe"@ && all[1] == "PowerToys.MeasureToolUI.exe"@
        && all[2] == "ShareX.exe"@ && all[3] == "SnippingTool.exe"@ && all[4]
        == "PowerToys.PowerLauncher.exe"@ && all[5] == "Ditto.exe"@);
}

proof fn lemma_unobjected(o: Observed, cfg: Config)
    ensures
        unobjected(o, cfg) == !(listed(cfg.filter.ignored_classes@, o.class->0@) || listed(
            cfg.filter.ignored_processes@,
            o.process->0@,
        ) || some_rule_applies(
            cfg.filter.ignored_window_titles@,
            o.process->0@,
            o.title->0->0@,
            o.class->0@,
        )),
{
    let class = o.class->0@;
    let process = o.process->0@;
    let title = o.title->0->0@;
    let rules = cfg.filter.ignored_window_titles@;
    assert forall|k: int| 0 <= k < rules.len() implies (#[trigger] rules[k]).applies_to(
        process,
        title,
        class,
    ) == !{
        let rule = rules[k];
        ||| rule.process@ != process
        ||| rule.class is Some && rule.class->0@ != class
        ||| rule.title is None && rule.title_starts_with is None
        ||| rule.title_starts_with is Some && !(rule.title_starts_with->0@.len() <= title.len()
            && title.take(rule.title_starts_with->0@.len() as int) == rule.title_starts_with->0@)
        ||| rule.title_starts_with is None && rule.title is Some && rule.title->0@ != title
    } by {
        let rule = rules[k];
        if rule.title_starts_with is Some {
            let p = rule.title_starts_with->0@;
            if p.len() <= title.len() {
                assert(title.take(p.len() as int) =~= title.subrange(0, p.len() as int));
            }
        }
    }
    assert forall|k: int|
        0 <= k < cfg.filter.ignored_classes@.len() && (
        #[trigger] cfg.filter.ignored_classes@[k])@ == class implies listed(
        cfg.filter.ignored_classes@,
        class,
    ) by {}
    assert forall|k: int|
        0 <= k < cfg.filter.ignored_processes@.len() && (
        #[trigger] cfg.filter.ignored_processes@[k])@ == process implies listed(
        cfg.filter.ignored_processes@,
        process,
    ) by {}
}

/// The windows to tile are those that were observed and are let through, each
/// once.
pub proof fn law_windows_to_tile_are_those_let_through(
    desk: Desktop,
    cfg: Config,
    upto: int,
    w: Window,
)
    requires
        0 <= upto <= desk.observed@.len(),
    ensures
        opened(desk, cfg, upto).no_duplicates(),
        opened(desk, cfg, upto).contains(w) <==> tile_verdict(desk, w, cfg) == Ok::<
            bool,
            QueryFailed,
        >(true) && exists|i: int| 0 <= i < upto && (#[trigger] desk.observed@[i]).window == w,
    decreases upto,
{
    if upto > 0 {
        law_windows_to_tile_are_those_let_through(desk, cfg, upto - 1, w);
        let before = opened(desk, cfg, upto - 1);
        let r = opened(desk, cfg, upto);
        let v = desk.observed@[upto - 1].window;
        law_windows_to_tile_are_those_let_through(desk, cfg, upto - 1, v);
        let pushed = before.push(v);
        assert(pushed.contains(w) <==> before.contains(w) || v == w) by {
            if before.contains(w) {
                let k = choose|k: int| 0 <= k < before.len() && before[k] == w;
                assert(pushed[k] == w);
            }
            if v == w {
                assert(pushed[before.len() as int] == w);
            }
            if pushed.contains(w) {
                let k = choose|k: int| 0 <= k < pushed.len() && pushed[k] == w;
                if k < before.len() {
                    assert(before[k] == w);
                }
            }
        }
        if exists|i: int| 0 <= i < upto - 1 && (#[trigger] desk.observed@[i]).window == w {
            let i = choose|i: int|
                0 <= i < upto - 1 && (#[trigger] desk.observed@[i]).window == w;
            assert(0 <= i < upto && desk.observed@[i].window == w);
        }
        if v == w {
            assert(desk.observed@[upto - 1].window == w);
        }
    }
}

} // verus!
