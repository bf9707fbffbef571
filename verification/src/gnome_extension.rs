//! The GNOME Shell extension that lets the remote clicker find and raise
//! windows under Wayland: when it applies, what its state means for the
//! user, and the window list it reports.
use vstd::prelude::*;
use vstd::string::StringSliceAdditionalSpecFns;
use vstd::utf8::*;

use crate::text::{
    lemma_seq_less_order, trim_seq, ascii_lower_seq, ascii_upper_seq, contains, contains_seq, decimal, push_decimal, seq_less, str_eq, str_less,
    to_ascii_lowercase, to_ascii_uppercase,
};
use crate::types::PresentationWindow;
use crate::utf8_text::{lemma_str_bytes, lines_bytes, split_first_line, trim_bytes, trim_str};

verus! {

broadcast use vstd::utf8::group_utf8_lib;

/// The extension's UUID.
pub const EXTENSION_UUID: &'static str = "window-targeting@casa.tafu.tandem";

/// What the user interface shows about the extension.
#[derive(Debug, Clone)]
pub struct GnomeExtensionStatus {
    pub applicable: bool,
    pub installed: bool,
    pub enabled: bool,
    pub active: bool,
    pub needs_logout: bool,
    pub message: Option<String>,
}

/// `Log out and sign back in once so Tandem can find browser and app windows for the remote clicker.`
pub open spec fn logout_message() -> Seq<char> {
    "Log out and sign back in once so Tandem can find browser and app windows for the remote clicker."@
}

/// `Tandem could not finish setting up the remote clicker.`
pub open spec fn setup_failed_message() -> Seq<char> {
    "Tandem could not finish setting up the remote clicker."@
}

/// `status`: on a desktop where the extension does not apply everything is
/// off; otherwise the installed files, the enabled flag and whether the
/// extension answers are reported, and the user is told to log out when the
/// extension is installed but not running yet, or that setup failed when it
/// is not installed.
pub fn extension_status(applicable: bool, installed: bool, enabled: bool, active: bool) -> (s: GnomeExtensionStatus)
    ensures
        s.applicable == applicable,
        !applicable ==> !s.installed && !s.enabled && !s.active && !s.needs_logout && s.message is None,
        applicable ==> {
            &&& s.installed == installed
            &&& s.enabled == enabled
            &&& s.active == active
            &&& s.needs_logout == (installed && !active)
            &&& (installed && !active ==> (s.message matches Some(m) && m@ == logout_message()))
            &&& (!installed ==> (s.message matches Some(m) && m@ == setup_failed_message()))
            &&& (installed && active ==> s.message is None)
        },
{
    if !applicable {
        return GnomeExtensionStatus {
            applicable: false,
            installed: false,
            enabled: false,
            active: false,
            needs_logout: false,
            message: None,
        };
    }
    let needs_logout = installed && !active;
    let message = if needs_logout {
        Some(
            String::from_str(
                "Log out and sign back in once so Tandem can find browser and app windows for the remote clicker.",
            ),
        )
    } else if !installed {
        Some(String::from_str("Tandem could not finish setting up the remote clicker."))
    } else {
        None
    };
    GnomeExtensionStatus { applicable: true, installed, enabled, active, needs_logout, message }
}

/// `dbus_ping`: the extension answers when its ping call returned `true`; a
/// failed call counts as no answer.
pub fn dbus_ping(reply: Result<bool, String>) -> (b: bool)
    ensures
        b == (reply matches Ok(true)),
{
    match reply {
        Ok(b) => b,
        Err(_) => false,
    }
}

/// `Window <id> was not found`.
pub open spec fn window_not_found(window_id: u32) -> Seq<char> {
    "Window "@ + decimal(window_id as nat) + " was not found"@
}

/// `activate_window`: the outcome of asking the extension to raise a window,
/// given its reply to the call made with the window id in decimal.
pub fn activate_window(window_id: u32, reply: Result<bool, String>) -> (r: Result<(), String>)
    ensures
        match reply {
            Ok(true) => r is Ok,
            Ok(false) => r matches Err(m) && m@ == window_not_found(window_id),
            Err(e) => r matches Err(m) && m@ == e@,
        },
{
    match reply {
        Ok(true) => Ok(()),
        Ok(false) => {
            let mut m = String::from_str("Window ");
            push_decimal(&mut m, window_id as u64);
            m.append(" was not found");
            Err(m)
        },
        Err(e) => Err(e),
    }
}

/// `Could not enable GNOME Shell extension — log out and back in, then reopen Tandem`.
pub open spec fn enable_failed_message() -> Seq<char> {
    "Could not enable GNOME Shell extension \u{2014} log out and back in, then reopen Tandem"@
}

/// `enable_extension`: succeeds when either way of enabling the extension
/// (the `gnome-extensions` tool, then the Shell's D-Bus call) worked.
pub fn enable_extension(enabled: bool) -> (r: Result<(), String>)
    ensures
        enabled ==> r is Ok,
        !enabled ==> (r matches Err(m) && m@ == enable_failed_message()),
{
    if enabled {
        Ok(())
    } else {
        Err(String::from_str("Could not enable GNOME Shell extension \u{2014} log out and back in, then reopen Tandem"))
    }
}

/// The `gnome-extensions` tool: its usual full path when a file is there,
/// else the bare name to be looked up on `PATH`.
pub fn gnome_extensions_bin(installed_in_usr_bin: bool) -> (bin: &'static str)
    ensures
        installed_in_usr_bin ==> bin@ == "/usr/bin/gnome-extensions"@,
        !installed_in_usr_bin ==> bin@ == "gnome-extensions"@,
{
    if installed_in_usr_bin {
        "/usr/bin/gnome-extensions"
    } else {
        "gnome-extensions"
    }
}

/// Whether a desktop name names GNOME (or Ubuntu's GNOME session).
pub open spec fn names_gnome(value: Seq<char>) -> bool {
    contains_seq(ascii_upper_seq(value), "GNOME"@) || contains_seq(ascii_upper_seq(value), "UBUNTU"@)
}

proof fn lemma_upper_window(v: Seq<char>, k: int, n: int)
    requires
        0 <= k,
        0 <= n,
        k + n <= v.len(),
    ensures
        ascii_upper_seq(v).subrange(k, k + n) == ascii_upper_seq(v.subrange(k, k + n)),
{
    assert forall|t: int| 0 <= t < n implies #[trigger] ascii_upper_seq(v).subrange(k, k + n)[t] == ascii_upper_seq(
        v.subrange(k, k + n),
    )[t] by {
        assert(v.subrange(k, k + n)[t] == v[k + t]);
    }
    assert(ascii_upper_seq(v).subrange(k, k + n) =~= ascii_upper_seq(v.subrange(k, k + n)));
}

/// The word GNOME is found in any letter case: a desktop value holding
/// `gnome` or `GNOME` counts as naming GNOME.
pub proof fn lemma_gnome_in_any_case(v: Seq<char>, k: int)
    requires
        0 <= k,
        k + 5 <= v.len(),
        v.subrange(k, k + 5) == "gnome"@ || v.subrange(k, k + 5) == "GNOME"@,
    ensures
        contains_seq(ascii_upper_seq(v), "GNOME"@),
{
    reveal_strlit("gnome");
    reveal_strlit("GNOME");
    lemma_upper_window(v, k, 5);
    assert(ascii_upper_seq(v.subrange(k, k + 5)) =~= "GNOME"@);
    assert(ascii_upper_seq(v).subrange(k, k + 5) == "GNOME"@);
}

/// The word Ubuntu is found in any letter case: a desktop value holding
/// `ubuntu` or `UBUNTU` counts as naming GNOME.
pub proof fn lemma_ubuntu_in_any_case(v: Seq<char>, k: int)
    requires
        0 <= k,
        k + 6 <= v.len(),
        v.subrange(k, k + 6) == "ubuntu"@ || v.subrange(k, k + 6) == "UBUNTU"@,
    ensures
        contains_seq(ascii_upper_seq(v), "UBUNTU"@),
{
    reveal_strlit("ubuntu");
    reveal_strlit("UBUNTU");
    lemma_upper_window(v, k, 6);
    assert(ascii_upper_seq(v.subrange(k, k + 6)) =~= "UBUNTU"@);
    assert(ascii_upper_seq(v).subrange(k, k + 6) == "UBUNTU"@);
}

/// `is_gnome_desktop`: one of the desktop variables (`XDG_CURRENT_DESKTOP`,
/// `XDG_SESSION_DESKTOP`, `DESKTOP_SESSION`, each empty when unset) names
/// GNOME, or `gnome-shell` is installed.
pub fn is_gnome_desktop(desktop_values: &Vec<String>, gnome_shell_installed: bool) -> (b: bool)
    ensures
        b == ((exists|i: int| 0 <= i < desktop_values@.len() && names_gnome(#[trigger] desktop_values@[i]@))
            || gnome_shell_installed),
        gnome_shell_installed ==> b,
        forall|i: int|
            0 <= i < desktop_values@.len() && (contains_seq(ascii_upper_seq(#[trigger] desktop_values@[i]@), "GNOME"@)
                || contains_seq(ascii_upper_seq(desktop_values@[i]@), "UBUNTU"@)) ==> b,
        forall|i: int, k: int|
            0 <= i < desktop_values@.len() && 0 <= k && k + 5 <= desktop_values@[i]@.len() && (
            #[trigger] desktop_values@[i]@.subrange(k, k + 5) == "gnome"@ || desktop_values@[i]@.subrange(k, k + 5)
                == "GNOME"@) ==> b,
        forall|i: int, k: int|
            0 <= i < desktop_values@.len() && 0 <= k && k + 6 <= desktop_values@[i]@.len() && (
            #[trigger] desktop_values@[i]@.subrange(k, k + 6) == "ubuntu"@ || desktop_values@[i]@.subrange(k, k + 6)
                == "UBUNTU"@) ==> b,
        !gnome_shell_installed && (forall|i: int|
            0 <= i < desktop_values@.len() ==> !contains_seq(ascii_upper_seq(#[trigger] desktop_values@[i]@), "GNOME"@)
                && !contains_seq(ascii_upper_seq(desktop_values@[i]@), "UBUNTU"@)) ==> !b,
{
    let mut i: usize = 0;
    while i < desktop_values.len()
        invariant
            i <= desktop_values.len(),
            forall|k: int| 0 <= k < i ==> !names_gnome(#[trigger] desktop_values@[k]@),
        decreases desktop_values.len() - i,
    {
        let upper = to_ascii_uppercase(desktop_values[i].as_str());
        if contains(upper.as_str(), "GNOME") || contains(upper.as_str(), "UBUNTU") {
            return true;
        }
        i = i + 1;
    }
    proof {
        assert forall|j: int, k: int|
            0 <= j < desktop_values@.len() && 0 <= k && k + 5 <= desktop_values@[j]@.len() && (
            #[trigger] desktop_values@[j]@.subrange(k, k + 5) == "gnome"@ || desktop_values@[j]@.subrange(k, k + 5)
                == "GNOME"@) implies false by {
            lemma_gnome_in_any_case(desktop_values@[j]@, k);
            assert(names_gnome(desktop_values@[j]@));
        }
        assert forall|j: int, k: int|
            0 <= j < desktop_values@.len() && 0 <= k && k + 6 <= desktop_values@[j]@.len() && (
            #[trigger] desktop_values@[j]@.subrange(k, k + 6) == "ubuntu"@ || desktop_values@[j]@.subrange(k, k + 6)
                == "UBUNTU"@) implies false by {
            lemma_ubuntu_in_any_case(desktop_values@[j]@, k);
            assert(names_gnome(desktop_values@[j]@));
        }
    }
    gnome_shell_installed
}

/// `is_applicable`: the extension is used in GNOME Wayland sessions only.
/// `session_type` is `XDG_SESSION_TYPE` (empty when unset).
pub fn is_applicable(session_type: &str, desktop_values: &Vec<String>, gnome_shell_installed: bool) -> (b: bool)
    ensures
        b == (ascii_lower_seq(session_type@) == "wayland"@ && ((exists|i: int|
            0 <= i < desktop_values@.len() && names_gnome(#[trigger] desktop_values@[i]@)) || gnome_shell_installed)),
{
    let lower = to_ascii_lowercase(session_type);
    if !str_eq(lower.as_str(), "wayland") {
        return false;
    }
    is_gnome_desktop(desktop_values, gnome_shell_installed)
}

/// Whether a line of `gnome-extensions list --enabled` names the extension.
pub open spec fn lists_extension(stdout: Seq<u8>) -> bool {
    exists|k: int|
        0 <= k < lines_bytes(stdout).len() && decode_utf8(trim_bytes(#[trigger] lines_bytes(stdout)[k])) == EXTENSION_UUID@
}

/// `extension_enabled`: the listing tool succeeded and one of its output
/// lines, trimmed, is the extension's UUID.
pub fn extension_enabled(succeeded: bool, stdout: &str) -> (b: bool)
    ensures
        b == (succeeded && lists_extension(stdout.spec_bytes())),
{
    if !succeeded {
        return false;
    }
    let mut rest: &str = stdout;
    while rest.as_bytes().len() > 0
        invariant
            succeeded,
            lists_extension(stdout.spec_bytes()) == lists_extension(rest.spec_bytes()),
        decreases rest.spec_bytes().len(),
    {
        let (line, after) = split_first_line(rest);
        let ghost ls = lines_bytes(rest.spec_bytes());
        proof {
            assert(ls == seq![line.spec_bytes()] + lines_bytes(after.spec_bytes()));
            assert(ls[0] == line.spec_bytes());
            assert forall|k: int| 0 <= k < lines_bytes(after.spec_bytes()).len() implies ls[k + 1]
                == lines_bytes(after.spec_bytes())[k] by {}
        }
        let trimmed = trim_str(line);
        proof {
            lemma_str_bytes(trimmed);
        }
        if str_eq(trimmed, EXTENSION_UUID) {
            proof {
                assert(decode_utf8(trim_bytes(ls[0])) == EXTENSION_UUID@);
                assert(lists_extension(rest.spec_bytes()));
            }
            return true;
        }
        proof {
            if lists_extension(rest.spec_bytes()) {
                let k = choose|k: int| 0 <= k < ls.len() && decode_utf8(trim_bytes(#[trigger] ls[k])) == EXTENSION_UUID@;
                assert(k != 0);
                assert(lines_bytes(after.spec_bytes())[k - 1] == ls[k]);
            }
            if lists_extension(after.spec_bytes()) {
                let k = choose|k: int|
                    0 <= k < lines_bytes(after.spec_bytes()).len() && decode_utf8(
                        trim_bytes(#[trigger] lines_bytes(after.spec_bytes())[k]),
                    ) == EXTENSION_UUID@;
                assert(ls[k + 1] == lines_bytes(after.spec_bytes())[k]);
            }
        }
        rest = after;
    }
    false
}

/// A window as the extension lists it.
pub struct ExtensionWindow {
    pub id: String,
    pub title: String,
    pub app: String,
}

/// A listed window as `(id, label)`.
pub type WindowView = (Seq<char>, Seq<char>);

/// The label of a window: its title, followed by ` — ` and the application's
/// name when that is not blank.
pub open spec fn window_label(title: Seq<char>, app: Seq<char>) -> Seq<char> {
    if trim_seq(app).len() == 0 {
        title
    } else {
        title + " \u{2014} "@ + app
    }
}

/// The entry as a presentation window: `window:<id>` and its label.
pub open spec fn entry_window(e: &ExtensionWindow) -> WindowView {
    ("window:"@ + e.id@, window_label(e.title@, e.app@))
}

/// The key windows are ordered by: the label in ASCII lower case.
pub open spec fn window_key(w: WindowView) -> Seq<char> {
    ascii_lower_seq(w.1)
}

/// `w` put into `sorted` after every window whose key is not greater.
pub open spec fn insert_sorted(sorted: Seq<WindowView>, w: WindowView) -> Seq<WindowView>
    decreases sorted.len(),
{
    if sorted.len() == 0 {
        seq![w]
    } else if seq_less(window_key(w), window_key(sorted.last())) {
        insert_sorted(sorted.drop_last(), w).push(sorted.last())
    } else {
        sorted.push(w)
    }
}

/// The windows stably sorted by key (`sort_by` on the lower-cased labels):
/// ordered by key, with windows of equal keys in their listed order.
pub open spec fn sort_windows(s: Seq<WindowView>) -> Seq<WindowView>
    decreases s.len(),
{
    if s.len() == 0 {
        Seq::empty()
    } else {
        insert_sorted(sort_windows(s.drop_last()), s.last())
    }
}

/// The views of presentation windows.
pub open spec fn windows_view(v: Seq<PresentationWindow>) -> Seq<WindowView> {
    v.map_values(|w: PresentationWindow| (w.id@, w.label@))
}

/// The views of the listed entries.
pub open spec fn entries_view(v: Seq<ExtensionWindow>) -> Seq<WindowView> {
    v.map_values(|e: ExtensionWindow| entry_window(&e))
}

proof fn lemma_insert_at(s: Seq<WindowView>, w: WindowView, j: int)
    requires
        0 <= j <= s.len(),
        forall|k: int| j <= k < s.len() ==> seq_less(window_key(w), window_key(#[trigger] s[k])),
        j == 0 || !seq_less(window_key(w), window_key(s[j - 1])),
    ensures
        insert_sorted(s, w) == s.take(j).push(w) + s.skip(j),
    decreases s.len(),
{
    if s.len() == 0 {
        assert(s.take(j).push(w) + s.skip(j) =~= seq![w]);
    } else if j == s.len() {
        assert(s.take(j) =~= s);
        assert(s.take(j).push(w) + s.skip(j) =~= s.push(w));
    } else {
        let t = s.drop_last();
        assert(seq_less(window_key(w), window_key(s[s.len() - 1])));
        assert forall|k: int| j <= k < t.len() implies seq_less(window_key(w), window_key(#[trigger] t[k])) by {
            assert(t[k] == s[k]);
        }
        if j > 0 {
            assert(t[j - 1] == s[j - 1]);
        }
        lemma_insert_at(t, w, j);
        assert(s.take(j).push(w) + s.skip(j) =~= (t.take(j).push(w) + t.skip(j)).push(s.last()));
    }
}

/// Labels a window listed by the extension.
fn entry_to_window(e: &ExtensionWindow) -> (w: PresentationWindow)
    ensures
        (w.id@, w.label@) == entry_window(e),
{
    let mut id = String::from_str("window:");
    id.append(e.id.as_str());
    let app_trimmed = crate::text::trim(e.app.as_str());
    let label = if app_trimmed.unicode_len() == 0 {
        e.title.clone()
    } else {
        let mut l = e.title.clone();
        l.append(" \u{2014} ");
        l.append(e.app.as_str());
        l
    };
    PresentationWindow { id, label }
}

/// `list_windows`: the windows the extension reported, labelled, with ids
/// `window:<id>`, sorted by their lower-cased labels (stably).
pub fn windows_from_entries(entries: &Vec<ExtensionWindow>) -> (r: Vec<PresentationWindow>)
    ensures
        windows_view(r@) == sort_windows(entries_view(entries@)),
        windows_view(r@).to_multiset() == entries_view(entries@).to_multiset(),
        forall|i: int, j: int|
            0 <= i < j < r@.len() ==> !seq_less(
                ascii_lower_seq((#[trigger] r@[j]).label@),
                ascii_lower_seq((#[trigger] r@[i]).label@),
            ),
{
    let mut out: Vec<PresentationWindow> = Vec::new();
    let mut keys: Vec<String> = Vec::new();
    let mut i: usize = 0;
    while i < entries.len()
        invariant
            i <= entries.len(),
            keys@.len() == out@.len(),
            forall|k: int| 0 <= k < out@.len() ==> (#[trigger] keys@[k])@ == window_key((out@[k].id@, out@[k].label@)),
            windows_view(out@) == sort_windows(entries_view(entries@).take(i as int)),
        decreases entries.len() - i,
    {
        let w = entry_to_window(&entries[i]);
        let key = to_ascii_lowercase(w.label.as_str());
        let ghost before = windows_view(out@);
        let ghost wv = (w.id@, w.label@);
        let mut j: usize = out.len();
        while j > 0 && str_less(key.as_str(), keys[j - 1].as_str())
            invariant
                j <= out@.len(),
                keys@.len() == out@.len(),
                before == windows_view(out@),
                key@ == window_key(wv),
                forall|k: int| 0 <= k < out@.len() ==> (#[trigger] keys@[k])@ == window_key((out@[k].id@, out@[k].label@)),
                forall|k: int| j <= k < out@.len() ==> seq_less(window_key(wv), window_key(#[trigger] before[k])),
            decreases j,
        {
            j = j - 1;
        }
        proof {
            lemma_insert_at(before, wv, j as int);
            let es = entries_view(entries@);
            assert(es.take(i + 1).drop_last() == es.take(i as int));
            assert(es.take(i + 1).last() == wv);
        }
        out.insert(j, w);
        keys.insert(j, key);
        proof {
            assert(windows_view(out@) =~= before.take(j as int).push(wv) + before.skip(j as int));
            assert forall|k: int| 0 <= k < out@.len() implies (#[trigger] keys@[k])@ == window_key((out@[k].id@, out@[k].label@)) by {
                if k < j {
                } else if k == j {
                } else {
                }
            }
        }
        i = i + 1;
    }
    proof {
        assert(entries_view(entries@).take(entries@.len() as int) == entries_view(entries@));
        lemma_windows_ordered_by_lowercase_label(entries@);
        let w = windows_view(out@);
        assert forall|i: int, j: int| 0 <= i < j < out@.len() implies !seq_less(
            ascii_lower_seq((#[trigger] out@[j]).label@),
            ascii_lower_seq((#[trigger] out@[i]).label@),
        ) by {
            assert(w[i] == (out@[i].id@, out@[i].label@));
            assert(w[j] == (out@[j].id@, out@[j].label@));
        }
    }
    out
}

/// The window list holds exactly the listed windows, and each window comes
/// at or after every window whose ASCII-lower-cased label sorts before its
/// own: the list is in case-insensitive order of labels.
pub proof fn lemma_windows_ordered_by_lowercase_label(entries: Seq<ExtensionWindow>)
    ensures
        sort_windows(entries_view(entries)).to_multiset() == entries_view(entries).to_multiset(),
        forall|i: int, j: int|
            0 <= i < j < sort_windows(entries_view(entries)).len() ==> !seq_less(
                ascii_lower_seq((#[trigger] sort_windows(entries_view(entries))[j]).1),
                ascii_lower_seq((#[trigger] sort_windows(entries_view(entries))[i]).1),
            ),
{
    let s = sort_windows(entries_view(entries));
    lemma_window_list_sorted(entries_view(entries));
    assert forall|i: int, j: int| 0 <= i < j < s.len() implies !seq_less(
        ascii_lower_seq((#[trigger] s[j]).1),
        ascii_lower_seq((#[trigger] s[i]).1),
    ) by {
        assert(!seq_less(window_key(s[j]), window_key(s[i])));
    }
}

/// Windows in order of their keys: no window's key is below an earlier one's.
pub open spec fn ordered_by_key(s: Seq<WindowView>) -> bool {
    forall|i: int, j: int| 0 <= i < j < s.len() ==> !seq_less(window_key(#[trigger] s[j]), window_key(#[trigger] s[i]))
}

proof fn lemma_insert_sorted_contents(t: Seq<WindowView>, w: WindowView)
    ensures
        insert_sorted(t, w).to_multiset() == t.to_multiset().insert(w),
        insert_sorted(t, w).len() == t.len() + 1,
        forall|x: WindowView| #[trigger] insert_sorted(t, w).contains(x) ==> x == w || t.contains(x),
    decreases t.len(),
{
    broadcast use vstd::seq_lib::group_to_multiset_ensures;

    if t.len() == 0 {
        assert(seq![w] =~= Seq::<WindowView>::empty().push(w));
    } else if seq_less(window_key(w), window_key(t.last())) {
        let u = t.drop_last();
        lemma_insert_sorted_contents(u, w);
        assert(t =~= u.push(t.last()));
        assert(insert_sorted(t, w).to_multiset() =~= t.to_multiset().insert(w));
        assert forall|x: WindowView| #[trigger] insert_sorted(t, w).contains(x) implies x == w || t.contains(x) by {
            let k = choose|k: int| 0 <= k < insert_sorted(t, w).len() && insert_sorted(t, w)[k] == x;
            if k < insert_sorted(u, w).len() {
                assert(insert_sorted(u, w).contains(x));
                if x != w {
                    let m = choose|m: int| 0 <= m < u.len() && u[m] == x;
                    assert(t[m] == x);
                }
            } else {
                assert(t[t.len() - 1] == x);
            }
        }
    } else {
        assert forall|x: WindowView| #[trigger] insert_sorted(t, w).contains(x) implies x == w || t.contains(x) by {
            let k = choose|k: int| 0 <= k < insert_sorted(t, w).len() && insert_sorted(t, w)[k] == x;
            if k < t.len() {
                assert(t[k] == x);
            }
        }
    }
}

proof fn lemma_insert_sorted_ordered(t: Seq<WindowView>, w: WindowView)
    requires
        ordered_by_key(t),
    ensures
        ordered_by_key(insert_sorted(t, w)),
    decreases t.len(),
{
    if t.len() == 0 {
    } else if seq_less(window_key(w), window_key(t.last())) {
        let u = t.drop_last();
        let last = t.last();
        assert(ordered_by_key(u)) by {
            assert forall|i: int, j: int| 0 <= i < j < u.len() implies !seq_less(window_key(#[trigger] u[j]), window_key(#[trigger] u[i])) by {
                assert(u[i] == t[i] && u[j] == t[j]);
            }
        }
        lemma_insert_sorted_ordered(u, w);
        lemma_insert_sorted_contents(u, w);
        let v = insert_sorted(u, w);
        assert forall|i: int, j: int| 0 <= i < j < v.len() + 1 implies !seq_less(
            window_key(#[trigger] v.push(last)[j]),
            window_key(#[trigger] v.push(last)[i]),
        ) by {
            if j == v.len() {
                let x = v[i];
                assert(v.contains(x));
                lemma_seq_less_order(window_key(w), window_key(last), window_key(x));
                lemma_seq_less_order(window_key(last), window_key(x), window_key(w));
                if x != w {
                    let m = choose|m: int| 0 <= m < u.len() && u[m] == x;
                    assert(t[m] == x);
                    assert(!seq_less(window_key(t[t.len() - 1]), window_key(t[m])));
                }
            } else {
                assert(v.push(last)[i] == v[i] && v.push(last)[j] == v[j]);
            }
        }
    } else {
        let last = t.last();
        assert forall|i: int, j: int| 0 <= i < j < t.len() + 1 implies !seq_less(
            window_key(#[trigger] t.push(w)[j]),
            window_key(#[trigger] t.push(w)[i]),
        ) by {
            if j == t.len() {
                if i < t.len() - 1 {
                    assert(!seq_less(window_key(t[t.len() - 1]), window_key(t[i])));
                    lemma_seq_less_order(window_key(w), window_key(last), window_key(t[i]));
                    lemma_seq_less_order(window_key(last), window_key(t[i]), window_key(w));
                    lemma_seq_less_order(window_key(t[i]), window_key(w), window_key(last));
                    lemma_seq_less_order(window_key(w), window_key(t[i]), window_key(last));
                }
            } else {
                assert(t.push(w)[i] == t[i] && t.push(w)[j] == t[j]);
            }
        }
    }
}

/// The window list holds exactly the listed windows (as a multiset), and
/// comes out ordered by lower-cased label.
pub proof fn lemma_window_list_sorted(s: Seq<WindowView>)
    ensures
        sort_windows(s).to_multiset() == s.to_multiset(),
        ordered_by_key(sort_windows(s)),
    decreases s.len(),
{
    broadcast use vstd::seq_lib::group_to_multiset_ensures;

    if s.len() == 0 {
        assert(sort_windows(s) =~= s);
    } else {
        lemma_window_list_sorted(s.drop_last());
        lemma_insert_sorted_contents(sort_windows(s.drop_last()), s.last());
        lemma_insert_sorted_ordered(sort_windows(s.drop_last()), s.last());
        assert(s =~= s.drop_last().push(s.last()));
    }
}

} // verus!
