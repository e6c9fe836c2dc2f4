//! The label a window probe reports for the focused window.

use vstd::prelude::*;

verus! {

/// The label of a window: its application and its title.
pub open spec fn window_label(app: Seq<char>, title: Seq<char>) -> Seq<char> {
    "App: "@ + app + " | Title: "@ + title
}

/// Labels a window by its application and title.
pub fn format_window_label(app: &str, title: &str) -> (r: String)
    ensures
        r@ == window_label(app@, title@),
{
    let mut out = String::from_str("App: ");
    out.append(app);
    out.append(" | Title: ");
    out.append(title);
    out
}

/// Labels a window by its executable and title, or gives no label where
/// the title says nothing: empty, or only the executable's name again.
pub fn labelled_window(exe: &str, title: &str) -> (r: Option<String>)
    ensures
        r is None == (title@.len() == 0 || title@ == exe@),
        r is Some ==> r->0@ == window_label(exe@, title@),
{
    let t = String::from_str(title);
    let e = String::from_str(exe);
    if t.as_str().unicode_len() == 0 || t == e {
        None
    } else {
        Some(format_window_label(exe, title))
    }
}

} // verus!
