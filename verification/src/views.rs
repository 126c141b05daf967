//! Planning of the secondary-webview commands. The host windowing system
//! owns the views themselves; this module decides, from what the host
//! reports, which host operation an `open`, `close` or `resize` call must
//! perform, and models the effect of those operations on the host's
//! label-to-view table.

use vstd::prelude::*;

verus! {

/// Whether `url::Url::parse` accepts a string; a property of the string
/// alone.
pub uninterp spec fn url_well_formed(s: Seq<char>) -> bool;

/// Relies on url::Url::parse: it accepts or rejects a URL string on the
/// string's content alone; the error case carries the parser's message.
#[verifier::external_body]
fn check_url(s: &str) -> (r: Result<(), String>)
    ensures
        r is Ok <==> url_well_formed(s@),
{
    match url::Url::parse(s) {
        Ok(_) => Ok(()),
        Err(e) => Err(e.to_string()),
    }
}

/// Why an `open` call is refused.
#[derive(Debug, PartialEq, Eq)]
pub enum CmdError {
    /// The URL for a view to be created failed to parse; carries the
    /// parser's message.
    InvalidUrl(String),
    /// The main window, which a new view is anchored to, is absent.
    MainWindowMissing,
}

/// The host operation an `open` call must perform.
#[derive(Clone, Copy, PartialEq, Eq, Structural, Debug)]
pub enum OpenPlan {
    /// A view with the label exists: move and resize it to the call's
    /// geometry, and give it focus.
    FocusExisting,
    /// No view with the label exists and the URL is well-formed: create one,
    /// anchored to the main window, at the call's geometry.
    CreateView,
}

/// Decides an `open` call. An existing label is updated without looking at
/// the URL; otherwise the URL must parse and the main window must be there
/// before a view is created.
pub fn plan_open(view_exists: bool, url: &str, main_window_exists: bool) -> (r: Result<
    OpenPlan,
    CmdError,
>)
    ensures
        view_exists ==> r == Ok::<OpenPlan, CmdError>(OpenPlan::FocusExisting),
        !view_exists && !url_well_formed(url@) ==> r matches Err(CmdError::InvalidUrl(_)),
        !view_exists && url_well_formed(url@) && !main_window_exists ==> r == Err::<
            OpenPlan,
            CmdError,
        >(CmdError::MainWindowMissing),
        !view_exists && url_well_formed(url@) && main_window_exists ==> r == Ok::<
            OpenPlan,
            CmdError,
        >(OpenPlan::CreateView),
{
    if view_exists {
        return Ok(OpenPlan::FocusExisting);
    }
    match check_url(url) {
        Err(msg) => Err(CmdError::InvalidUrl(msg)),
        Ok(_) => {
            if !main_window_exists {
                Err(CmdError::MainWindowMissing)
            } else {
                Ok(OpenPlan::CreateView)
            }
        },
    }
}

/// Whether a `close` call must ask the host to destroy a view: only when
/// one with the label exists; otherwise the call succeeds doing nothing.
pub fn plan_close(view_exists: bool) -> (r: bool)
    ensures
        r == view_exists,
{
    view_exists
}

/// Whether a `resize` call must ask the host to move and resize a view:
/// only when one with the label exists; otherwise the call succeeds doing
/// nothing.
pub fn plan_resize(view_exists: bool) -> (r: bool)
    ensures
        r == view_exists,
{
    view_exists
}

/// A view's position and size, in logical pixels.
pub struct ViewGeom {
    pub x: i64,
    pub y: i64,
    pub width: i64,
    pub height: i64,
}

/// The host's label-to-view table after an `open`: the label's view is
/// created, or moved onto the new geometry, either way by binding the label
/// to it.
pub open spec fn apply_open(
    views: Map<Seq<char>, ViewGeom>,
    label: Seq<char>,
    g: ViewGeom,
) -> Map<Seq<char>, ViewGeom> {
    views.insert(label, g)
}

/// The table after a `close`: the label's view is gone; closing an unbound
/// label changes nothing.
pub open spec fn apply_close(views: Map<Seq<char>, ViewGeom>, label: Seq<char>) -> Map<
    Seq<char>,
    ViewGeom,
> {
    views.remove(label)
}

/// The table after a `resize`: an existing view takes the new geometry; an
/// unbound label changes nothing.
pub open spec fn apply_resize(
    views: Map<Seq<char>, ViewGeom>,
    label: Seq<char>,
    g: ViewGeom,
) -> Map<Seq<char>, ViewGeom> {
    if views.dom().contains(label) {
        views.insert(label, g)
    } else {
        views
    }
}

/// Opening the same label twice leaves exactly what one open at the second
/// call's geometry leaves: one view under the label, at the second
/// geometry. (That the second call also grants focus is `plan_open`'s
/// `FocusExisting` case.)
pub proof fn lemma_reopen_same_label(
    views: Map<Seq<char>, ViewGeom>,
    label: Seq<char>,
    g1: ViewGeom,
    g2: ViewGeom,
)
    ensures
        apply_open(apply_open(views, label, g1), label, g2) == apply_open(views, label, g2),
        apply_open(apply_open(views, label, g1), label, g2)[label] == g2,
        apply_open(apply_open(views, label, g1), label, g2).dom() =~= views.dom().insert(label),
{
    assert(apply_open(apply_open(views, label, g1), label, g2) =~= apply_open(views, label, g2));
}

/// Closing a label that is not bound is a no-op on the host's table.
pub proof fn lemma_close_unknown_label(views: Map<Seq<char>, ViewGeom>, label: Seq<char>)
    requires
        !views.dom().contains(label),
    ensures
        apply_close(views, label) == views,
{
    assert(apply_close(views, label) =~= views);
}

} // verus!
