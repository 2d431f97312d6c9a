//! Zooming one agent pane before a terminal attaches, so a single client shows one
//! agent: select the pane, ask whether its window is zoomed, and zoom only if not.
//!
//! The caller runs each `tmux` command the machine asks for and hands back its outcome.

use vstd::prelude::*;

use crate::shell::{ensure_success_spec, CmdOutputView};
use crate::text::{owned, push_str, str_eq, trim, trim_str, views};
use crate::tmux::{event_view, TmuxEvent};

verus! {

/// What the zoom waits for.
#[derive(Debug, Clone, Copy, PartialEq, Eq, Structural)]
pub enum ZoomPhase {
    /// `select-pane`.
    Select,
    /// `display-message` of the window's zoom flag.
    Check,
    /// `resize-pane -Z`.
    Resize,
    /// The pane is selected and zoomed.
    Done,
    /// Stopped on an error.
    Failed,
}

/// What the caller must do next.
pub enum ZoomAction {
    /// Run `tmux` with these arguments.
    Tmux { args: Vec<String> },
    /// The pane is zoomed.
    Done,
    /// The zoom stopped with this error.
    Failed { message: String },
}

#[verifier::ext_equal]
pub enum ZoomActionView {
    Tmux { args: Seq<Seq<char>> },
    Done,
    Failed { message: Seq<char> },
}

impl View for ZoomAction {
    type V = ZoomActionView;

    open spec fn view(&self) -> ZoomActionView {
        match self {
            ZoomAction::Tmux { args } => ZoomActionView::Tmux { args: views(args@) },
            ZoomAction::Done => ZoomActionView::Done,
            ZoomAction::Failed { message } => ZoomActionView::Failed { message: message@ },
        }
    }
}

/// A zoom in progress on pane `<session>:<window>.<pane>`.
pub struct PaneZoom {
    target: String,
    phase: ZoomPhase,
    error: String,
}

pub struct PaneZoomView {
    pub target: Seq<char>,
    pub phase: ZoomPhase,
    pub error: Seq<char>,
}

impl View for PaneZoom {
    type V = PaneZoomView;

    closed spec fn view(&self) -> PaneZoomView {
        PaneZoomView { target: self.target@, phase: self.phase, error: self.error@ }
    }
}

/// The pane target `<session>:<window>.<pane>`.
pub open spec fn zoom_target_spec(session: Seq<char>, window: Seq<char>, pane: Seq<char>) -> Seq<char> {
    session + ":"@ + window + "."@ + pane
}

/// The action a zoom in state `m` waits on.
pub open spec fn zoom_pending_spec(m: PaneZoomView) -> ZoomActionView {
    match m.phase {
        ZoomPhase::Select => ZoomActionView::Tmux { args: seq!["select-pane"@, "-t"@, m.target] },
        ZoomPhase::Check => ZoomActionView::Tmux {
            args: seq!["display-message"@, "-p"@, "-t"@, m.target, "#{window_zoomed_flag}"@],
        },
        ZoomPhase::Resize => ZoomActionView::Tmux { args: seq!["resize-pane"@, "-t"@, m.target, "-Z"@] },
        ZoomPhase::Done => ZoomActionView::Done,
        ZoomPhase::Failed => ZoomActionView::Failed { message: m.error },
    }
}

/// Whether a zoom-flag query says the window is already zoomed.
pub open spec fn zoomed_spec(o: CmdOutputView) -> bool {
    o.status == 0 && trim(o.stdout) == "1"@
}

pub open spec fn zoom_fail(m: PaneZoomView, msg: Seq<char>) -> PaneZoomView {
    PaneZoomView { phase: ZoomPhase::Failed, error: msg, ..m }
}

pub open spec fn zoom_goto(m: PaneZoomView, p: ZoomPhase) -> PaneZoomView {
    PaneZoomView { phase: p, ..m }
}

/// The zoom after the outcome `e` of the `tmux` run it waited on. A selection or resize
/// that fails stops it; a window already zoomed is left as it is.
pub open spec fn zoom_advance_spec(m: PaneZoomView, e: Result<CmdOutputView, Seq<char>>) -> PaneZoomView {
    match e {
        Err(msg) => zoom_fail(m, msg),
        Ok(o) => match m.phase {
            ZoomPhase::Select => match ensure_success_spec(o, "tmux select-pane"@) {
                Err(msg) => zoom_fail(m, msg),
                Ok(()) => zoom_goto(m, ZoomPhase::Check),
            },
            ZoomPhase::Check => if zoomed_spec(o) {
                zoom_goto(m, ZoomPhase::Done)
            } else {
                zoom_goto(m, ZoomPhase::Resize)
            },
            ZoomPhase::Resize => match ensure_success_spec(o, "tmux resize-pane -Z"@) {
                Err(msg) => zoom_fail(m, msg),
                Ok(()) => zoom_goto(m, ZoomPhase::Done),
            },
            _ => m,
        },
    }
}

/// A resize (which toggles the zoom) is only asked for right after the window was found
/// not zoomed, so a zoomed window is never unzoomed.
pub proof fn lemma_resize_only_when_unzoomed(m: PaneZoomView, e: Result<CmdOutputView, Seq<char>>)
    requires
        zoom_advance_spec(m, e).phase == ZoomPhase::Resize,
    ensures
        m.phase == ZoomPhase::Check || m.phase == ZoomPhase::Resize,
        m.phase == ZoomPhase::Check ==> (e matches Ok(o) && !zoomed_spec(o)),
{
}

impl PaneZoom {
    /// A zoom of pane `pane` of window `window` in session `session`, with its first
    /// action.
    pub fn start(session: &str, window: &str, pane: &str) -> (r: (PaneZoom, ZoomAction))
        ensures
            r.0@ == (PaneZoomView {
                target: zoom_target_spec(session@, window@, pane@),
                phase: ZoomPhase::Select,
                error: Seq::empty(),
            }),
            r.1@ == zoom_pending_spec(r.0@),
    {
        let mut target = owned(session);
        push_str(&mut target, ":");
        push_str(&mut target, window);
        push_str(&mut target, ".");
        push_str(&mut target, pane);
        let m = PaneZoom { target, phase: ZoomPhase::Select, error: String::new() };
        let a = m.pending();
        (m, a)
    }

    /// The state's phase.
    pub fn phase(&self) -> (r: ZoomPhase)
        ensures
            r == self@.phase,
    {
        self.phase
    }

    /// The action this zoom waits on.
    pub fn pending(&self) -> (r: ZoomAction)
        ensures
            r@ == zoom_pending_spec(self@),
    {
        let t = self.target.clone();
        let mut args: Vec<String> = Vec::new();
        match self.phase {
            ZoomPhase::Select => {
                args.push(owned("select-pane"));
                args.push(owned("-t"));
                args.push(t);
            },
            ZoomPhase::Check => {
                args.push(owned("display-message"));
                args.push(owned("-p"));
                args.push(owned("-t"));
                args.push(t);
                args.push(owned("#{window_zoomed_flag}"));
            },
            ZoomPhase::Resize => {
                args.push(owned("resize-pane"));
                args.push(owned("-t"));
                args.push(t);
                args.push(owned("-Z"));
            },
            ZoomPhase::Done => {
                return ZoomAction::Done;
            },
            ZoomPhase::Failed => {
                return ZoomAction::Failed { message: self.error.clone() };
            },
        }
        let r = ZoomAction::Tmux { args };
        assert(r@ =~= zoom_pending_spec(self@));
        r
    }

    /// Takes the outcome of the `tmux` run asked for; gives the next state and action.
    pub fn step(self, e: TmuxEvent) -> (r: (PaneZoom, ZoomAction))
        ensures
            r.0@ == zoom_advance_spec(self@, event_view(e)),
            r.1@ == zoom_pending_spec(r.0@),
    {
        let mut m = self;
        match e {
            Err(msg) => {
                m.phase = ZoomPhase::Failed;
                m.error = msg;
            },
            Ok(o) => match m.phase {
                ZoomPhase::Select => match o.ensure_success("tmux select-pane") {
                    Err(msg) => {
                        m.phase = ZoomPhase::Failed;
                        m.error = msg;
                    },
                    Ok(()) => {
                        m.phase = ZoomPhase::Check;
                    },
                },
                ZoomPhase::Check => {
                    let t = trim_str(o.stdout.as_str());
                    if o.success() && str_eq(t.as_str(), "1") {
                        m.phase = ZoomPhase::Done;
                    } else {
                        m.phase = ZoomPhase::Resize;
                    }
                },
                ZoomPhase::Resize => match o.ensure_success("tmux resize-pane -Z") {
                    Err(msg) => {
                        m.phase = ZoomPhase::Failed;
                        m.error = msg;
                    },
                    Ok(()) => {
                        m.phase = ZoomPhase::Done;
                    },
                },
                _ => {},
            },
        }
        let a = m.pending();
        (m, a)
    }
}

} // verus!
