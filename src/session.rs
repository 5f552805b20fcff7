//! The session controller: what to do on each player event, on the end of a
//! fetch, and how long to wait for the next event. The host loop performs the
//! commands returned here; the comment store lives in the session.

use vstd::prelude::*;
use crate::comment::{reset, reset_spec, Danmaku};
use crate::engine::{lane_count, positions_bounded, render, render_spec, Draw, Frame, INTERVAL_MS};

verus! {

/// A player event, as far as the session cares.
#[derive(Clone, Copy, Debug, PartialEq, Eq, Structural)]
pub enum Event {
    Shutdown,
    FileLoaded,
    Seek,
    /// The client message that switches comments on or off.
    Toggle,
    /// A client message meant for someone else: just a tick.
    ForeignMessage,
    /// Anything else, a timeout included: just a tick.
    Other,
}

/// A transient message for the user.
#[derive(Clone, Copy, Debug, PartialEq, Eq, Structural)]
pub enum Notice {
    Off,
    On,
    Loaded(usize),
    FetchFailed,
}

/// What the host loop must do, in order.
#[derive(Clone, Copy, Debug, PartialEq, Eq, Structural)]
pub enum Command {
    Exit,
    /// Cancel the fetch in flight, if any.
    AbortFetch,
    RemoveOverlay,
    /// Start a fetch; its result is to be handed back with this generation.
    StartFetch(u64),
    Notify(Notice),
    /// Run a render tick and send its draw list to the compositor.
    Render,
}

pub struct Session {
    pub enabled: bool,
    /// The comment store, `None` while nothing is loaded.
    pub comments: Option<Vec<Danmaku>>,
    /// Generation of the latest fetch; results of older ones are dropped.
    pub generation: u64,
}

/// The session as a mathematical value.
pub ghost struct SessionModel {
    pub enabled: bool,
    pub store: Option<Seq<Danmaku>>,
    pub generation: u64,
}

impl Session {
    pub open spec fn model(&self) -> SessionModel {
        SessionModel {
            enabled: self.enabled,
            store: store_view(self.comments),
            generation: self.generation,
        }
    }

    /// Stored positions stay within the engine's bound.
    pub open spec fn wf(&self) -> bool {
        match self.comments {
            Some(v) => positions_bounded(v@),
            None => true,
        }
    }
}

pub open spec fn store_view(o: Option<Vec<Danmaku>>) -> Option<Seq<Danmaku>> {
    match o {
        Some(v) => Some(v@),
        None => None,
    }
}

pub open spec fn next_generation(g: u64) -> u64 {
    if g < u64::MAX { (g + 1) as u64 } else { 0 }
}

/// A tick follows an event when comments are on and loaded.
pub open spec fn tick_after(m: SessionModel) -> Seq<Command> {
    if m.enabled && m.store is Some { seq![Command::Render] } else { Seq::empty() }
}

/// The session's answer to one event: its next state and the commands.
pub open spec fn handle_spec(m: SessionModel, e: Event) -> (SessionModel, Seq<Command>) {
    match e {
        Event::Shutdown => (
            SessionModel { generation: next_generation(m.generation), ..m },
            seq![Command::AbortFetch, Command::Exit],
        ),
        Event::FileLoaded => {
            let g = next_generation(m.generation);
            (
                SessionModel { store: None, generation: g, ..m },
                if m.enabled {
                    seq![Command::AbortFetch, Command::RemoveOverlay, Command::StartFetch(g)]
                } else {
                    seq![Command::AbortFetch]
                },
            )
        },
        Event::Seek => {
            let m2 = if m.enabled && m.store is Some {
                SessionModel { store: Some(reset_spec(m.store.unwrap())), ..m }
            } else {
                m
            };
            (m2, tick_after(m2))
        },
        Event::Toggle => if m.enabled {
            (
                SessionModel { enabled: false, ..m },
                seq![Command::RemoveOverlay, Command::Notify(Notice::Off)],
            )
        } else {
            match m.store {
                Some(cs) => (
                    SessionModel { enabled: true, store: Some(reset_spec(cs)), ..m },
                    seq![Command::Notify(Notice::Loaded(cs.len() as usize)), Command::Render],
                ),
                None => {
                    let g = next_generation(m.generation);
                    (
                        SessionModel { enabled: true, generation: g, ..m },
                        seq![Command::Notify(Notice::On), Command::AbortFetch, Command::StartFetch(g)],
                    )
                },
            }
        },
        Event::ForeignMessage => (m, tick_after(m)),
        Event::Other => (m, tick_after(m)),
    }
}

/// The session's answer to the end of fetch `generation`: `Some` comments on
/// success, `None` on failure.
pub open spec fn finish_spec(m: SessionModel, generation: u64, result: Option<Seq<Danmaku>>) -> (
    SessionModel,
    Seq<Command>,
) {
    if generation != m.generation {
        (m, Seq::empty())
    } else {
        match result {
            Some(cs) => (
                SessionModel { store: Some(reset_spec(cs)), ..m },
                if m.enabled {
                    seq![Command::Render, Command::Notify(Notice::Loaded(cs.len() as usize))]
                } else {
                    Seq::empty()
                },
            ),
            None => (m, if m.enabled { seq![Command::Notify(Notice::FetchFailed)] } else { Seq::empty() }),
        }
    }
}

fn bump(g: u64) -> (r: u64)
    ensures
        r == next_generation(g),
{
    if g < u64::MAX { g + 1 } else { 0 }
}

impl Session {
    /// A fresh session: comments off, nothing loaded.
    pub fn new() -> (s: Session)
        ensures
            s.model() == (SessionModel { enabled: false, store: None, generation: 0 }),
            s.wf(),
    {
        Session { enabled: false, comments: None, generation: 0 }
    }

    /// Handles one player event; returns the commands to perform, in order.
    pub fn handle(&mut self, e: Event) -> (cmds: Vec<Command>)
        requires
            old(self).wf(),
        ensures
            (final(self).model(), cmds@) == handle_spec(old(self).model(), e),
            final(self).wf(),
    {
        let mut cmds: Vec<Command> = Vec::new();
        match e {
            Event::Shutdown => {
                self.generation = bump(self.generation);
                cmds.push(Command::AbortFetch);
                cmds.push(Command::Exit);
            },
            Event::FileLoaded => {
                self.generation = bump(self.generation);
                self.comments = None;
                cmds.push(Command::AbortFetch);
                if self.enabled {
                    cmds.push(Command::RemoveOverlay);
                    cmds.push(Command::StartFetch(self.generation));
                }
            },
            Event::Seek => {
                if self.enabled {
                    match &mut self.comments {
                        Some(v) => reset(v),
                        None => {},
                    }
                }
                if self.enabled && self.comments.is_some() {
                    cmds.push(Command::Render);
                }
            },
            Event::Toggle => {
                if self.enabled {
                    self.enabled = false;
                    cmds.push(Command::RemoveOverlay);
                    cmds.push(Command::Notify(Notice::Off));
                } else {
                    self.enabled = true;
                    match &mut self.comments {
                        Some(v) => {
                            reset(v);
                            cmds.push(Command::Notify(Notice::Loaded(v.len())));
                            cmds.push(Command::Render);
                        },
                        None => {
                            self.generation = bump(self.generation);
                            cmds.push(Command::Notify(Notice::On));
                            cmds.push(Command::AbortFetch);
                            cmds.push(Command::StartFetch(self.generation));
                        },
                    }
                }
            },
            Event::ForeignMessage | Event::Other => {
                if self.enabled && self.comments.is_some() {
                    cmds.push(Command::Render);
                }
            },
        }
        proof {
            let want = handle_spec(old(self).model(), e);
            assert(cmds@ =~= want.1);
            assert(self.model() =~= want.0);
        }
        cmds
    }

    /// Takes the result of fetch `generation` (`None` when it failed). A
    /// result of a superseded fetch changes nothing. A new store starts with
    /// every comment unplaced; while comments are on it is rendered at once
    /// (playback may have been paused meanwhile) and its size reported.
    pub fn finish_fetch(&mut self, generation: u64, result: Option<Vec<Danmaku>>) -> (cmds: Vec<
        Command,
    >)
        requires
            old(self).wf(),
        ensures
            (final(self).model(), cmds@) == finish_spec(old(self).model(), generation, store_view(result)),
            final(self).wf(),
    {
        let ghost incoming = store_view(result);
        let mut cmds: Vec<Command> = Vec::new();
        if generation != self.generation {
            return cmds;
        }
        match result {
            Some(mut v) => {
                reset(&mut v);
                let n = v.len();
                self.comments = Some(v);
                if self.enabled {
                    cmds.push(Command::Render);
                    cmds.push(Command::Notify(Notice::Loaded(n)));
                }
            },
            None => {
                if self.enabled {
                    cmds.push(Command::Notify(Notice::FetchFailed));
                }
            },
        }
        proof {
            let want = finish_spec(old(self).model(), generation, incoming);
            assert(cmds@ =~= want.1);
        }
        cmds
    }

    /// Runs a tick when comments are on and loaded; `None` when there is
    /// nothing to draw or the canvas is unavailable.
    pub fn render(&mut self, frame: Frame) -> (r: Option<Vec<Draw>>)
        requires
            old(self).wf(),
            frame.font_size > 0,
        ensures
            final(self).wf(),
            final(self).enabled == old(self).enabled,
            final(self).generation == old(self).generation,
            !(old(self).enabled && old(self).comments is Some && frame.width > 0 && frame.height > 0
                && lane_count(frame) <= usize::MAX) ==> r.is_none() && final(self).model() == old(self).model(),
            old(self).enabled && old(self).comments is Some && frame.width > 0 && frame.height > 0 && lane_count(
                frame,
            ) <= usize::MAX ==> r.is_some()
                && final(self).comments is Some && render_spec(old(self).comments.unwrap()@, frame) == (
                final(self).comments.unwrap()@,
                r.unwrap()@,
            ),
    {
        if !self.enabled {
            return None;
        }
        match &mut self.comments {
            Some(v) => render(v, frame),
            None => None,
        }
    }

    /// How long to wait for the next event: one tick while comments are on
    /// and playback is known to run, else until an event comes (`None`).
    pub fn wait_timeout(&self, paused: Option<bool>) -> (r: Option<i64>)
        ensures
            r == (if self.enabled && paused == Some(false) { Some(INTERVAL_MS) } else { None::<i64> }),
    {
        if self.enabled && paused == Some(false) {
            Some(INTERVAL_MS)
        } else {
            None
        }
    }

    /// Number of comments loaded, if any.
    pub fn comment_count(&self) -> (r: Option<usize>)
        ensures
            r == (match self.comments {
                Some(v) => Some(v.len()),
                None => None::<usize>,
            }),
    {
        match &self.comments {
            Some(v) => Some(v.len()),
            None => None,
        }
    }
}

/// Switching comments off and on again over a loaded store of `n` comments
/// resets the store once, tells the user that `n` comments are loaded, ticks,
/// and starts no fetch.
pub proof fn lemma_toggle_off_on(m: SessionModel)
    requires
        m.enabled,
        m.store is Some,
    ensures
        ({
            let (m1, c1) = handle_spec(m, Event::Toggle);
            let (m2, c2) = handle_spec(m1, Event::Toggle);
            &&& m2 == SessionModel { store: Some(reset_spec(m.store.unwrap())), ..m }
            &&& c1 + c2 == seq![
                Command::RemoveOverlay,
                Command::Notify(Notice::Off),
                Command::Notify(Notice::Loaded(m.store.unwrap().len() as usize)),
                Command::Render,
            ]
        }),
{
    let (m1, c1) = handle_spec(m, Event::Toggle);
    let (m2, c2) = handle_spec(m1, Event::Toggle);
    assert(c1 + c2 =~= seq![
        Command::RemoveOverlay,
        Command::Notify(Notice::Off),
        Command::Notify(Notice::Loaded(m.store.unwrap().len() as usize)),
        Command::Render,
    ]);
}

/// Once a new file is loaded, the result of the fetch that was in flight
/// changes nothing and asks for nothing, whatever it holds.
pub proof fn lemma_superseded_fetch_dropped(
    m: SessionModel,
    result: Option<Seq<Danmaku>>,
)
    ensures
        ({
            let m1 = handle_spec(m, Event::FileLoaded).0;
            finish_spec(m1, m.generation, result) == (m1, Seq::<Command>::empty())
        }),
{
}

} // verus!
