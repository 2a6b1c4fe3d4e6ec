//! The connection handler's registry of sessions and its decisions.
//!
//! One handler serves one connection. It keeps, for each open channel of
//! that connection, the session's viewport and whatever handles the
//! embedding program needs to reach the session (its locked state, its event
//! sender, its shutdown trigger). The transport's callbacks come here first:
//! the handler decides whether the channel is known and what follows, and
//! the embedding program does the rendering and the acknowledging.
//!
//! The handles are of a type `S` that the handler never looks into.

use vstd::prelude::*;
use vstd::string::*;
use std::collections::HashMap;
use crate::input::{decode, spec_decode, KeyboardEvent};

verus! {

broadcast use vstd::std_specs::hash::group_hash_axioms;

/// What a request on a channel without a session is answered with.
pub const INVALID_CHANNEL: &'static str = "Invalid channel Id";

/// A rectangle of terminal cells.
#[derive(Clone, Copy, Debug, PartialEq, Eq, Structural)]
pub struct Rect {
    pub x: u16,
    pub y: u16,
    pub width: u16,
    pub height: u16,
}

/// The verdict on an attempt to authenticate.
#[derive(Clone, Copy, Debug, PartialEq, Eq, Structural)]
pub enum Auth {
    Accept,
    Reject,
}

/// Why a callback could not be served.
#[derive(Clone, Copy, Debug, PartialEq, Eq, Structural)]
pub enum HandlerError {
    /// No session is registered for the channel.
    InvalidChannel,
}

/// What the registry holds for one open channel.
pub struct AppSession<S> {
    /// The area that the session renders into.
    pub viewport: Rect,
    /// The embedding program's handles on the session.
    pub handles: S,
}

/// The viewport of a session whose terminal size is not known yet. The size
/// arrives with a later request, which may come after the first draw.
pub open spec fn placeholder_viewport() -> Rect {
    Rect { x: 0, y: 0, width: 0, height: 0 }
}

/// The viewport for a terminal of `col_width` columns and `row_height` rows.
/// It starts at the origin. Of each dimension the low 16 bits count.
pub open spec fn viewport_for(col_width: u32, row_height: u32) -> Rect {
    Rect {
        x: 0,
        y: 0,
        width: (col_width % 0x1_0000) as u16,
        height: (row_height % 0x1_0000) as u16,
    }
}

/// The registry after a session with these handles was opened on `channel`.
pub open spec fn with_session<S>(
    sessions: Map<u32, AppSession<S>>,
    channel: u32,
    handles: S,
) -> Map<u32, AppSession<S>> {
    sessions.insert(channel, AppSession { viewport: placeholder_viewport(), handles })
}

/// The registry after a session on `channel` was given the viewport `rect`.
pub open spec fn with_viewport<S>(
    sessions: Map<u32, AppSession<S>>,
    channel: u32,
    rect: Rect,
) -> Map<u32, AppSession<S>> {
    sessions.insert(channel, AppSession { viewport: rect, handles: sessions[channel].handles })
}

/// What a request for a terminal of the given size does to the registry, and
/// what it is answered with. A session on `channel` gets the viewport for
/// that size. Without such a session the request is refused and nothing
/// changes.
pub open spec fn spec_resize<S>(
    sessions: Map<u32, AppSession<S>>,
    channel: u32,
    col_width: u32,
    row_height: u32,
) -> (Map<u32, AppSession<S>>, Result<Rect, HandlerError>) {
    if sessions.contains_key(channel) {
        let rect = viewport_for(col_width, row_height);
        (with_viewport(sessions, channel, rect), Ok(rect))
    } else {
        (sessions, Err(HandlerError::InvalidChannel))
    }
}

/// Computes the viewport for a terminal of the given size.
pub fn viewport(col_width: u32, row_height: u32) -> (rect: Rect)
    ensures
        rect == viewport_for(col_width, row_height),
{
    Rect {
        x: 0,
        y: 0,
        width: (col_width % 0x1_0000) as u16,
        height: (row_height % 0x1_0000) as u16,
    }
}

impl HandlerError {
    /// The error in words.
    pub fn message(&self) -> (text: String)
        ensures
            text@ == INVALID_CHANNEL@,
    {
        String::from_str(INVALID_CHANNEL)
    }
}

/// The sessions of one connection, by channel.
pub struct Handler<S> {
    apps: HashMap<u32, AppSession<S>>,
}

impl<S> View for Handler<S> {
    type V = Map<u32, AppSession<S>>;

    closed spec fn view(&self) -> Map<u32, AppSession<S>> {
        self.apps@
    }
}

impl<S> Default for Handler<S> {
    fn default() -> (handler: Self)
        ensures
            handler@ == Map::<u32, AppSession<S>>::empty(),
    {
        Handler { apps: HashMap::new() }
    }
}

impl<S> Handler<S> {
    /// A handler without sessions.
    pub fn new() -> (handler: Self)
        ensures
            handler@ == Map::<u32, AppSession<S>>::empty(),
    {
        Handler { apps: HashMap::new() }
    }

    /// How many sessions are registered.
    pub fn len(&self) -> (count: usize)
        ensures
            count == self@.len(),
    {
        self.apps.len()
    }

    /// Everybody is let in: the service is public.
    pub fn auth_publickey(&self, _user: &str) -> (verdict: Auth)
        ensures
            verdict == Auth::Accept,
    {
        Auth::Accept
    }

    /// The session on `channel`.
    pub fn get_session(&self, channel: u32) -> (found: Result<&AppSession<S>, HandlerError>)
        ensures
            match found {
                Ok(session) => self@.contains_key(channel) && *session == self@[channel],
                Err(error) => !self@.contains_key(channel) && error == HandlerError::InvalidChannel,
            },
    {
        match self.apps.get(&channel) {
            Some(session) => Ok(session),
            None => Err(HandlerError::InvalidChannel),
        }
    }

    /// Registers the session of a newly opened channel, with the placeholder
    /// viewport. Returns what the channel was registered with before, if it
    /// was.
    pub fn channel_open_session(&mut self, channel: u32, handles: S) -> (replaced: Option<
        AppSession<S>,
    >)
        ensures
            final(self)@ == with_session(old(self)@, channel, handles),
            match replaced {
                Some(session) => old(self)@.contains_key(channel) && session == old(self)@[channel],
                None => !old(self)@.contains_key(channel),
            },
    {
        let viewport = Rect { x: 0, y: 0, width: 0, height: 0 };
        self.apps.insert(channel, AppSession { viewport, handles })
    }

    /// Gives the session on `channel` the viewport `rect`, if there is one.
    fn resize(&mut self, channel: u32, rect: Rect) -> (done: Result<Rect, HandlerError>)
        ensures
            match done {
                Ok(applied) => {
                    &&& old(self)@.contains_key(channel)
                    &&& applied == rect
                    &&& final(self)@ == with_viewport(old(self)@, channel, rect)
                },
                Err(error) => {
                    &&& !old(self)@.contains_key(channel)
                    &&& error == HandlerError::InvalidChannel
                    &&& final(self)@ == old(self)@
                },
            },
    {
        match self.apps.remove(&channel) {
            Some(session) => {
                self.apps.insert(channel, AppSession { viewport: rect, handles: session.handles });
                assert(self@ =~= with_viewport(old(self)@, channel, rect));
                Ok(rect)
            },
            None => {
                assert(self@ =~= old(self)@);
                Err(HandlerError::InvalidChannel)
            },
        }
    }

    /// The client's window size has changed.
    ///
    /// On a known channel the session's viewport becomes the one for the new
    /// size, and that viewport is returned: the caller resizes the rendering
    /// surface to it, draws once and acknowledges the request. No other
    /// session is touched. On an unknown channel nothing changes.
    pub fn window_change_request(&mut self, channel: u32, col_width: u32, row_height: u32) -> (done:
        Result<Rect, HandlerError>)
        ensures
            final(self)@ == spec_resize(old(self)@, channel, col_width, row_height).0,
            done == spec_resize(old(self)@, channel, col_width, row_height).1,
            forall|other: u32|
                other != channel ==> {
                    &&& final(self)@.contains_key(other) == old(self)@.contains_key(other)
                    &&& #[trigger] final(self)@[other] == old(self)@[other]
                },
    {
        self.resize(channel, viewport(col_width, row_height))
    }

    /// The client asks for a pseudo-terminal of the given size. The size is
    /// taken in as a changed window size is.
    pub fn pty_request(&mut self, channel: u32, col_width: u32, row_height: u32) -> (done: Result<
        Rect,
        HandlerError,
    >)
        ensures
            final(self)@ == spec_resize(old(self)@, channel, col_width, row_height).0,
            done == spec_resize(old(self)@, channel, col_width, row_height).1,
            forall|other: u32|
                other != channel ==> {
                    &&& final(self)@.contains_key(other) == old(self)@.contains_key(other)
                    &&& #[trigger] final(self)@[other] == old(self)@[other]
                },
    {
        self.resize(channel, viewport(col_width, row_height))
    }

    /// Input bytes have arrived on `channel`.
    ///
    /// Returns the event that they stand for together with the handles of the
    /// session to send it to. Bytes that are no key are dropped, and so is a
    /// key for a channel without a session: the session has ended already.
    pub fn data(&self, channel: u32, data: &[u8]) -> (routed: Option<(KeyboardEvent, &S)>)
        ensures
            match routed {
                Some((event, handles)) => {
                    &&& spec_decode(data@) == Some(event)
                    &&& self@.contains_key(channel)
                    &&& *handles == self@[channel].handles
                },
                None => spec_decode(data@) is None || !self@.contains_key(channel),
            },
    {
        match decode(data) {
            Some(event) => match self.apps.get(&channel) {
                Some(session) => Some((event, &session.handles)),
                None => None,
            },
            None => None,
        }
    }

    /// Gives up the registry entry of `channel`, as its runner does when it
    /// terminates. Returns the entry, or `None` if there is none any more.
    pub fn release(&mut self, channel: u32) -> (released: Option<AppSession<S>>)
        ensures
            final(self)@ == old(self)@.remove(channel),
            match released {
                Some(session) => old(self)@.contains_key(channel) && session == old(self)@[channel],
                None => !old(self)@.contains_key(channel),
            },
    {
        self.apps.remove(&channel)
    }
}

/// An entry is released once: right after a release, on whatever registry,
/// the channel has no entry, and a second release finds nothing to change.
pub proof fn lemma_release_once<S>(sessions: Map<u32, AppSession<S>>, channel: u32)
    ensures
        !sessions.remove(channel).contains_key(channel),
        sessions.remove(channel).remove(channel) == sessions.remove(channel),
{
    assert(sessions.remove(channel).remove(channel) =~= sessions.remove(channel));
}

/// Sessions on different channels are independent: a request for a new size
/// on one of them, granted or refused, leaves the entry of every other
/// channel as it was.
pub proof fn lemma_resize_is_local<S>(
    sessions: Map<u32, AppSession<S>>,
    channel: u32,
    other: u32,
    col_width: u32,
    row_height: u32,
)
    requires
        channel != other,
    ensures
        spec_resize(sessions, channel, col_width, row_height).0.contains_key(other)
            == sessions.contains_key(other),
        spec_resize(sessions, channel, col_width, row_height).0[other] == sessions[other],
{
}

} // verus!
