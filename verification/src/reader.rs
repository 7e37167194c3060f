//! The reader session: which readers were last seen, and the one connection
//! that may be live. The session decides and keeps the state; the caller
//! talks to the hardware service and reports what it answered.

use vstd::prelude::*;
use crate::error::{ConnectFailure, Error};
use crate::number::{parse_unsigned, parse_unsigned_range};
use crate::text::{owned, text_views, to_chars};

verus! {

/// How exclusively a connection holds its reader.
#[derive(Debug, Clone, Copy, PartialEq, Eq, Structural)]
pub enum ShareMode {
    /// Other processes may connect as well.
    Shared,
    /// This process alone.
    Exclusive,
    /// Control of the reader itself, without protocol negotiation with a
    /// card.
    Direct,
}

/// A reader as one enumeration saw it.
#[derive(Debug, Clone)]
pub struct ReaderInfo {
    /// The name by which the reader is opened.
    pub name: String,
    /// Whether a card answered in the reader.
    pub is_connected: bool,
    /// The card's answer to reset, where it could be read.
    pub atr: Option<Vec<u8>>,
}

/// The mathematical content of a `ReaderInfo`.
pub ghost struct ReaderInfoView {
    pub name: Seq<char>,
    pub is_connected: bool,
    pub atr: Option<Seq<u8>>,
}

impl View for ReaderInfo {
    type V = ReaderInfoView;

    open spec fn view(&self) -> ReaderInfoView {
        ReaderInfoView {
            name: self.name@,
            is_connected: self.is_connected,
            atr: match self.atr {
                Some(bytes) => Some(bytes@),
                None => None,
            },
        }
    }
}

/// What a status probe of one reader gave.
#[derive(Debug)]
pub enum ProbeOutcome {
    /// The reader could not be opened; holds the service's reason.
    Unreachable(String),
    /// The reader was opened; holds the card's answer to reset, or the reason
    /// why the status could not be read.
    Opened(Result<Vec<u8>, String>),
}

/// A reader's name with the outcome of its probe.
#[derive(Debug)]
pub struct ProbedReader {
    pub name: String,
    pub outcome: ProbeOutcome,
}

/// The entry that a probe gives for the reader `name`: a reader that could
/// not be opened counts as empty, one whose status could not be read as
/// holding a card without a known answer to reset.
pub open spec fn probed_info(name: Seq<char>, outcome: ProbeOutcome) -> ReaderInfoView {
    match outcome {
        ProbeOutcome::Unreachable(_) => ReaderInfoView { name, is_connected: false, atr: None },
        ProbeOutcome::Opened(Ok(atr)) => ReaderInfoView {
            name,
            is_connected: true,
            atr: Some(atr@),
        },
        ProbeOutcome::Opened(Err(_)) => ReaderInfoView { name, is_connected: true, atr: None },
    }
}

/// The entries that a round of probes gives, in order.
pub open spec fn probed_infos(probed: Seq<ProbedReader>) -> Seq<ReaderInfoView> {
    probed.map_values(|p: ProbedReader| probed_info(p.name@, p.outcome))
}

/// The names of the readers in `probed`, in order.
pub open spec fn probed_names(probed: Seq<ProbedReader>) -> Seq<Seq<char>> {
    probed.map_values(|p: ProbedReader| p.name@)
}

/// The views of `infos`, in order.
pub open spec fn info_views(infos: Seq<ReaderInfo>) -> Seq<ReaderInfoView> {
    infos.map_values(|r: ReaderInfo| r@)
}

/// What a reader selector stands for, given the names of the last listing:
/// a selector that reads as an index picks the name at that index and is out
/// of range beyond the listing; any other selector is itself the name.
pub open spec fn resolve_selector(names: Seq<Seq<char>>, selector: Seq<char>) -> Result<
    Seq<char>,
    (int, int),
> {
    match parse_unsigned(selector, 10, usize::MAX as int) {
        Some(index) => if index < names.len() {
            Ok(names[index])
        } else {
            Err((index, names.len() as int))
        },
        None => Ok(selector),
    }
}

/// Tells whether a reader selector reads as an index into a listing.
pub fn is_index_selector(name_or_index: &str) -> (b: bool)
    ensures
        b == parse_unsigned(name_or_index@, 10, usize::MAX as int) is Some,
{
    let chars = to_chars(name_or_index);
    assert(chars@.subrange(0, chars@.len() as int) == chars@);
    parse_unsigned_range(&chars, 0, chars.len(), 10, usize::MAX as u64).is_some()
}

/// The status that a probe gives: card present or not, and the answer to
/// reset where it was read.
pub fn reader_status(outcome: &ProbeOutcome) -> (r: (bool, Option<Vec<u8>>))
    ensures
        r.0 == !(outcome is Unreachable),
        match *outcome {
            ProbeOutcome::Opened(Ok(atr)) => r.1 matches Some(bytes) && bytes@ == atr@,
            _ => r.1 is None,
        },
{
    match outcome {
        ProbeOutcome::Unreachable(_) => (false, None),
        ProbeOutcome::Opened(Ok(atr)) => (true, Some(copy_bytes(atr))),
        ProbeOutcome::Opened(Err(_)) => (true, None),
    }
}

/// A copy of `bytes`.
pub fn copy_bytes(bytes: &Vec<u8>) -> (copy: Vec<u8>)
    ensures
        copy@ == bytes@,
{
    let mut copy: Vec<u8> = Vec::new();
    let mut i: usize = 0;
    while i < bytes.len()
        invariant
            i <= bytes.len(),
            copy@ == bytes@.take(i as int),
        decreases bytes.len() - i,
    {
        copy.push(bytes[i]);
        i += 1;
    }
    copy
}

/// What the session asks of its caller before a connection is opened.
#[derive(Debug)]
pub struct ConnectRequest<C> {
    /// The name of the reader to open.
    pub reader_name: String,
    /// The mode to open it in.
    pub share_mode: ShareMode,
    /// The connection that was live until now; it is to be closed before
    /// the new one is opened.
    pub to_close: Option<C>,
}

/// The session with the hardware service. `X` is the service's context and
/// `C` its connection handle; the session owns both and never looks inside.
pub struct PcscReader<X, C> {
    context: X,
    known_readers: Vec<String>,
    current: Option<(String, C)>,
}

impl<X, C> PcscReader<X, C> {
    /// The context of the hardware service.
    pub closed spec fn context_spec(self) -> X {
        self.context
    }

    /// The names of the readers in the last listing.
    pub closed spec fn known_names(self) -> Seq<Seq<char>> {
        text_views(self.known_readers@)
    }

    /// The name of the connected reader, where there is a connection.
    pub closed spec fn reader_name(self) -> Option<Seq<char>> {
        match self.current {
            Some((name, _)) => Some(name@),
            None => None,
        }
    }

    /// The live connection, where there is one.
    pub closed spec fn handle(self) -> Option<C> {
        match self.current {
            Some((_, card)) => Some(card),
            None => None,
        }
    }

    /// A connection is live exactly when a reader is named.
    pub proof fn lemma_connection_is_named(self)
        ensures
            self.reader_name() is Some <==> self.handle() is Some,
    {
    }

    /// Begins a session from the outcome of reaching the hardware service:
    /// with a context the session is ready, without a connection and with
    /// no reader listed; without one the service is unavailable.
    pub fn new(established: Result<X, String>) -> (r: Result<Self, Error>)
        ensures
            match established {
                Ok(context) => r matches Ok(session) && session.context_spec() == context
                    && session.handle() is None && session.reader_name() is None
                    && session.known_names() == Seq::<Seq<char>>::empty(),
                Err(reason) => r matches Err(Error::ServiceUnavailable(text)) && text@ == reason@,
            },
    {
        match established {
            Ok(context) => {
                let session = PcscReader { context, known_readers: Vec::new(), current: None };
                assert(text_views(session.known_readers@) == Seq::<Seq<char>>::empty());
                Ok(session)
            },
            Err(reason) => Err(Error::ServiceUnavailable(reason)),
        }
    }

    /// The context of the hardware service.
    pub fn context(&self) -> (x: &X)
        ensures
            *x == self.context_spec(),
    {
        &self.context
    }

    /// Records an enumeration and gives its entries. A listing that the
    /// service refused leaves the session as it was. A reader whose probe
    /// failed is listed as empty: one bad reader never hides the others.
    pub fn list_readers(&mut self, listed: Result<Vec<ProbedReader>, String>) -> (r: Result<
        Vec<ReaderInfo>,
        Error,
    >)
        ensures
            final(self).context_spec() == old(self).context_spec(),
            final(self).handle() == old(self).handle(),
            final(self).reader_name() == old(self).reader_name(),
            match listed {
                Ok(probed) => r matches Ok(infos) && info_views(infos@) == probed_infos(probed@)
                    && final(self).known_names() == probed_names(probed@),
                Err(reason) => r matches Err(Error::ServiceUnavailable(text)) && text@ == reason@
                    && final(self).known_names() == old(self).known_names(),
            },
    {
        match listed {
            Ok(probed) => {
                let ghost all = probed@;
                let mut infos: Vec<ReaderInfo> = Vec::new();
                let mut names: Vec<String> = Vec::new();
                let n = probed.len();
                let mut i: usize = 0;
                while i < n
                    invariant
                        n == all.len(),
                        all == probed@,
                        i <= n,
                        info_views(infos@) == probed_infos(all.take(i as int)),
                        text_views(names@) == probed_names(all.take(i as int)),
                    decreases n - i,
                {
                    let entry = &probed[i];
                    let kept = entry.name.clone();
                    let (is_connected, atr) = reader_status(&entry.outcome);
                    let info = ReaderInfo { name: entry.name.clone(), is_connected, atr };
                    proof {
                        let done = all.take(i as int);
                        let next = all.take(i + 1);
                        assert(next == done.push(all[i as int]));
                        assert(info@ == probed_info(all[i as int].name@, all[i as int].outcome));
                        assert(probed_infos(next) =~= probed_infos(done).push(info@));
                        assert(probed_names(next) =~= probed_names(done).push(kept@));
                        assert(info_views(infos@.push(info)) =~= info_views(infos@).push(info@));
                        assert(text_views(names@.push(kept)) =~= text_views(names@).push(kept@));
                    }
                    infos.push(info);
                    names.push(kept);
                    i += 1;
                }
                assert(all.take(n as int) == all);
                self.known_readers = names;
                Ok(infos)
            },
            Err(reason) => Err(Error::ServiceUnavailable(reason)),
        }
    }

    /// Resolves a reader selector against the last listing: a decimal index
    /// picks the reader listed at that place and is refused beyond the
    /// listing; any other text is taken as the reader's name.
    pub fn resolve_reader_name(&self, name_or_index: &str) -> (r: Result<String, Error>)
        ensures
            match resolve_selector(self.known_names(), name_or_index@) {
                Ok(name) => r matches Ok(text) && text@ == name,
                Err((index, count)) => r == Err::<String, Error>(
                    Error::IndexOutOfRange { index: index as usize, count: count as usize },
                ),
            },
    {
        let chars = to_chars(name_or_index);
        assert(chars@.subrange(0, chars@.len() as int) == chars@);
        match parse_unsigned_range(&chars, 0, chars.len(), 10, usize::MAX as u64) {
            Some(value) => {
                let index = value as usize;
                if index < self.known_readers.len() {
                    Ok(self.known_readers[index].clone())
                } else {
                    Err(Error::IndexOutOfRange { index, count: self.known_readers.len() })
                }
            },
            None => {
                Ok(owned(name_or_index))
            },
        }
    }

    /// Prepares a connection: resolves the selector as `resolve_reader_name`
    /// does and, where that succeeds, lets go of the live connection, which
    /// the caller closes before it opens the reader that the request names.
    /// A selector out of range changes nothing.
    pub fn begin_connect(&mut self, name_or_index: &str, share_mode: ShareMode) -> (r: Result<
        ConnectRequest<C>,
        Error,
    >)
        ensures
            final(self).context_spec() == old(self).context_spec(),
            final(self).known_names() == old(self).known_names(),
            match resolve_selector(old(self).known_names(), name_or_index@) {
                Ok(name) => r matches Ok(request) && request.reader_name@ == name
                    && request.share_mode == share_mode && request.to_close == old(self).handle()
                    && final(self).handle() is None && final(self).reader_name() is None,
                Err((index, count)) => r matches Err(
                    Error::IndexOutOfRange { index: i, count: c },
                ) && i == index && c == count && final(self).handle() == old(self).handle()
                    && final(self).reader_name() == old(self).reader_name(),
            },
    {
        match self.resolve_reader_name(name_or_index) {
            Ok(reader_name) => {
                let to_close = self.disconnect();
                Ok(ConnectRequest { reader_name, share_mode, to_close })
            },
            Err(e) => Err(e),
        }
    }

    /// Completes a connection with what the service answered. A handle makes
    /// the session connected to `reader_name`; a connection that was still
    /// live is displaced and handed back for the caller to close, so that
    /// the session never holds two. A failure leaves the session as it was.
    pub fn connect(&mut self, reader_name: &str, opened: Result<C, ConnectFailure>) -> (r: Result<
        Option<C>,
        Error,
    >)
        ensures
            final(self).context_spec() == old(self).context_spec(),
            final(self).known_names() == old(self).known_names(),
            match opened {
                Ok(card) => r == Ok::<Option<C>, Error>(old(self).handle()) && final(self).handle()
                    == Some(card) && final(self).reader_name() == Some(reader_name@),
                Err(failure) => r == Err::<Option<C>, Error>(Error::ConnectError(failure))
                    && final(self).handle() == old(self).handle() && final(self).reader_name()
                    == old(self).reader_name(),
            },
    {
        match opened {
            Ok(card) => {
                let mut previous: Option<(String, C)> = Some((owned(reader_name), card));
                std::mem::swap(&mut previous, &mut self.current);
                match previous {
                    Some((_, displaced)) => Ok(Some(displaced)),
                    None => Ok(None),
                }
            },
            Err(failure) => Err(Error::ConnectError(failure)),
        }
    }

    /// Ends the connection, if there is one, and hands its handle back for
    /// the caller to close with the card left in place. The session is then
    /// ready again; without a connection nothing changes.
    pub fn disconnect(&mut self) -> (released: Option<C>)
        ensures
            released == old(self).handle(),
            final(self).handle() is None,
            final(self).reader_name() is None,
            final(self).context_spec() == old(self).context_spec(),
            final(self).known_names() == old(self).known_names(),
    {
        let mut previous: Option<(String, C)> = None;
        std::mem::swap(&mut previous, &mut self.current);
        match previous {
            Some((_, released)) => Some(released),
            None => None,
        }
    }

    /// The name of the connected reader.
    pub fn current_reader(&self) -> (r: Option<&String>)
        ensures
            match r {
                Some(name) => self.reader_name() == Some(name@),
                None => self.reader_name() is None,
            },
    {
        match &self.current {
            Some((name, _)) => Some(name),
            None => None,
        }
    }

    /// Tells whether a connection is live.
    pub fn is_connected(&self) -> (b: bool)
        ensures
            b == self.handle() is Some,
            b == self.reader_name() is Some,
    {
        self.current.is_some()
    }

    /// The live connection, for commands.
    pub fn card(&self) -> (r: Option<&C>)
        ensures
            match r {
                Some(card) => self.handle() == Some(*card),
                None => self.handle() is None,
            },
    {
        match &self.current {
            Some((_, card)) => Some(card),
            None => None,
        }
    }

    /// The live connection, for commands that change it. Whatever the caller
    /// does with the handle, the session stays connected to the same reader.
    pub fn card_mut(&mut self) -> (r: Option<&mut C>)
        ensures
            final(self).context_spec() == old(self).context_spec(),
            final(self).known_names() == old(self).known_names(),
            final(self).reader_name() == old(self).reader_name(),
            match r {
                Some(card) => old(self).handle() == Some(*card) && final(self).handle() == Some(
                    *final(card),
                ),
                None => old(self).handle() is None && final(self).handle() is None,
            },
    {
        match &mut self.current {
            Some((_, card)) => Some(card),
            None => None,
        }
    }

    /// The entry of the connected reader, from a fresh probe of it; nothing
    /// without a connection.
    pub fn current_reader_info(&self, outcome: ProbeOutcome) -> (r: Option<ReaderInfo>)
        ensures
            match self.reader_name() {
                Some(name) => r matches Some(info) && info@ == probed_info(name, outcome),
                None => r is None,
            },
    {
        match &self.current {
            Some((name, _)) => {
                let (is_connected, atr) = reader_status(&outcome);
                Some(ReaderInfo { name: name.clone(), is_connected, atr })
            },
            None => None,
        }
    }

    /// Ends the session: hands back the context and the live connection, if
    /// any, for the caller to release.
    pub fn close(self) -> (r: (X, Option<C>))
        ensures
            r.0 == self.context_spec(),
            r.1 == self.handle(),
    {
        let PcscReader { context, known_readers: _, current } = self;
        match current {
            Some((_, card)) => (context, Some(card)),
            None => (context, None),
        }
    }
}

} // verus!
