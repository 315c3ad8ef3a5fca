use vstd::prelude::*;

verus! {

/// Most bytes taken from the terminal in one read.
pub const READ_CHUNK: usize = 8192;

/// The text that std's lossy UTF-8 decoding makes of `b`.
pub uninterp spec fn lossy_text(b: Seq<u8>) -> Seq<char>;

/// Relies on String::from_utf8_lossy: it decodes the first `n` bytes of
/// `buf`, putting U+FFFD in place of each invalid sequence, so the result
/// depends on those bytes alone and decoding never fails.
#[verifier::external_body]
fn decode_lossy(buf: &[u8], n: usize) -> (r: String)
    requires
        n <= buf@.len(),
    ensures
        r@ == lossy_text(buf@.subrange(0, n as int)),
{
    String::from_utf8_lossy(&buf[..n]).into_owned()
}

/// What one read from a session's terminal gave.
#[derive(Clone, Copy, Debug, PartialEq, Eq, Structural)]
pub enum ReadOutcome {
    /// This many bytes were read into the buffer; zero means the stream closed.
    Bytes(usize),
    /// The read failed.
    Failed,
}

/// An event pushed to the consumer of a session's output.
#[derive(Clone, Debug)]
pub enum BridgeEvent {
    /// A chunk of output, decoded to text.
    Data { id: String, data: String },
    /// The output stream of the session has ended.
    Exit { id: String },
}

/// An event, as identifier and text.
pub enum EventView {
    Data(Seq<char>, Seq<char>),
    Exit(Seq<char>),
}

impl BridgeEvent {
    pub open spec fn view(&self) -> EventView {
        match self {
            BridgeEvent::Data { id, data } => EventView::Data(id@, data@),
            BridgeEvent::Exit { id } => EventView::Exit(id@),
        }
    }

    /// The session the event belongs to.
    pub fn id(&self) -> (r: &String)
        ensures
            r@ == match self@ {
                EventView::Data(i, _) => i,
                EventView::Exit(i) => i,
            },
    {
        match self {
            BridgeEvent::Data { id, .. } => id,
            BridgeEvent::Exit { id } => id,
        }
    }

    /// Whether this is the end-of-stream event.
    pub fn is_exit(&self) -> (r: bool)
        ensures
            r == (self@ is Exit),
    {
        match self {
            BridgeEvent::Data { .. } => false,
            BridgeEvent::Exit { .. } => true,
        }
    }
}

/// The view of an optional event.
pub open spec fn event_view(e: Option<BridgeEvent>) -> Option<EventView> {
    match e {
        Some(ev) => Some(ev@),
        None => None,
    }
}

/// The view of an optional text.
pub open spec fn text_view(t: Option<String>) -> Option<Seq<char>> {
    match t {
        Some(s) => Some(s@),
        None => None,
    }
}

/// One step of the bridge of session `id`: given whether the stream is
/// still open and what was read (text, or `None` once the stream has
/// closed or failed), whether it stays open and which event is emitted.
pub open spec fn step(open: bool, id: Seq<char>, input: Option<Seq<char>>) -> (bool, Option<
    EventView,
>) {
    if !open {
        (false, None)
    } else {
        match input {
            Some(t) => (true, Some(EventView::Data(id, t))),
            None => (false, Some(EventView::Exit(id))),
        }
    }
}

/// What a read gave, as the bridge sees it: decoded text, or the end.
pub open spec fn read_input(outcome: ReadOutcome, buf: Seq<u8>) -> Option<Seq<char>> {
    match outcome {
        ReadOutcome::Bytes(n) => if n > 0 {
            Some(lossy_text(buf.subrange(0, n as int)))
        } else {
            None
        },
        ReadOutcome::Failed => None,
    }
}

/// The events emitted by a bridge that starts in state `open` and then
/// receives `inputs` in order.
pub open spec fn run(open: bool, id: Seq<char>, inputs: Seq<Option<Seq<char>>>) -> Seq<EventView>
    decreases inputs.len(),
{
    if inputs.len() == 0 {
        Seq::empty()
    } else {
        let (next, ev) = step(open, id, inputs[0]);
        let emitted = match ev {
            Some(e) => seq![e],
            None => Seq::empty(),
        };
        emitted + run(next, id, inputs.drop_first())
    }
}

/// The stream ends somewhere among `inputs`.
pub open spec fn stream_ends(inputs: Seq<Option<Seq<char>>>) -> bool {
    exists|k: int| 0 <= k < inputs.len() && inputs[k] is None
}

/// The identifier an event names.
pub open spec fn event_id(e: EventView) -> Seq<char> {
    match e {
        EventView::Data(i, _) => i,
        EventView::Exit(i) => i,
    }
}

/// Over the whole life of a session's bridge, every event names the
/// session; an exit event is emitted exactly when the stream ends among the
/// reads, once, as the last event, and every event before it carries data.
pub proof fn lemma_single_exit(id: Seq<char>, inputs: Seq<Option<Seq<char>>>)
    ensures
        forall|i: int|
            0 <= i < run(true, id, inputs).len() ==> event_id(#[trigger] run(true, id, inputs)[i])
                == id,
        forall|i: int|
            0 <= i < run(true, id, inputs).len() ==> ((#[trigger] run(true, id, inputs)[i] is Exit)
                <==> (i == run(true, id, inputs).len() - 1 && stream_ends(inputs))),
        stream_ends(inputs) ==> run(true, id, inputs).len() > 0,
    decreases inputs.len(),
{
    lemma_closed_silent(id, inputs);
    if inputs.len() > 0 {
        let rest = inputs.drop_first();
        lemma_single_exit(id, rest);
        let evs = run(true, id, inputs);
        match inputs[0] {
            Some(t) => {
                assert(evs == seq![EventView::Data(id, t)] + run(true, id, rest));
                if stream_ends(inputs) {
                    let k = choose|k: int| 0 <= k < inputs.len() && inputs[k] is None;
                    assert(rest[k - 1] is None);
                }
                if stream_ends(rest) {
                    let k = choose|k: int| 0 <= k < rest.len() && rest[k] is None;
                    assert(inputs[k + 1] is None);
                }
                assert forall|i: int| 0 <= i < evs.len() implies event_id(#[trigger] evs[i]) == id
                    && ((evs[i] is Exit) <==> (i == evs.len() - 1 && stream_ends(inputs))) by {
                    if i > 0 {
                        assert(evs[i] == run(true, id, rest)[i - 1]);
                    }
                }
            },
            None => {
                lemma_closed_silent(id, rest);
                assert(evs =~= seq![EventView::Exit(id)]);
                assert(stream_ends(inputs));
            },
        }
    }
}

/// A closed bridge emits nothing more.
proof fn lemma_closed_silent(id: Seq<char>, inputs: Seq<Option<Seq<char>>>)
    ensures
        run(false, id, inputs) == Seq::<EventView>::empty(),
    decreases inputs.len(),
{
    if inputs.len() > 0 {
        lemma_closed_silent(id, inputs.drop_first());
        assert(run(false, id, inputs) =~= Seq::<EventView>::empty());
    }
}

/// The reader side of one session: turns what is read from the terminal
/// into events for the consumer, until the stream ends.
pub struct Bridge {
    id: String,
    open: bool,
}

impl Bridge {
    /// The session this bridge belongs to.
    pub closed spec fn session(&self) -> Seq<char> {
        self.id@
    }

    /// Whether the stream may still yield output.
    pub closed spec fn spec_is_open(&self) -> bool {
        self.open
    }

    /// A bridge for session `id`, with its stream open.
    pub fn new(id: String) -> (r: Self)
        ensures
            r.session() == id@,
            r.spec_is_open(),
    {
        Bridge { id, open: true }
    }

    /// Whether the stream may still yield output.
    pub fn is_open(&self) -> (r: bool)
        ensures
            r == self.spec_is_open(),
    {
        self.open
    }

    /// The session this bridge belongs to.
    pub fn session_id(&self) -> (r: &String)
        ensures
            r@ == self.session(),
    {
        &self.id
    }

    /// Takes one decoded chunk of output (`Some`), or the end of the stream
    /// (`None`), and gives the event to emit, if any.
    pub fn on_text(&mut self, text: Option<String>) -> (r: Option<BridgeEvent>)
        ensures
            final(self).session() == old(self).session(),
            (final(self).spec_is_open(), event_view(r)) == step(
                old(self).spec_is_open(),
                old(self).session(),
                text_view(text),
            ),
    {
        if !self.open {
            return None;
        }
        match text {
            Some(data) => Some(BridgeEvent::Data { id: self.id.clone(), data }),
            None => {
                self.open = false;
                Some(BridgeEvent::Exit { id: self.id.clone() })
            },
        }
    }

    /// Takes the outcome of one read into `buf` and gives the event to
    /// emit, if any: a positive count gives the lossy decoding of that many
    /// bytes; zero or a failure ends the stream.
    pub fn on_read(&mut self, outcome: ReadOutcome, buf: &[u8]) -> (r: Option<BridgeEvent>)
        requires
            outcome matches ReadOutcome::Bytes(n) ==> n <= buf@.len(),
        ensures
            final(self).session() == old(self).session(),
            (final(self).spec_is_open(), event_view(r)) == step(
                old(self).spec_is_open(),
                old(self).session(),
                read_input(outcome, buf@),
            ),
    {
        let text = match outcome {
            ReadOutcome::Bytes(n) => if n > 0 {
                Some(decode_lossy(buf, n))
            } else {
                None
            },
            ReadOutcome::Failed => None,
        };
        self.on_text(text)
    }
}

} // verus!
