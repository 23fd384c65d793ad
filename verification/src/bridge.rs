//! The transport bridge: one WebSocket connection behind a pair of queues
//! that a frame loop can poll without waiting.
//!
//! The connection itself is driven by a task of the caller. What the task
//! does next is decided here: `bridge_step` takes the state of the bridge
//! and what has just happened, and gives the next state, the event for the
//! consumer and the frame for the peer. `NfwsHandle` is the consumer's end.

use vstd::prelude::*;
use vstd::string::*;

verus! {

// ---------------------------------------------------------------------------
// Commands and events
// ---------------------------------------------------------------------------

/// Why a bridge failed.
#[derive(Debug, Clone, PartialEq, Eq)]
pub enum NfwsErr {
    Connecting,
    Receiving(String),
    Sending(String),
}

/// What a bridge tells its consumer.
#[derive(Debug, PartialEq, Eq)]
pub enum NfwsEvent {
    Connecting,
    Connected,
    TextMessage(String),
    BinaryMessage(Vec<u8>),
    Error(NfwsErr),
    /// The peer closed the connection: in the normal way, with its reason,
    /// or in another, with its code and reason.
    Closed(Result<String, String>),
}

/// What a consumer asks of its bridge.
#[derive(Debug, Clone, PartialEq, Eq)]
pub enum NfwsCmd {
    SendTextMessage(String),
    SendBinaryMessage(Vec<u8>),
    Disconnect,
}

/// What a poll for the next event finds.
#[derive(Debug, PartialEq, Eq)]
pub enum NfwsPollResult {
    /// No event is waiting and none will come.
    Closed,
    /// No event is waiting.
    Empty,
    Event(NfwsEvent),
}

/// A failure as a value of specifications.
pub enum ErrView {
    Connecting,
    Receiving(Seq<char>),
    Sending(Seq<char>),
}

/// An event as a value of specifications.
pub enum EventView {
    Connecting,
    Connected,
    TextMessage(Seq<char>),
    BinaryMessage(Seq<u8>),
    Error(ErrView),
    Closed(Result<Seq<char>, Seq<char>>),
}

impl View for NfwsErr {
    type V = ErrView;

    open spec fn view(&self) -> ErrView {
        match *self {
            NfwsErr::Connecting => ErrView::Connecting,
            NfwsErr::Receiving(text) => ErrView::Receiving(text@),
            NfwsErr::Sending(text) => ErrView::Sending(text@),
        }
    }
}

impl View for NfwsEvent {
    type V = EventView;

    open spec fn view(&self) -> EventView {
        match *self {
            NfwsEvent::Connecting => EventView::Connecting,
            NfwsEvent::Connected => EventView::Connected,
            NfwsEvent::TextMessage(text) => EventView::TextMessage(text@),
            NfwsEvent::BinaryMessage(bytes) => EventView::BinaryMessage(bytes@),
            NfwsEvent::Error(error) => EventView::Error(error@),
            NfwsEvent::Closed(Ok(reason)) => EventView::Closed(Ok(reason@)),
            NfwsEvent::Closed(Err(reason)) => EventView::Closed(Err(reason@)),
        }
    }
}

impl Clone for NfwsEvent {
    fn clone(&self) -> (copy: Self)
        ensures
            copy@ == self@,
    {
        match self {
            NfwsEvent::Connecting => NfwsEvent::Connecting,
            NfwsEvent::Connected => NfwsEvent::Connected,
            NfwsEvent::TextMessage(text) => NfwsEvent::TextMessage(text.clone()),
            NfwsEvent::BinaryMessage(bytes) => {
                let copy = bytes.clone();
                assert(copy@ =~= bytes@);
                NfwsEvent::BinaryMessage(copy)
            },
            NfwsEvent::Error(error) => NfwsEvent::Error(
                match error {
                    NfwsErr::Connecting => NfwsErr::Connecting,
                    NfwsErr::Receiving(text) => NfwsErr::Receiving(text.clone()),
                    NfwsErr::Sending(text) => NfwsErr::Sending(text.clone()),
                },
            ),
            NfwsEvent::Closed(Ok(reason)) => NfwsEvent::Closed(Ok(reason.clone())),
            NfwsEvent::Closed(Err(reason)) => NfwsEvent::Closed(Err(reason.clone())),
        }
    }
}

/// A frame for the peer.
#[derive(Debug, Clone, PartialEq, Eq)]
pub enum OutboundFrame {
    Text(String),
    Binary(Vec<u8>),
}

/// A frame as a value of specifications.
pub enum FrameView {
    Text(Seq<char>),
    Binary(Seq<u8>),
}

impl View for OutboundFrame {
    type V = FrameView;

    open spec fn view(&self) -> FrameView {
        match *self {
            OutboundFrame::Text(text) => FrameView::Text(text@),
            OutboundFrame::Binary(bytes) => FrameView::Binary(bytes@),
        }
    }
}

// ---------------------------------------------------------------------------
// The state machine
// ---------------------------------------------------------------------------

/// Where a bridge stands.
#[derive(Debug, Clone, Copy, PartialEq, Eq)]
pub enum BridgeState {
    /// The task has not begun.
    Starting,
    /// The connection is being opened.
    Connecting,
    /// Frames and commands are served.
    Connected,
    /// The bridge has ended without an error.
    Closed,
    /// The bridge has ended with an error.
    Failed,
}

/// The close frame of a peer.
#[derive(Debug, Clone, PartialEq, Eq)]
pub struct CloseNotice {
    pub code: u16,
    pub reason: String,
}

/// What has just happened to a bridge.
#[derive(Debug, Clone, PartialEq, Eq)]
pub enum BridgeInput {
    /// The task begins.
    Start,
    /// The connection stands.
    Opened,
    /// The connection could not be opened.
    OpenFailed,
    /// A text frame came in.
    Text(String),
    /// A binary frame came in.
    Binary(Vec<u8>),
    /// A close frame came in, with or without a code and a reason.
    Close(Option<CloseNotice>),
    /// The peer is gone without a close frame.
    StreamEnded,
    /// Reading failed; the text describes the error.
    ReceiveFailed(String),
    /// The consumer asks for something.
    Command(NfwsCmd),
    /// The consumer is gone.
    CommandsClosed,
    /// The last frame could not be sent; the text describes the error.
    SendFailed(String),
}

/// What a bridge does about an input.
#[derive(Debug, Clone, PartialEq, Eq)]
pub struct BridgeStep {
    pub state: BridgeState,
    /// The event for the consumer.
    pub event: Option<NfwsEvent>,
    /// The frame for the peer.
    pub frame: Option<OutboundFrame>,
}

/// The close code of a connection that ended as intended: the number of
/// `CloseCode::Normal`.
pub const NORMAL_CLOSE: u16 = 1000;

/// How `tokio_tungstenite_wasm::CloseCode` prints the code `code` with
/// `{:?}`.
pub uninterp spec fn close_code_debug(code: u16) -> Seq<char>;

/// How `str` prints `text` with `{:?}`: in quotes, with escapes.
pub uninterp spec fn quoted_text(text: Seq<char>) -> Seq<char>;

/// Prints the close code `code` as `tokio_tungstenite_wasm::CloseCode`
/// does with `{:?}`, after `CloseCode::from` has read it. The result
/// depends on the code alone and is named `close_code_debug`.
#[verifier::external_body]
fn close_code_text(code: u16) -> (text: String)
    ensures
        text@ == close_code_debug(code),
{
    format!("{:?}", tokio_tungstenite_wasm::CloseCode::from(code))
}

/// Prints `text` as `str` does with `{:?}`. The result depends on the text
/// alone and is named `quoted_text`.
#[verifier::external_body]
fn debug_text(text: &str) -> (quoted: String)
    ensures
        quoted@ == quoted_text(text@),
{
    format!("{:?}", text)
}

/// What is said of a connection that the peer closed in another than the
/// normal way.
pub open spec fn close_description(code: u16, reason: Seq<char>) -> Seq<char> {
    close_code_debug(code) + " - "@ + quoted_text(reason)
}

/// What a close frame means for the consumer.
pub open spec fn close_event(notice: Option<CloseNotice>) -> EventView {
    match notice {
        None => EventView::Closed(Ok(Seq::empty())),
        Some(close) => if close.code == NORMAL_CLOSE {
            EventView::Closed(Ok(close.reason@))
        } else {
            EventView::Closed(Err(close_description(close.code, close.reason@)))
        },
    }
}

/// Reads a close frame.
pub fn read_close(notice: &Option<CloseNotice>) -> (event: NfwsEvent)
    ensures
        event@ == close_event(*notice),
{
    match notice {
        None => NfwsEvent::Closed(Ok(String::new())),
        Some(close) => {
            if close.code == NORMAL_CLOSE {
                NfwsEvent::Closed(Ok(close.reason.clone()))
            } else {
                let mut text = close_code_text(close.code);
                text.append(" - ");
                let reason = debug_text(close.reason.as_str());
                text.append(reason.as_str());
                NfwsEvent::Closed(Err(text))
            }
        },
    }
}

/// The bridge has ended.
pub open spec fn is_final(state: BridgeState) -> bool {
    state is Closed || state is Failed
}

/// The state of a bridge after an input.
pub open spec fn next_state(state: BridgeState, input: BridgeInput) -> BridgeState {
    match (state, input) {
        (BridgeState::Starting, BridgeInput::Start) => BridgeState::Connecting,
        (BridgeState::Connecting, BridgeInput::Opened) => BridgeState::Connected,
        (BridgeState::Connecting, BridgeInput::OpenFailed) => BridgeState::Failed,
        (BridgeState::Connected, BridgeInput::Close(_)) => BridgeState::Closed,
        (BridgeState::Connected, BridgeInput::StreamEnded) => BridgeState::Closed,
        (BridgeState::Connected, BridgeInput::ReceiveFailed(_)) => BridgeState::Failed,
        (BridgeState::Connected, BridgeInput::Command(NfwsCmd::Disconnect)) => BridgeState::Closed,
        (BridgeState::Connected, BridgeInput::CommandsClosed) => BridgeState::Closed,
        (BridgeState::Connected, BridgeInput::SendFailed(_)) => BridgeState::Failed,
        _ => state,
    }
}

/// The event that an input makes for the consumer.
pub open spec fn emitted(state: BridgeState, input: BridgeInput) -> Option<EventView> {
    match (state, input) {
        (BridgeState::Starting, BridgeInput::Start) => Some(EventView::Connecting),
        (BridgeState::Connecting, BridgeInput::Opened) => Some(EventView::Connected),
        (BridgeState::Connecting, BridgeInput::OpenFailed) => Some(
            EventView::Error(ErrView::Connecting),
        ),
        (BridgeState::Connected, BridgeInput::Text(text)) => Some(EventView::TextMessage(text@)),
        (BridgeState::Connected, BridgeInput::Binary(bytes)) => Some(
            EventView::BinaryMessage(bytes@),
        ),
        (BridgeState::Connected, BridgeInput::Close(notice)) => Some(close_event(notice)),
        (BridgeState::Connected, BridgeInput::ReceiveFailed(error)) => Some(
            EventView::Error(ErrView::Receiving("Error receiving message: "@ + error@)),
        ),
        (BridgeState::Connected, BridgeInput::SendFailed(error)) => Some(
            EventView::Error(ErrView::Sending("Error sending message: "@ + error@)),
        ),
        _ => None,
    }
}

/// The frame that an input makes for the peer.
pub open spec fn outbound(state: BridgeState, input: BridgeInput) -> Option<FrameView> {
    match (state, input) {
        (BridgeState::Connected, BridgeInput::Command(NfwsCmd::SendTextMessage(text))) => Some(
            FrameView::Text(text@),
        ),
        (BridgeState::Connected, BridgeInput::Command(NfwsCmd::SendBinaryMessage(bytes))) => Some(
            FrameView::Binary(bytes@),
        ),
        _ => None,
    }
}

/// The event of a step as a value of specifications.
pub open spec fn event_view(event: Option<NfwsEvent>) -> Option<EventView> {
    match event {
        Some(e) => Some(e@),
        None => None,
    }
}

/// The frame of a step as a value of specifications.
pub open spec fn frame_view(frame: Option<OutboundFrame>) -> Option<FrameView> {
    match frame {
        Some(f) => Some(f@),
        None => None,
    }
}

/// A step that tells nobody anything.
fn stay(state: BridgeState) -> (step: BridgeStep)
    ensures
        step.state == state,
        step.event is None,
        step.frame is None,
{
    BridgeStep { state, event: None, frame: None }
}

/// A step that tells the consumer of an event.
fn emit(state: BridgeState, event: NfwsEvent) -> (step: BridgeStep)
    ensures
        step.state == state,
        step.event == Some(event),
        step.frame is None,
{
    BridgeStep { state, event: Some(event), frame: None }
}

/// `prefix` followed by `text`.
fn prefixed(prefix: &str, text: &str) -> (joined: String)
    ensures
        joined@ == prefix@ + text@,
{
    let mut joined = String::from_str(prefix);
    joined.append(text);
    joined
}

/// What a bridge in `state` does about `input`.
///
/// An input that does not fit the state changes nothing; a bridge that has
/// ended stays as it is.
pub fn bridge_step(state: BridgeState, input: BridgeInput) -> (step: BridgeStep)
    ensures
        step.state == next_state(state, input),
        event_view(step.event) == emitted(state, input),
        frame_view(step.frame) == outbound(state, input),
{
    match state {
        BridgeState::Starting => match input {
            BridgeInput::Start => emit(BridgeState::Connecting, NfwsEvent::Connecting),
            _ => stay(state),
        },
        BridgeState::Connecting => match input {
            BridgeInput::Opened => emit(BridgeState::Connected, NfwsEvent::Connected),
            BridgeInput::OpenFailed => emit(
                BridgeState::Failed,
                NfwsEvent::Error(NfwsErr::Connecting),
            ),
            _ => stay(state),
        },
        BridgeState::Connected => match input {
            BridgeInput::Text(text) => emit(BridgeState::Connected, NfwsEvent::TextMessage(text)),
            BridgeInput::Binary(bytes) => emit(
                BridgeState::Connected,
                NfwsEvent::BinaryMessage(bytes),
            ),
            BridgeInput::Close(notice) => emit(BridgeState::Closed, read_close(&notice)),
            BridgeInput::StreamEnded => stay(BridgeState::Closed),
            BridgeInput::ReceiveFailed(error) => emit(
                BridgeState::Failed,
                NfwsEvent::Error(
                    NfwsErr::Receiving(prefixed("Error receiving message: ", error.as_str())),
                ),
            ),
            BridgeInput::Command(command) => match command {
                NfwsCmd::SendTextMessage(text) => BridgeStep {
                    state: BridgeState::Connected,
                    event: None,
                    frame: Some(OutboundFrame::Text(text)),
                },
                NfwsCmd::SendBinaryMessage(bytes) => BridgeStep {
                    state: BridgeState::Connected,
                    event: None,
                    frame: Some(OutboundFrame::Binary(bytes)),
                },
                NfwsCmd::Disconnect => stay(BridgeState::Closed),
            },
            BridgeInput::CommandsClosed => stay(BridgeState::Closed),
            BridgeInput::SendFailed(error) => emit(
                BridgeState::Failed,
                NfwsEvent::Error(
                    NfwsErr::Sending(prefixed("Error sending message: ", error.as_str())),
                ),
            ),
            _ => stay(state),
        },
        BridgeState::Closed => stay(state),
        BridgeState::Failed => stay(state),
    }
}

// ---------------------------------------------------------------------------
// The consumer's end
// ---------------------------------------------------------------------------

/// The sending end of a queue (`async_channel::Sender`). Nothing is known
/// of what is inside.
#[verifier::external_type_specification]
#[verifier::external_body]
#[verifier::reject_recursive_types(T)]
pub struct ExSender<T>(async_channel::Sender<T>);

/// The receiving end of a queue (`async_channel::Receiver`). Nothing is
/// known of what is inside.
#[verifier::external_type_specification]
#[verifier::external_body]
#[verifier::reject_recursive_types(T)]
pub struct ExReceiver<T>(async_channel::Receiver<T>);

/// Why nothing was taken from a queue.
#[derive(Debug, Clone, Copy, PartialEq, Eq)]
pub enum ReceiveFailure {
    Empty,
    Closed,
}

/// Makes a queue without a bound (`async_channel::unbounded`) and gives
/// its two ends.
#[verifier::external_body]
fn open_queue<T>() -> (ends: (async_channel::Sender<T>, async_channel::Receiver<T>)) {
    async_channel::unbounded()
}

/// Takes the next item from a queue without waiting
/// (`async_channel::Receiver::try_recv`). What comes back depends on what
/// the other end has done, so nothing is claimed of it.
#[verifier::external_body]
fn try_receive<T>(queue: &async_channel::Receiver<T>) -> (taken: Result<T, ReceiveFailure>) {
    match queue.try_recv() {
        Ok(item) => Ok(item),
        Err(async_channel::TryRecvError::Empty) => Err(ReceiveFailure::Empty),
        Err(async_channel::TryRecvError::Closed) => Err(ReceiveFailure::Closed),
    }
}

/// Puts an item into a queue without waiting
/// (`async_channel::Sender::try_send`) and says whether the queue took it.
/// That depends on what the other end has done, so nothing is claimed.
#[verifier::external_body]
fn try_deliver<T>(queue: &async_channel::Sender<T>, item: T) -> (taken: bool) {
    queue.try_send(item).is_ok()
}

/// What a poll reports for what the event queue gave.
pub open spec fn poll_result_of(taken: Result<NfwsEvent, ReceiveFailure>) -> NfwsPollResult {
    match taken {
        Ok(event) => NfwsPollResult::Event(event),
        Err(ReceiveFailure::Empty) => NfwsPollResult::Empty,
        Err(ReceiveFailure::Closed) => NfwsPollResult::Closed,
    }
}

/// What a poll reports for what the event queue gave.
pub fn poll_result(taken: Result<NfwsEvent, ReceiveFailure>) -> (result: NfwsPollResult)
    ensures
        result == poll_result_of(taken),
{
    match taken {
        Ok(event) => NfwsPollResult::Event(event),
        Err(ReceiveFailure::Empty) => NfwsPollResult::Empty,
        Err(ReceiveFailure::Closed) => NfwsPollResult::Closed,
    }
}

/// What the task of a bridge works with: the commands of the consumer, the
/// queue for its events, and the address to connect to.
#[derive(Debug)]
pub struct BridgeEnds {
    pub commands: async_channel::Receiver<NfwsCmd>,
    pub events: async_channel::Sender<NfwsEvent>,
    pub ws_url: String,
}

/// The consumer's end of a bridge.
pub struct NfwsHandle {
    cmd_tx: async_channel::Sender<NfwsCmd>,
    cmd_rx: Option<async_channel::Receiver<NfwsCmd>>,
    ev_tx: Option<async_channel::Sender<NfwsEvent>>,
    ev_rx: async_channel::Receiver<NfwsEvent>,
    ws_url: String,
    queued: Ghost<Seq<CmdView>>,
    polled: Ghost<Seq<EventView>>,
}

impl NfwsHandle {
    /// The address that the bridge connects to.
    pub closed spec fn url(&self) -> Seq<char> {
        self.ws_url@
    }

    /// Whether the ends for the task are still with the handle.
    pub closed spec fn holds_task_ends(&self) -> bool {
        self.cmd_rx is Some && self.ev_tx is Some
    }

    /// A handle for a bridge to `ws_url`. Its task has yet to be started,
    /// and nothing has been sent or polled.
    pub fn new(ws_url: String) -> (handle: NfwsHandle)
        ensures
            handle.url() == ws_url@,
            handle.holds_task_ends(),
            handle.queued() == Seq::<CmdView>::empty(),
            handle.polled() == Seq::<EventView>::empty(),
    {
        let (cmd_tx, cmd_rx) = open_queue::<NfwsCmd>();
        let (ev_tx, ev_rx) = open_queue::<NfwsEvent>();
        NfwsHandle {
            cmd_tx,
            cmd_rx: Some(cmd_rx),
            ev_tx: Some(ev_tx),
            ev_rx,
            ws_url,
            queued: Ghost(Seq::empty()),
            polled: Ghost(Seq::empty()),
        }
    }

    /// The next event of the bridge, if one is waiting. Never waits.
    ///
    /// Which event is waiting, if any, is up to the bridge. An event that
    /// is handed out is the next in the record of the events polled;
    /// a poll that finds none leaves the record as it is.
    pub fn next_event(&mut self) -> (result: NfwsPollResult)
        ensures
            final(self).polled() == polled_after(old(self).polled(), result),
            final(self).queued() == old(self).queued(),
            final(self).url() == old(self).url(),
            final(self).holds_task_ends() == old(self).holds_task_ends(),
    {
        let result = poll_result(try_receive(&self.ev_rx));
        self.polled = Ghost(polled_after(self.polled@, result));
        result
    }

    /// Queues a command for the bridge, and says whether it was queued.
    /// Never waits; a bridge that has ended takes no commands.
    ///
    /// Whether the queue takes the command is up to the bridge. A command
    /// that is taken is the next in the record of the commands queued; one
    /// that is dropped leaves no trace.
    pub fn send(&mut self, command: NfwsCmd) -> (queued: bool)
        ensures
            final(self).queued() == queued_after(old(self).queued(), command@, queued),
            final(self).polled() == old(self).polled(),
            final(self).url() == old(self).url(),
            final(self).holds_task_ends() == old(self).holds_task_ends(),
    {
        let ghost asked = command@;
        let taken = try_deliver(&self.cmd_tx, command);
        self.queued = Ghost(queued_after(self.queued@, asked, taken));
        taken
    }

    /// Queues a text message for the peer: the command that is queued is
    /// `SendTextMessage` with `msg`.
    pub fn send_text(&mut self, msg: String) -> (queued: bool)
        ensures
            final(self).queued() == queued_after(
                old(self).queued(),
                CmdView::SendTextMessage(msg@),
                queued,
            ),
            final(self).polled() == old(self).polled(),
            final(self).url() == old(self).url(),
            final(self).holds_task_ends() == old(self).holds_task_ends(),
    {
        self.send(NfwsCmd::SendTextMessage(msg))
    }

    /// Hands out what the task of the bridge works with. The ends are
    /// handed out once: `None` where they are gone.
    pub fn take_task_ends(&mut self) -> (ends: Option<BridgeEnds>)
        ensures
            final(self).url() == old(self).url(),
            final(self).queued() == old(self).queued(),
            final(self).polled() == old(self).polled(),
            !final(self).holds_task_ends(),
            match ends {
                Some(taken) => old(self).holds_task_ends() && taken.ws_url@ == old(self).url(),
                None => !old(self).holds_task_ends(),
            },
    {
        if self.cmd_rx.is_none() || self.ev_tx.is_none() {
            self.cmd_rx = None;
            self.ev_tx = None;
            return None;
        }
        let commands = self.cmd_rx.take();
        let events = self.ev_tx.take();
        match (commands, events) {
            (Some(commands), Some(events)) => Some(
                BridgeEnds { commands, events, ws_url: self.ws_url.clone() },
            ),
            _ => None,
        }
    }

    /// The commands that the queue has taken from this handle, in the order
    /// in which they were sent.
    pub closed spec fn queued(&self) -> Seq<CmdView> {
        self.queued@
    }

    /// The events that polls of this handle have handed out, in the order
    /// in which they came.
    pub closed spec fn polled(&self) -> Seq<EventView> {
        self.polled@
    }
}

/// A command as a value of specifications.
pub enum CmdView {
    SendTextMessage(Seq<char>),
    SendBinaryMessage(Seq<u8>),
    Disconnect,
}

impl View for NfwsCmd {
    type V = CmdView;

    open spec fn view(&self) -> CmdView {
        match *self {
            NfwsCmd::SendTextMessage(text) => CmdView::SendTextMessage(text@),
            NfwsCmd::SendBinaryMessage(bytes) => CmdView::SendBinaryMessage(bytes@),
            NfwsCmd::Disconnect => CmdView::Disconnect,
        }
    }
}

/// The record of the commands queued once `command` has been sent: the
/// command comes last where the queue took it (`taken`), and is not in the
/// record where the queue dropped it.
pub open spec fn queued_after(record: Seq<CmdView>, command: CmdView, taken: bool) -> Seq<
    CmdView,
> {
    if taken {
        record.push(command)
    } else {
        record
    }
}

/// The record of the events polled once a poll has given `result`: an
/// event that was handed out comes last, and nothing else is recorded.
pub open spec fn polled_after(record: Seq<EventView>, result: NfwsPollResult) -> Seq<EventView> {
    match result {
        NfwsPollResult::Event(event) => record.push(event@),
        _ => record,
    }
}

// ---------------------------------------------------------------------------
// What holds of every bridge
// ---------------------------------------------------------------------------

/// A bridge that has ended stays as it is: it takes no input, tells its
/// consumer nothing more and sends nothing.
pub proof fn lemma_final_states_absorb(state: BridgeState, input: BridgeInput)
    requires
        is_final(state),
    ensures
        next_state(state, input) == state,
        emitted(state, input) is None,
        outbound(state, input) is None,
{
}

/// A bridge that fails says so: the input on which it fails makes an error
/// event. With the lemma above, the consumer hears of a failure once.
pub proof fn lemma_failure_is_reported(state: BridgeState, input: BridgeInput)
    requires
        !(state is Failed),
        next_state(state, input) is Failed,
    ensures
        emitted(state, input) matches Some(EventView::Error(_)),
{
}

/// Frames go out only while the bridge is connected, and what goes out is
/// what the command holds.
pub proof fn lemma_frames_need_connection(state: BridgeState, input: BridgeInput)
    requires
        outbound(state, input) is Some,
    ensures
        state is Connected,
        next_state(state, input) is Connected,
        input is Command,
{
}

/// What a bridge has done after a run of inputs: where it stands, and the
/// events and the frames that it has made, in order.
pub struct BridgeTrace {
    pub state: BridgeState,
    pub events: Seq<EventView>,
    pub frames: Seq<FrameView>,
}

/// The trace with what one more input adds.
pub open spec fn trace_after(trace: BridgeTrace, input: BridgeInput) -> BridgeTrace {
    BridgeTrace {
        state: next_state(trace.state, input),
        events: match emitted(trace.state, input) {
            Some(event) => trace.events.push(event),
            None => trace.events,
        },
        frames: match outbound(trace.state, input) {
            Some(frame) => trace.frames.push(frame),
            None => trace.frames,
        },
    }
}

/// The trace of a bridge that starts in `state` and is given `inputs`.
pub open spec fn trace_of(state: BridgeState, inputs: Seq<BridgeInput>) -> BridgeTrace
    decreases inputs.len(),
{
    if inputs.len() == 0 {
        BridgeTrace { state, events: Seq::empty(), frames: Seq::empty() }
    } else {
        trace_after(trace_of(state, inputs.drop_last()), inputs.last())
    }
}

/// The number of error events among `events`.
pub open spec fn error_count(events: Seq<EventView>) -> nat
    decreases events.len(),
{
    if events.len() == 0 {
        0
    } else {
        error_count(events.drop_last()) + if events.last() is Error {
            1nat
        } else {
            0nat
        }
    }
}

/// Whatever a bridge is given, it reports at most one error, and the error
/// is the last event that it makes: a bridge that has failed has reported
/// exactly one, and a bridge that has not failed has reported none.
pub proof fn lemma_one_error_at_most(inputs: Seq<BridgeInput>)
    ensures
        ({
            let trace = trace_of(BridgeState::Starting, inputs);
            &&& error_count(trace.events) == if trace.state is Failed {
                1nat
            } else {
                0nat
            }
            &&& trace.state is Failed ==> trace.events.len() > 0 && trace.events.last() is Error
        }),
    decreases inputs.len(),
{
    if inputs.len() > 0 {
        lemma_one_error_at_most(inputs.drop_last());
        let before = trace_of(BridgeState::Starting, inputs.drop_last());
        let input = inputs.last();
        let after = trace_after(before, input);
        match emitted(before.state, input) {
            Some(event) => {
                assert(after.events.drop_last() == before.events);
            },
            None => {},
        }
    }
}

/// A connected bridge hands on what comes in and what is asked of it in the
/// order in which it is given: a text frame that comes in is the next
/// event, and a text message that the consumer sends is the next frame.
pub proof fn lemma_order_is_kept(trace: BridgeTrace, text: String)
    requires
        trace.state is Connected,
    ensures
        trace_after(trace, BridgeInput::Text(text)).events == trace.events.push(
            EventView::TextMessage(text@),
        ),
        trace_after(trace, BridgeInput::Text(text)).frames == trace.frames,
        trace_after(trace, BridgeInput::Command(NfwsCmd::SendTextMessage(text))).frames
            == trace.frames.push(FrameView::Text(text@)),
        trace_after(trace, BridgeInput::Command(NfwsCmd::SendTextMessage(text))).events
            == trace.events,
{
}

} // verus!
