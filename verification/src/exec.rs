//! Commands run in a sandbox over a web socket.
//!
//! A session starts with one request ([`check_exec_request`], [`plan_exec`], [`exec_attach`]) and
//! is then driven by what the client sends and what the guest reports ([`ExecSession`]).
use crate::backend::SandboxStatus;
use crate::convert::is_live;
use crate::string_map::{entries_view, Entry};
use crate::text::{
    lemma_first_of_is, split_first, split_text_once, texts_view,
};
use vstd::prelude::*;
use vstd::string::*;

verus! {

// -------------------------------------------------------------------------------------------
// Reading messages
// -------------------------------------------------------------------------------------------

/// The messages of the protocol that a session tells apart.
#[derive(Debug, Clone, Copy, PartialEq, Eq, Structural)]
pub enum MessageKind {
    ExecRequest,
    ExecStdin,
    ExecResize,
    ExecSignal,
    /// Any other message.
    Other,
}

/// The type of a message: its kind, and the text that it prints as.
#[derive(Debug)]
pub struct MessageType {
    pub kind: MessageKind,
    pub label: String,
}

/// A frame of a web socket.
#[derive(Debug)]
pub enum SocketFrame {
    /// Binary data.
    Binary(Vec<u8>),
    /// The close of the socket.
    Close,
    /// Text or control data.
    Other,
}

/// What a reader of messages does next.
#[derive(Debug)]
pub enum ReadAction<M> {
    /// Try to decode a message from the buffer.
    Decode,
    /// Receive a frame.
    Receive,
    /// Hand out a message, or the end of the socket.
    Deliver(Option<M>),
    /// Give up, with a message.
    Fail(String),
}

/// What a [`ReadAction`] says.
#[verifier::ext_equal]
pub enum ReadActionView<M> {
    Decode,
    Receive,
    Deliver(Option<M>),
    Fail(Seq<char>),
}

impl<M> View for ReadAction<M> {
    type V = ReadActionView<M>;

    open spec fn view(&self) -> ReadActionView<M> {
        match *self {
            ReadAction::Decode => ReadActionView::Decode,
            ReadAction::Receive => ReadActionView::Receive,
            ReadAction::Deliver(message) => ReadActionView::Deliver(message),
            ReadAction::Fail(message) => ReadActionView::Fail(message@),
        }
    }
}

/// What a reader does after it tried to decode a message from its buffer.
pub open spec fn decoded_action<M>(decoded: Option<M>) -> ReadActionView<M> {
    match decoded {
        Some(message) => ReadActionView::Deliver(Some(message)),
        None => ReadActionView::Receive,
    }
}

/// What a reader does after it tried to decode a message from its buffer: it hands the message
/// out before it reads on.
pub fn after_decode<M>(decoded: Option<M>) -> (action: ReadAction<M>)
    ensures
        action@ == decoded_action(decoded),
{
    match decoded {
        Some(message) => ReadAction::Deliver(Some(message)),
        None => ReadAction::Receive,
    }
}

/// The bytes that a received frame adds to the buffer: those of a binary frame.
pub open spec fn frame_bytes(frame: Option<Result<SocketFrame, String>>) -> Seq<u8> {
    match frame {
        Some(Ok(SocketFrame::Binary(bytes))) => bytes@,
        _ => Seq::empty(),
    }
}

/// What a reader does after it received a frame, or found the socket at its end.
pub open spec fn frame_action<M>(frame: Option<Result<SocketFrame, String>>) -> ReadActionView<M> {
    match frame {
        None => ReadActionView::Deliver(None),
        Some(Ok(SocketFrame::Close)) => ReadActionView::Deliver(None),
        Some(Ok(_)) => ReadActionView::Decode,
        Some(Err(error)) => ReadActionView::Fail("websocket read failed: "@ + error@),
    }
}

/// What a reader does after it received a frame, or found the socket at its end. A binary frame
/// goes to the end of the buffer; text and control data are passed over.
pub fn after_frame<M>(
    buffer: &mut Vec<u8>,
    frame: Option<Result<SocketFrame, String>>,
) -> (action: ReadAction<M>)
    ensures
        final(buffer)@ == old(buffer)@ + frame_bytes(frame),
        action@ == frame_action::<M>(frame),
{
    assert(buffer@ + Seq::<u8>::empty() =~= buffer@);
    match frame {
        None => ReadAction::Deliver(None),
        Some(Ok(SocketFrame::Binary(bytes))) => {
            let mut bytes = bytes;
            buffer.append(&mut bytes);
            ReadAction::Decode
        },
        Some(Ok(SocketFrame::Close)) => ReadAction::Deliver(None),
        Some(Ok(SocketFrame::Other)) => ReadAction::Decode,
        Some(Err(error)) => ReadAction::Fail(
            "websocket read failed: ".to_string().concat(error.as_str()),
        ),
    }
}

/// A decoder: the first message that some bytes start with, and how many bytes it takes, where the
/// message is there as a whole.
pub type Decoder<M> = spec_fn(Seq<u8>) -> Option<(M, int)>;

/// The result of reading a message: what the reader came to, the bytes left in its buffer and the
/// frames left on the socket.
pub struct Reading<M> {
    pub outcome: ReadActionView<M>,
    pub buffer: Seq<u8>,
    pub frames: Seq<Result<SocketFrame, String>>,
}

/// The frame that the socket gives next, or its end.
pub open spec fn next_frame(frames: Seq<Result<SocketFrame, String>>) -> Option<
    Result<SocketFrame, String>,
> {
    if frames.len() == 0 {
        None
    } else {
        Some(frames[0])
    }
}

/// Reads a message, step by step: decodes what the buffer holds, and receives a frame where that
/// is no whole message.
pub open spec fn read_message<M>(
    decoder: Decoder<M>,
    buffer: Seq<u8>,
    frames: Seq<Result<SocketFrame, String>>,
) -> Reading<M>
    decreases frames.len(),
{
    match decoder(buffer) {
        Some((message, taken)) => Reading {
            outcome: decoded_action(Some(message)),
            buffer: buffer.skip(taken),
            frames,
        },
        None => {
            let filled = buffer + frame_bytes(next_frame(frames));
            let outcome = frame_action::<M>(next_frame(frames));
            if frames.len() == 0 {
                Reading { outcome, buffer: filled, frames }
            } else if outcome == ReadActionView::<M>::Decode {
                read_message(decoder, filled, frames.drop_first())
            } else {
                Reading { outcome, buffer: filled, frames: frames.drop_first() }
            }
        },
    }
}

/// What a reader comes to in `calls` readings, one after another.
pub open spec fn read_messages<M>(
    decoder: Decoder<M>,
    buffer: Seq<u8>,
    frames: Seq<Result<SocketFrame, String>>,
    calls: nat,
) -> Seq<ReadActionView<M>>
    decreases calls,
{
    if calls == 0 {
        Seq::empty()
    } else {
        let reading = read_message(decoder, buffer, frames);
        seq![reading.outcome] + read_messages(
            decoder,
            reading.buffer,
            reading.frames,
            (calls - 1) as nat,
        )
    }
}

/// The bytes of the binary frames up to the close of the socket.
pub open spec fn received(frames: Seq<Result<SocketFrame, String>>) -> Seq<u8>
    decreases frames.len(),
{
    if frames.len() == 0 {
        Seq::empty()
    } else {
        match frames[0] {
            Ok(SocketFrame::Binary(bytes)) => bytes@ + received(frames.drop_first()),
            Ok(SocketFrame::Close) => Seq::empty(),
            _ => received(frames.drop_first()),
        }
    }
}

/// Whether no frame up to the close of the socket is a failure.
pub open spec fn received_without_failure(frames: Seq<Result<SocketFrame, String>>) -> bool
    decreases frames.len(),
{
    frames.len() == 0 || match frames[0] {
        Ok(SocketFrame::Close) => true,
        Ok(_) => received_without_failure(frames.drop_first()),
        Err(_) => false,
    }
}

/// Whether `decoder` reads what `encoder` writes: an encoded message is read back whatever follows
/// it, and nothing is read where its end is still missing.
pub open spec fn reads_back<M>(encoder: spec_fn(M) -> Seq<u8>, decoder: Decoder<M>) -> bool {
    &&& forall|message: M, rest: Seq<u8>|
        #![trigger encoder(message) + rest]
        decoder(encoder(message) + rest) == Some((message, encoder(message).len() as int))
    &&& forall|message: M, cut: int|
        #![trigger encoder(message).take(cut)]
        0 <= cut < encoder(message).len() ==> decoder(encoder(message).take(cut)) is None
}

/// Whether no message is there as a whole, however many of the bytes have come.
pub open spec fn nothing_whole<M>(decoder: Decoder<M>, bytes: Seq<u8>) -> bool {
    forall|cut: int|
        0 <= cut <= bytes.len() ==> decoder(#[trigger] bytes.take(cut)) is None
}

/// The encodings of messages, one after another.
pub open spec fn encoded<M>(encoder: spec_fn(M) -> Seq<u8>, messages: Seq<M>) -> Seq<u8>
    decreases messages.len(),
{
    if messages.len() == 0 {
        Seq::empty()
    } else {
        encoder(messages[0]) + encoded(encoder, messages.drop_first())
    }
}

proof fn lemma_message_is_read<M>(
    encoder: spec_fn(M) -> Seq<u8>,
    decoder: Decoder<M>,
    buffer: Seq<u8>,
    frames: Seq<Result<SocketFrame, String>>,
    message: M,
    rest: Seq<u8>,
)
    requires
        reads_back(encoder, decoder),
        received_without_failure(frames),
        buffer + received(frames) == encoder(message) + rest,
    ensures
        ({
            let reading = read_message(decoder, buffer, frames);
            &&& reading.outcome == ReadActionView::Deliver(Some(message))
            &&& received_without_failure(reading.frames)
            &&& reading.buffer + received(reading.frames) == rest
        }),
    decreases frames.len(),
{
    let whole = encoder(message) + rest;
    let size = encoder(message).len() as int;
    assert(buffer =~= whole.take(buffer.len() as int)) by {
        assert(buffer =~= (buffer + received(frames)).take(buffer.len() as int));
    }
    assert(whole.len() == buffer.len() + received(frames).len());
    if buffer.len() >= size {
        let over = rest.take(buffer.len() - size);
        assert(buffer =~= encoder(message) + over);
        assert(buffer.skip(size) =~= over);
        assert(over + received(frames) =~= rest) by {
            assert(received(frames) =~= (buffer + received(frames)).skip(buffer.len() as int));
            assert(whole.skip(buffer.len() as int) =~= rest.skip(buffer.len() - size));
        }
    } else {
        assert(buffer =~= encoder(message).take(buffer.len() as int));
        assert(frames.len() > 0) by {
            if frames.len() == 0 {
                assert((buffer + received(frames)).len() == buffer.len());
            }
        }
        if frames[0] == Ok::<SocketFrame, String>(SocketFrame::Close) {
            assert((buffer + received(frames)).len() == buffer.len());
        }
        let filled = buffer + frame_bytes(next_frame(frames));
        assert(filled + received(frames.drop_first()) =~= buffer + received(frames));
        lemma_message_is_read(encoder, decoder, filled, frames.drop_first(), message, rest);
    }
}

proof fn lemma_end_is_read<M>(
    decoder: Decoder<M>,
    buffer: Seq<u8>,
    frames: Seq<Result<SocketFrame, String>>,
)
    requires
        received_without_failure(frames),
        nothing_whole(decoder, buffer + received(frames)),
    ensures
        read_message(decoder, buffer, frames).outcome == ReadActionView::<M>::Deliver(None),
    decreases frames.len(),
{
    let bytes = buffer + received(frames);
    assert(buffer =~= bytes.take(buffer.len() as int));
    if frames.len() > 0 && frames[0] != Ok::<SocketFrame, String>(SocketFrame::Close) {
        let filled = buffer + frame_bytes(next_frame(frames));
        assert(filled + received(frames.drop_first()) =~= bytes);
        lemma_end_is_read(decoder, filled, frames.drop_first());
    }
}

/// Messages come out whole and in order, and then the end, however their bytes are cut into binary
/// frames and whatever other frames stand between. What is left of a message that is cut off by
/// the end is not handed out.
pub proof fn law_messages_come_out_in_order<M>(
    encoder: spec_fn(M) -> Seq<u8>,
    decoder: Decoder<M>,
    buffer: Seq<u8>,
    frames: Seq<Result<SocketFrame, String>>,
    messages: Seq<M>,
    rest: Seq<u8>,
)
    requires
        reads_back(encoder, decoder),
        nothing_whole(decoder, rest),
        received_without_failure(frames),
        buffer + received(frames) == encoded(encoder, messages) + rest,
    ensures
        read_messages(decoder, buffer, frames, messages.len() + 1) == Seq::new(
            messages.len() + 1,
            |i: int|
                if i < messages.len() {
                    ReadActionView::Deliver(Some(messages[i]))
                } else {
                    ReadActionView::Deliver(None)
                },
        ),
    decreases messages.len(),
{
    let outcomes = read_messages(decoder, buffer, frames, messages.len() + 1);
    let reading = read_message(decoder, buffer, frames);
    let expected = Seq::new(
        messages.len() + 1,
        |i: int|
            if i < messages.len() {
                ReadActionView::Deliver(Some(messages[i]))
            } else {
                ReadActionView::Deliver(None)
            },
    );
    if messages.len() == 0 {
        assert(encoded(encoder, messages) + rest =~= rest);
        lemma_end_is_read(decoder, buffer, frames);
        assert(read_messages(decoder, reading.buffer, reading.frames, 0) =~= Seq::empty());
        assert(outcomes =~= expected);
    } else {
        let tail = messages.drop_first();
        let after = encoded(encoder, tail) + rest;
        assert(encoded(encoder, messages) + rest =~= encoder(messages[0]) + after);
        lemma_message_is_read(encoder, decoder, buffer, frames, messages[0], after);
        law_messages_come_out_in_order(
            encoder,
            decoder,
            reading.buffer,
            reading.frames,
            tail,
            rest,
        );
        assert(outcomes =~= expected);
    }
}

/// A binary frame goes to the buffer as it is, whatever its length, and nothing else does. A
/// message that was decoded is handed out and nothing is received before; the reader goes on after
/// data of any kind, stops at the close or the end of the socket, and tells a failure by its text.
pub proof fn law_reader_keeps_every_byte<M>(
    bytes: Vec<u8>,
    error: String,
    message: M,
)
    ensures
        frame_bytes(Some(Ok(SocketFrame::Binary(bytes)))) == bytes@,
        frame_bytes(Some(Ok(SocketFrame::Other))).len() == 0,
        frame_bytes(Some(Ok(SocketFrame::Close))).len() == 0,
        frame_bytes(Some(Err(error))).len() == 0,
        frame_bytes(None).len() == 0,
        decoded_action(Some(message)) == ReadActionView::Deliver(Some(message)),
        decoded_action::<M>(None) == ReadActionView::<M>::Receive,
        frame_action::<M>(Some(Ok(SocketFrame::Binary(bytes)))) == ReadActionView::<M>::Decode,
        frame_action::<M>(Some(Ok(SocketFrame::Other))) == ReadActionView::<M>::Decode,
        frame_action::<M>(Some(Ok(SocketFrame::Close))) == ReadActionView::<M>::Deliver(None),
        frame_action::<M>(None) == ReadActionView::<M>::Deliver(None),
        frame_action::<M>(Some(Err(error))) == ReadActionView::<M>::Fail(
            "websocket read failed: "@ + error@,
        ),
{
}

/// The failure to send a message, by the text that the error prints as.
pub fn write_failure(error: &str) -> (message: String)
    ensures
        message@ == "websocket write failed: "@ + error@,
{
    "websocket write failed: ".to_string().concat(error)
}

// -------------------------------------------------------------------------------------------
// Starting a command
// -------------------------------------------------------------------------------------------

/// Admits the first message of a session, which must be a request to run a command.
pub fn check_exec_request(first: Option<&MessageType>) -> (r: Result<(), String>)
    ensures
        r is Ok <==> first is Some && first->0.kind == MessageKind::ExecRequest,
        r matches Err(message) ==> message@ == match first {
            None => "cloud exec websocket closed before ExecRequest"@,
            Some(message_type) => "expected ExecRequest, got "@ + message_type.label@,
        },
{
    match first {
        None => Err("cloud exec websocket closed before ExecRequest".to_string()),
        Some(message_type) => if message_type.kind == MessageKind::ExecRequest {
            Ok(())
        } else {
            Err("expected ExecRequest, got ".to_string().concat(message_type.label.as_str()))
        },
    }
}

/// How a session gets hold of its sandbox.
#[derive(Debug, Clone, Copy, PartialEq, Eq, Structural)]
pub enum Attach {
    /// Connect to the sandbox as it runs.
    Connect,
    /// Start the sandbox.
    Start,
}

/// How a session gets hold of a sandbox of this status: one that is not live is started.
pub fn exec_attach(status: SandboxStatus) -> (attach: Attach)
    ensures
        attach == if is_live(status) {
            Attach::Connect
        } else {
            Attach::Start
        },
        attach == Attach::Connect <==> status == SandboxStatus::Running || status
            == SandboxStatus::Draining,
{
    match status {
        SandboxStatus::Running | SandboxStatus::Draining => Attach::Connect,
        _ => Attach::Start,
    }
}

/// A resource limit that a request asks for.
#[derive(Debug)]
pub struct ExecRlimit {
    /// Name of the resource.
    pub resource: String,
    /// Whether the runtime knows a resource of that name.
    pub known: bool,
    pub soft: u64,
    pub hard: u64,
}

/// A request to run a command.
#[derive(Debug)]
pub struct ExecRequest {
    pub cmd: String,
    pub args: Vec<String>,
    /// Environment variables, each as `KEY=VALUE`.
    pub env: Vec<String>,
    pub cwd: Option<String>,
    pub user: Option<String>,
    pub tty: bool,
    pub rows: u16,
    pub cols: u16,
    pub rlimits: Vec<ExecRlimit>,
}

/// A resource limit that is set.
#[derive(Debug)]
pub struct PlannedRlimit {
    pub resource: String,
    pub soft: u64,
    pub hard: u64,
}

/// A command as it is handed to the runtime.
#[derive(Debug)]
pub struct ExecPlan {
    pub cmd: String,
    pub args: Vec<String>,
    pub env: Vec<(String, String)>,
    pub cwd: Option<String>,
    pub user: Option<String>,
    pub tty: bool,
    pub rlimits: Vec<PlannedRlimit>,
    /// Whether the standard input is a pipe.
    pub stdin_pipe: bool,
}

/// The variables that assignments set: each is split at its first `=`, and one without is dropped.
pub open spec fn assigned(env: Seq<Seq<char>>) -> Seq<Entry>
    decreases env.len(),
{
    if env.len() == 0 {
        Seq::empty()
    } else {
        match split_first(env.last(), '=') {
            Some(entry) => assigned(env.drop_last()).push(entry),
            None => assigned(env.drop_last()),
        }
    }
}

/// The limits that are set: those of the resources that the runtime knows.
pub open spec fn known_rlimits(rlimits: Seq<ExecRlimit>) -> Seq<PlannedRlimit>
    decreases rlimits.len(),
{
    if rlimits.len() == 0 {
        Seq::empty()
    } else {
        let before = known_rlimits(rlimits.drop_last());
        let rlimit = rlimits.last();
        if rlimit.known {
            before.push(
                PlannedRlimit {
                    resource: rlimit.resource,
                    soft: rlimit.soft,
                    hard: rlimit.hard,
                },
            )
        } else {
            before
        }
    }
}

/// The variables that assignments set.
fn split_assignments(env: &Vec<String>) -> (pairs: Vec<(String, String)>)
    ensures
        entries_view(pairs@) == assigned(texts_view(env@)),
{
    let ghost texts = texts_view(env@);
    let mut pairs: Vec<(String, String)> = Vec::new();
    let mut i: usize = 0;
    assert(texts.take(0) =~= Seq::empty());
    assert(entries_view(pairs@) =~= Seq::empty());
    while i < env.len()
        invariant
            i <= env.len(),
            texts == texts_view(env@),
            entries_view(pairs@) == assigned(texts.take(i as int)),
        decreases env.len() - i,
    {
        proof {
            assert(texts.take(i + 1).drop_last() =~= texts.take(i as int));
            assert(texts.take(i + 1).last() == env@[i as int]@);
        }
        let ghost before = entries_view(pairs@);
        if let Some((key, value)) = split_text_once(env[i].as_str(), '=') {
            pairs.push((key.to_string(), value.to_string()));
            assert(entries_view(pairs@) =~= before.push((key@, value@)));
        }
        i = i + 1;
    }
    assert(texts.take(i as int) =~= texts);
    pairs
}

/// The command that `req` asks for, as it is handed to the runtime. The size of the terminal is
/// passed over, and the standard input is always a pipe.
pub fn plan_exec(req: ExecRequest) -> (plan: ExecPlan)
    ensures
        plan.cmd == req.cmd,
        plan.args == req.args,
        plan.cwd == req.cwd,
        plan.user == req.user,
        plan.tty == req.tty,
        plan.stdin_pipe,
        entries_view(plan.env@) == assigned(texts_view(req.env@)),
        plan.rlimits@ == known_rlimits(req.rlimits@),
{
    let env = split_assignments(&req.env);
    let ghost all = req.rlimits@;
    let mut rlimits: Vec<PlannedRlimit> = Vec::new();
    assert(all.take(0) =~= Seq::empty());
    for rlimit in it: req.rlimits
        invariant
            it.seq() == all,
            rlimits@ == known_rlimits(all.take(it.index())),
    {
        proof {
            assert(all.take(it.index() + 1).drop_last() =~= all.take(it.index()));
            assert(all.take(it.index() + 1).last() == rlimit);
        }
        if rlimit.known {
            rlimits.push(
                PlannedRlimit {
                    resource: rlimit.resource,
                    soft: rlimit.soft,
                    hard: rlimit.hard,
                },
            );
        }
    }
    assert(all.take(all.len() as int) =~= all);
    ExecPlan {
        cmd: req.cmd,
        args: req.args,
        env,
        cwd: req.cwd,
        user: req.user,
        tty: req.tty,
        rlimits,
        stdin_pipe: true,
    }
}

/// An assignment of a value to a key sets just that, whatever the value holds, where the key
/// holds no `=`.
pub proof fn law_assignment_is_split_at_the_key(key: Seq<char>, value: Seq<char>)
    requires
        forall|i: int| 0 <= i < key.len() ==> key[i] != '=',
    ensures
        split_first(key + seq!['='] + value, '=') == Some((key, value)),
{
    let whole = key + seq!['='] + value;
    assert forall|j: int| 0 <= j < key.len() implies whole[j] != '=' by {
        assert(whole[j] == key[j]);
    }
    lemma_first_of_is(whole, '=', key.len() as int);
    assert(whole.take(key.len() as int) =~= key);
    assert(whole.skip(key.len() as int + 1) =~= value);
}

/// The variables of assignments that stand one after another are the variables of the first and
/// then those of the second, so none is lost, added or moved. One assignment sets its key to what
/// follows the first `=`, whatever and however long that is; a text without `=` sets nothing.
pub proof fn law_variables_are_set_in_order(
    first: Seq<Seq<char>>,
    second: Seq<Seq<char>>,
    key: Seq<char>,
    value: Seq<char>,
)
    requires
        forall|i: int| 0 <= i < key.len() ==> key[i] != '=',
    ensures
        assigned(first + second) == assigned(first) + assigned(second),
        assigned(seq![key + seq!['='] + value]) == seq![(key, value)],
        assigned(seq![key]).len() == 0,
    decreases second.len(),
{
    reveal_with_fuel(assigned, 2);
    let whole = key + seq!['='] + value;
    law_assignment_is_split_at_the_key(key, value);
    lemma_first_of_is(key, '=', key.len() as int);
    assert(seq![whole].drop_last() =~= Seq::empty());
    assert(seq![key].drop_last() =~= Seq::empty());
    assert(assigned(seq![whole]) =~= seq![(key, value)]);
    if second.len() == 0 {
        assert(first + second =~= first);
        assert(assigned(first) + assigned(second) =~= assigned(first));
    } else {
        let front = second.drop_last();
        law_variables_are_set_in_order(first, front, key, value);
        assert((first + second).drop_last() =~= first + front);
        assert((first + second).last() == second.last());
        assert(assigned(first + second) =~= assigned(first) + assigned(second));
    }
}

/// The limits of resources that stand one after another are those of the first and then those of
/// the second. A limit of a resource that the runtime knows is set with the bounds asked for, and
/// one of another is not set.
pub proof fn law_limits_are_set_in_order(
    first: Seq<ExecRlimit>,
    second: Seq<ExecRlimit>,
    rlimit: ExecRlimit,
)
    ensures
        known_rlimits(first + second) == known_rlimits(first) + known_rlimits(second),
        rlimit.known ==> {
            let set = known_rlimits(seq![rlimit]);
            &&& set.len() == 1
            &&& set[0].resource == rlimit.resource
            &&& set[0].soft == rlimit.soft
            &&& set[0].hard == rlimit.hard
        },
        !rlimit.known ==> known_rlimits(seq![rlimit]).len() == 0,
    decreases second.len(),
{
    reveal_with_fuel(known_rlimits, 2);
    assert(seq![rlimit].drop_last() =~= Seq::empty());
    if second.len() == 0 {
        assert(first + second =~= first);
        assert(known_rlimits(first) + known_rlimits(second) =~= known_rlimits(first));
    } else {
        let front = second.drop_last();
        law_limits_are_set_in_order(first, front, rlimit);
        assert((first + second).drop_last() =~= first + front);
        assert((first + second).last() == second.last());
        assert(known_rlimits(first + second) =~= known_rlimits(first) + known_rlimits(second));
    }
}

// -------------------------------------------------------------------------------------------
// The session
// -------------------------------------------------------------------------------------------

/// A message of the client to a running session.
#[derive(Debug)]
pub enum ClientMessage {
    /// Data for the standard input; no data closes it.
    Stdin(Vec<u8>),
    /// The size of the terminal.
    Resize { rows: u16, cols: u16 },
    /// A signal for the command.
    Signal(i32),
    /// Any other message.
    Other,
}

/// A report of the guest. `F` is the runtime's account of a command that could not be run.
#[derive(Debug)]
pub enum ExecEvent<F> {
    Started { pid: u32 },
    Stdout(Vec<u8>),
    Stderr(Vec<u8>),
    Exited { code: i32 },
    Failed(F),
    StdinError,
}

/// What drives a session: a message of the client or the end of the socket, a report of the guest
/// or the end of its reports.
#[derive(Debug)]
pub enum SessionEvent<F> {
    Client(Option<ClientMessage>),
    Guest(Option<ExecEvent<F>>),
}

/// The kinds of failure that the gateway itself tells of.
#[derive(Debug, Clone, Copy, PartialEq, Eq, Structural)]
pub enum ExecFailureKind {
    /// No kind that has a name of its own.
    Other,
}

/// A failure that the gateway itself tells of.
#[derive(Debug, Clone, Copy)]
pub struct ExecFailure {
    pub kind: ExecFailureKind,
    /// Number of the system error, where there was one.
    pub errno: Option<i32>,
    /// Name of the system error, where there was one.
    pub errno_name: Option<&'static str>,
    pub message: &'static str,
    /// Where the failure came up.
    pub stage: Option<&'static str>,
}

/// The failure of a command whose reports ended without that of an exit.
pub open spec fn ended_failure() -> ExecFailure {
    ExecFailure {
        kind: ExecFailureKind::Other,
        errno: None,
        errno_name: None,
        message: "local exec stream ended without exit event",
        stage: Some("cloud-adapter"),
    }
}

/// The failure of a command whose reports ended without that of an exit.
pub fn stream_ended_failure() -> (failure: ExecFailure)
    ensures
        failure == ended_failure(),
{
    ExecFailure {
        kind: ExecFailureKind::Other,
        errno: None,
        errno_name: None,
        message: "local exec stream ended without exit event",
        stage: Some("cloud-adapter"),
    }
}

/// A message to the client.
#[derive(Debug)]
pub enum ExecReply<F> {
    Started { pid: u32 },
    Stdout(Vec<u8>),
    Stderr(Vec<u8>),
    Exited { code: i32 },
    Failed(F),
    /// The reports of the guest ended without that of an exit: a failure that the gateway itself
    /// tells of.
    StreamEnded(ExecFailure),
}

/// What a session does.
#[derive(Debug)]
pub enum SessionAction<F> {
    /// Nothing.
    Nothing,
    /// Write to the standard input; the session fails where that fails.
    WriteStdin(Vec<u8>),
    /// Close the standard input; the session fails where that fails.
    CloseStdin,
    /// Set the size of the terminal.
    Resize { rows: u16, cols: u16 },
    /// Send a signal to the command.
    Signal(i32),
    /// Send a message to the client.
    Reply(ExecReply<F>),
    /// Send a last message to the client, close the socket and end the session.
    LastReply(ExecReply<F>),
    /// End the session, and close the standard input where that is still to be done, whether or
    /// not it succeeds.
    HangUp { close_stdin: bool },
}

/// A session: whether the standard input is still open, and whether the session has ended.
#[derive(Debug, Clone, Copy, PartialEq, Eq, Structural)]
pub struct ExecSession {
    pub stdin_open: bool,
    pub ended: bool,
}

/// What a session does on a message of the client.
pub open spec fn client_action<F>(stdin_open: bool, message: ClientMessage) -> SessionAction<F> {
    match message {
        ClientMessage::Stdin(data) => if !stdin_open {
            SessionAction::Nothing
        } else if data@.len() == 0 {
            SessionAction::CloseStdin
        } else {
            SessionAction::WriteStdin(data)
        },
        ClientMessage::Resize { rows, cols } => SessionAction::Resize { rows, cols },
        ClientMessage::Signal(signal) => SessionAction::Signal(signal),
        ClientMessage::Other => SessionAction::Nothing,
    }
}

/// What a session does on a report of the guest, or on the end of its reports.
pub open spec fn guest_action<F>(event: Option<ExecEvent<F>>) -> SessionAction<F> {
    match event {
        Some(ExecEvent::Started { pid }) => SessionAction::Reply(ExecReply::Started { pid }),
        Some(ExecEvent::Stdout(data)) => SessionAction::Reply(ExecReply::Stdout(data)),
        Some(ExecEvent::Stderr(data)) => SessionAction::Reply(ExecReply::Stderr(data)),
        Some(ExecEvent::Exited { code }) => SessionAction::LastReply(ExecReply::Exited { code }),
        Some(ExecEvent::Failed(failure)) => SessionAction::LastReply(ExecReply::Failed(failure)),
        Some(ExecEvent::StdinError) => SessionAction::Nothing,
        None => SessionAction::LastReply(ExecReply::StreamEnded(ended_failure())),
    }
}

/// What a session does.
pub open spec fn session_action<F>(session: ExecSession, event: SessionEvent<F>) -> SessionAction<
    F,
> {
    match event {
        SessionEvent::Client(Some(message)) => client_action(session.stdin_open, message),
        SessionEvent::Client(None) => SessionAction::HangUp { close_stdin: session.stdin_open },
        SessionEvent::Guest(event) => guest_action(event),
    }
}

/// Whether an action closes the standard input.
pub open spec fn closes_stdin<F>(action: SessionAction<F>) -> bool {
    action == SessionAction::<F>::CloseStdin || action == (SessionAction::<F>::HangUp {
        close_stdin: true,
    })
}

/// Whether an action writes to the standard input.
pub open spec fn writes_stdin<F>(action: SessionAction<F>) -> bool {
    action is WriteStdin
}

/// Whether an action ends the session.
pub open spec fn ends_session<F>(action: SessionAction<F>) -> bool {
    action is LastReply || action is HangUp
}

/// A session after it did something.
pub open spec fn session_after<F>(session: ExecSession, action: SessionAction<F>) -> ExecSession {
    ExecSession {
        stdin_open: session.stdin_open && !closes_stdin(action),
        ended: session.ended || ends_session(action),
    }
}

impl ExecSession {
    /// A session that has just started its command, with or without a standard input.
    pub fn start(stdin_open: bool) -> (session: ExecSession)
        ensures
            session == (ExecSession { stdin_open, ended: false }),
    {
        ExecSession { stdin_open, ended: false }
    }

    /// What the session does on a message of the client.
    pub fn handle_exec_control_message<F>(&mut self, message: ClientMessage) -> (action:
        SessionAction<F>)
        ensures
            action == client_action::<F>(old(self).stdin_open, message),
            *final(self) == session_after(*old(self), action),
    {
        match message {
            ClientMessage::Stdin(data) => {
                if !self.stdin_open {
                    SessionAction::Nothing
                } else if data.is_empty() {
                    self.stdin_open = false;
                    SessionAction::CloseStdin
                } else {
                    SessionAction::WriteStdin(data)
                }
            },
            ClientMessage::Resize { rows, cols } => SessionAction::Resize { rows, cols },
            ClientMessage::Signal(signal) => SessionAction::Signal(signal),
            ClientMessage::Other => SessionAction::Nothing,
        }
    }

    /// What the session does next.
    pub fn step<F>(&mut self, event: SessionEvent<F>) -> (action: SessionAction<F>)
        requires
            !old(self).ended,
        ensures
            action == session_action(*old(self), event),
            *final(self) == session_after(*old(self), action),
    {
        match event {
            SessionEvent::Client(Some(message)) => self.handle_exec_control_message(message),
            SessionEvent::Client(None) => {
                let close_stdin = self.stdin_open;
                self.stdin_open = false;
                self.ended = true;
                SessionAction::HangUp { close_stdin }
            },
            SessionEvent::Guest(event) => match event {
                Some(ExecEvent::Started { pid }) => {
                    SessionAction::Reply(ExecReply::Started { pid })
                },
                Some(ExecEvent::Stdout(data)) => SessionAction::Reply(ExecReply::Stdout(data)),
                Some(ExecEvent::Stderr(data)) => SessionAction::Reply(ExecReply::Stderr(data)),
                Some(ExecEvent::Exited { code }) => {
                    self.ended = true;
                    SessionAction::LastReply(ExecReply::Exited { code })
                },
                Some(ExecEvent::Failed(failure)) => {
                    self.ended = true;
                    SessionAction::LastReply(ExecReply::Failed(failure))
                },
                Some(ExecEvent::StdinError) => SessionAction::Nothing,
                None => {
                    self.ended = true;
                    SessionAction::LastReply(ExecReply::StreamEnded(stream_ended_failure()))
                },
            },
        }
    }
}

/// What a session does on one event after another, until it ends.
pub open spec fn session_run<F>(session: ExecSession, events: Seq<SessionEvent<F>>) -> Seq<
    SessionAction<F>,
>
    decreases events.len(),
{
    if session.ended || events.len() == 0 {
        Seq::empty()
    } else {
        let action = session_action(session, events[0]);
        seq![action] + session_run(session_after(session, action), events.drop_first())
    }
}

proof fn lemma_closed_stdin_is_left_alone<F>(session: ExecSession, events: Seq<SessionEvent<F>>)
    requires
        !session.stdin_open,
    ensures
        forall|i: int|
            0 <= i < session_run(session, events).len() ==> {
                let action = #[trigger] session_run(session, events)[i];
                !closes_stdin(action) && !writes_stdin(action)
            },
    decreases events.len(),
{
    if !session.ended && events.len() > 0 {
        let action = session_action(session, events[0]);
        let rest = session_run(session_after(session, action), events.drop_first());
        lemma_closed_stdin_is_left_alone(session_after(session, action), events.drop_first());
        assert forall|i: int| 0 <= i < session_run(session, events).len() implies {
            let action = #[trigger] session_run(session, events)[i];
            !closes_stdin(action) && !writes_stdin(action)
        } by {
            if i > 0 {
                assert(session_run(session, events)[i] == rest[i - 1]);
            }
        }
    }
}

/// In every run the standard input is closed at most once and never written to once it is closed,
/// and where there was none it is left alone.
pub proof fn law_stdin_is_closed_once<F>(session: ExecSession, events: Seq<SessionEvent<F>>)
    ensures
        ({
            let run = session_run(session, events);
            &&& forall|i: int, j: int|
                0 <= i < j < run.len() && closes_stdin(#[trigger] run[i]) ==> !closes_stdin(
                    #[trigger] run[j],
                ) && !writes_stdin(run[j])
            &&& !session.stdin_open ==> forall|i: int|
                0 <= i < run.len() ==> !closes_stdin(#[trigger] run[i]) && !writes_stdin(run[i])
        }),
    decreases events.len(),
{
    if !session.stdin_open {
        lemma_closed_stdin_is_left_alone(session, events);
    }
    if !session.ended && events.len() > 0 {
        let action = session_action(session, events[0]);
        let next = session_after(session, action);
        let run = session_run(session, events);
        let rest = session_run(next, events.drop_first());
        law_stdin_is_closed_once(next, events.drop_first());
        assert forall|i: int, j: int|
            0 <= i < j < run.len() && closes_stdin(#[trigger] run[i]) implies !closes_stdin(
            #[trigger] run[j],
        ) && !writes_stdin(run[j]) by {
            assert(run[j] == rest[j - 1]);
            if i > 0 {
                assert(run[i] == rest[i - 1]);
            } else {
                assert(!next.stdin_open);
            }
        }
    }
}

/// In every run nothing is done once the session has ended; it ends exactly by a last message to
/// the client or by the client's leaving, and goes through every event until then.
pub proof fn law_session_ends_once<F>(session: ExecSession, events: Seq<SessionEvent<F>>)
    ensures
        ({
            let run = session_run(session, events);
            &&& run.len() <= events.len()
            &&& forall|i: int| 0 <= i < run.len() - 1 ==> !ends_session(#[trigger] run[i])
            &&& !session.ended && run.len() < events.len() ==> run.len() > 0 && ends_session(
                run.last(),
            )
        }),
    decreases events.len(),
{
    if !session.ended && events.len() > 0 {
        let action = session_action(session, events[0]);
        let next = session_after(session, action);
        let run = session_run(session, events);
        let rest = session_run(next, events.drop_first());
        law_session_ends_once(next, events.drop_first());
        assert forall|i: int| 0 <= i < run.len() - 1 implies !ends_session(#[trigger] run[i]) by {
            if i > 0 {
                assert(run[i] == rest[i - 1]);
            } else {
                assert(!next.ended);
            }
        }
        if run.len() < events.len() {
            if next.ended {
                assert(rest.len() == 0);
                assert(run.last() == action);
            } else {
                assert(run.last() == rest.last());
            }
        }
    }
}

/// Whether no action before the step `i` of a run closed the standard input.
pub open spec fn none_closed_before<F>(run: Seq<SessionAction<F>>, i: int) -> bool {
    forall|j: int| 0 <= j < i ==> !closes_stdin(#[trigger] run[j])
}

/// What a run does at a step depends on nothing but the event and whether the standard input is
/// open, which it is until the run closes it.
pub proof fn law_run_goes_event_by_event<F>(
    session: ExecSession,
    events: Seq<SessionEvent<F>>,
    i: int,
)
    requires
        0 <= i < session_run(session, events).len(),
    ensures
        ({
            let run = session_run(session, events);
            let stdin_open = session.stdin_open && none_closed_before(run, i);
            run[i] == session_action(ExecSession { stdin_open, ended: false }, events[i])
        }),
    decreases events.len(),
{
    let action = session_action(session, events[0]);
    let next = session_after(session, action);
    let run = session_run(session, events);
    let rest = session_run(next, events.drop_first());
    law_session_ends_once(session, events);
    if i > 0 {
        assert(events.drop_first()[i - 1] == events[i]);
        law_run_goes_event_by_event(next, events.drop_first(), i - 1);
        assert(run[0] == action);
        assert(run[i] == rest[i - 1]);
        if none_closed_before(run, i) {
            assert forall|j: int| 0 <= j < i - 1 implies !closes_stdin(#[trigger] rest[j]) by {
                assert(run[j + 1] == rest[j]);
            }
        }
        if next.stdin_open && none_closed_before(rest, i - 1) {
            assert forall|j: int| 0 <= j < i implies !closes_stdin(#[trigger] run[j]) by {
                if j > 0 {
                    assert(run[j] == rest[j - 1]);
                }
            }
        }
    }
}

/// Whatever the client does, every report of the guest that a run comes to is passed on, in its
/// turn and unchanged; only a failure to write the standard input is not.
pub proof fn law_reports_are_passed_on<F>(
    session: ExecSession,
    events: Seq<SessionEvent<F>>,
    i: int,
)
    requires
        0 <= i < session_run(session, events).len(),
        events[i] is Guest,
    ensures
        session_run(session, events)[i] == guest_action(events[i]->Guest_0),
{
    law_run_goes_event_by_event(session, events, i);
}

/// The client is sent a last message exactly where the guest reports an exit or a failure or its
/// reports end, and that message says which.
pub proof fn law_last_message_tells_the_end<F>(session: ExecSession, event: SessionEvent<F>)
    ensures
        session_action(session, event) is LastReply <==> {
            ||| event matches SessionEvent::Guest(None)
            ||| event matches SessionEvent::Guest(Some(ExecEvent::Exited { .. }))
            ||| event matches SessionEvent::Guest(Some(ExecEvent::Failed(_)))
        },
        event matches SessionEvent::Guest(Some(ExecEvent::Exited { code })) ==> session_action(
            session,
            event,
        ) == SessionAction::<F>::LastReply(ExecReply::Exited { code }),
        event matches SessionEvent::Guest(Some(ExecEvent::Failed(failure))) ==> session_action(
            session,
            event,
        ) == SessionAction::<F>::LastReply(ExecReply::Failed(failure)),
        event matches SessionEvent::Guest(None) ==> session_action(session, event)
            == SessionAction::<F>::LastReply(ExecReply::StreamEnded(ended_failure())),
{
}

/// What is done at each step of a run, told from the action: a message of one kind goes to the
/// client exactly where the guest reported that, with the same content; the terminal is resized
/// and a signal sent exactly where the client asked for it, with the same numbers; and the session
/// is hung up exactly where the client left.
pub proof fn law_each_event_has_its_own_effect<F>(
    session: ExecSession,
    events: Seq<SessionEvent<F>>,
    i: int,
)
    requires
        0 <= i < session_run(session, events).len(),
    ensures
        ({
            let action = session_run(session, events)[i];
            let event = events[i];
            &&& forall|pid: u32|
                action == SessionAction::<F>::Reply(ExecReply::Started { pid }) <==> event
                    == SessionEvent::<F>::Guest(Some(ExecEvent::Started { pid }))
            &&& forall|data: Vec<u8>|
                action == SessionAction::<F>::Reply(ExecReply::Stdout(data)) <==> event
                    == SessionEvent::<F>::Guest(Some(ExecEvent::Stdout(data)))
            &&& forall|data: Vec<u8>|
                action == SessionAction::<F>::Reply(ExecReply::Stderr(data)) <==> event
                    == SessionEvent::<F>::Guest(Some(ExecEvent::Stderr(data)))
            &&& forall|code: i32|
                action == SessionAction::<F>::LastReply(ExecReply::Exited { code }) <==> event
                    == SessionEvent::<F>::Guest(Some(ExecEvent::Exited { code }))
            &&& forall|failure: F|
                action == SessionAction::<F>::LastReply(ExecReply::Failed(failure)) <==> event
                    == SessionEvent::<F>::Guest(Some(ExecEvent::Failed(failure)))
            &&& forall|rows: u16, cols: u16|
                action == (SessionAction::<F>::Resize { rows, cols }) <==> event
                    == SessionEvent::<F>::Client(Some(ClientMessage::Resize { rows, cols }))
            &&& forall|signal: i32|
                action == SessionAction::<F>::Signal(signal) <==> event
                    == SessionEvent::<F>::Client(Some(ClientMessage::Signal(signal)))
            &&& action is HangUp <==> event == SessionEvent::<F>::Client(None)
            &&& action is LastReply && action->LastReply_0 is StreamEnded <==> event
                == SessionEvent::<F>::Guest(None)
            &&& event == SessionEvent::<F>::Client(Some(ClientMessage::Other))
                ==> action is Nothing
            &&& event == SessionEvent::<F>::Guest(Some(ExecEvent::StdinError))
                ==> action is Nothing
        }),
{
    law_run_goes_event_by_event(session, events, i);
}

/// The end that the gateway tells of itself names what happened and where, and no system error.
pub proof fn law_broken_stream_is_told<F>(session: ExecSession)
    ensures
        session_action(session, SessionEvent::<F>::Guest(None)) matches SessionAction::LastReply(
            ExecReply::StreamEnded(failure),
        ) && {
            &&& failure.kind == ExecFailureKind::Other
            &&& failure.errno is None
            &&& failure.errno_name is None
            &&& failure.message@ == "local exec stream ended without exit event"@
            &&& failure.stage matches Some(stage) && stage@ == "cloud-adapter"@
        },
{
}

/// A session ends exactly by an exit, a failure or the end of the guest's reports, or by the
/// client's leaving. Its standard input is closed exactly by data of no length and by the client's
/// leaving, and is never opened again.
pub proof fn law_step_changes_the_session<F>(session: ExecSession, event: SessionEvent<F>)
    ensures
        ({
            let after = session_after(session, session_action(session, event));
            &&& after.ended <==> {
                ||| session.ended
                ||| event matches SessionEvent::Guest(None)
                ||| event matches SessionEvent::Guest(Some(ExecEvent::Exited { .. }))
                ||| event matches SessionEvent::Guest(Some(ExecEvent::Failed(_)))
                ||| event matches SessionEvent::Client(None)
            }
            &&& after.stdin_open <==> {
                &&& session.stdin_open
                &&& !(event matches SessionEvent::Client(None))
                &&& !(event matches SessionEvent::Client(Some(ClientMessage::Stdin(data)))
                    && data@.len() == 0)
            }
        }),
{
}

/// The bytes of standard output that the client is sent in a run.
pub open spec fn sent_stdout<F>(run: Seq<SessionAction<F>>) -> Seq<u8>
    decreases run.len(),
{
    if run.len() == 0 {
        Seq::empty()
    } else {
        match run[0] {
            SessionAction::Reply(ExecReply::Stdout(data)) => data@ + sent_stdout(run.drop_first()),
            _ => sent_stdout(run.drop_first()),
        }
    }
}

/// The bytes of standard error that the client is sent in a run.
pub open spec fn sent_stderr<F>(run: Seq<SessionAction<F>>) -> Seq<u8>
    decreases run.len(),
{
    if run.len() == 0 {
        Seq::empty()
    } else {
        match run[0] {
            SessionAction::Reply(ExecReply::Stderr(data)) => data@ + sent_stderr(run.drop_first()),
            _ => sent_stderr(run.drop_first()),
        }
    }
}

/// The bytes that a run writes to the standard input.
pub open spec fn written_stdin<F>(run: Seq<SessionAction<F>>) -> Seq<u8>
    decreases run.len(),
{
    if run.len() == 0 {
        Seq::empty()
    } else {
        match run[0] {
            SessionAction::WriteStdin(data) => data@ + written_stdin(run.drop_first()),
            _ => written_stdin(run.drop_first()),
        }
    }
}

/// The bytes of standard output that the guest reports.
pub open spec fn reported_stdout<F>(events: Seq<SessionEvent<F>>) -> Seq<u8>
    decreases events.len(),
{
    if events.len() == 0 {
        Seq::empty()
    } else {
        match events[0] {
            SessionEvent::Guest(Some(ExecEvent::Stdout(data))) => data@ + reported_stdout(
                events.drop_first(),
            ),
            _ => reported_stdout(events.drop_first()),
        }
    }
}

/// The bytes of standard error that the guest reports.
pub open spec fn reported_stderr<F>(events: Seq<SessionEvent<F>>) -> Seq<u8>
    decreases events.len(),
{
    if events.len() == 0 {
        Seq::empty()
    } else {
        match events[0] {
            SessionEvent::Guest(Some(ExecEvent::Stderr(data))) => data@ + reported_stderr(
                events.drop_first(),
            ),
            _ => reported_stderr(events.drop_first()),
        }
    }
}

/// The bytes that the client sends for the standard input, up to the data of no length that closes
/// it.
pub open spec fn typed_input<F>(events: Seq<SessionEvent<F>>) -> Seq<u8>
    decreases events.len(),
{
    if events.len() == 0 {
        Seq::empty()
    } else {
        match events[0] {
            SessionEvent::Client(Some(ClientMessage::Stdin(data))) => if data@.len() == 0 {
                Seq::empty()
            } else {
                data@ + typed_input(events.drop_first())
            },
            _ => typed_input(events.drop_first()),
        }
    }
}

/// Over a run the client is sent exactly the bytes that the guest reported, those of standard
/// output as standard output and those of standard error as standard error, in order and with
/// nothing left out or put in.
pub proof fn law_output_reaches_the_client<F>(session: ExecSession, events: Seq<SessionEvent<F>>)
    ensures
        ({
            let run = session_run(session, events);
            let seen = events.take(run.len() as int);
            &&& sent_stdout(run) == reported_stdout(seen)
            &&& sent_stderr(run) == reported_stderr(seen)
        }),
    decreases events.len(),
{
    let run = session_run(session, events);
    let seen = events.take(run.len() as int);
    law_session_ends_once(session, events);
    if !session.ended && events.len() > 0 {
        let next = session_after(session, session_action(session, events[0]));
        let rest = session_run(next, events.drop_first());
        law_output_reaches_the_client(next, events.drop_first());
        assert(run.drop_first() =~= rest);
        assert(seen.drop_first() =~= events.drop_first().take(rest.len() as int));
        assert(seen[0] == events[0]);
    } else {
        assert(run =~= Seq::empty());
        assert(seen =~= Seq::empty());
    }
}

/// Over a run the standard input is given exactly the bytes that the client sent before it closed
/// it, in order and with nothing left out or put in; and nothing where there is none.
pub proof fn law_input_reaches_the_command<F>(session: ExecSession, events: Seq<SessionEvent<F>>)
    ensures
        ({
            let run = session_run(session, events);
            written_stdin(run) == if session.stdin_open {
                typed_input(events.take(run.len() as int))
            } else {
                Seq::empty()
            }
        }),
    decreases events.len(),
{
    let run = session_run(session, events);
    let seen = events.take(run.len() as int);
    law_session_ends_once(session, events);
    if !session.ended && events.len() > 0 {
        let next = session_after(session, session_action(session, events[0]));
        let rest = session_run(next, events.drop_first());
        law_input_reaches_the_command(next, events.drop_first());
        assert(run.drop_first() =~= rest);
        assert(seen.drop_first() =~= events.drop_first().take(rest.len() as int));
        assert(seen[0] == events[0]);
        if next.ended {
            assert(seen.drop_first() =~= Seq::empty());
            assert(typed_input(seen.drop_first()) =~= Seq::empty());
        }
    } else {
        assert(run =~= Seq::empty());
        assert(seen =~= Seq::empty());
    }
}

/// While the standard input is open, data for it is written as it is, whatever its length, and
/// data of no length closes it; once it is closed, data for it does nothing. A client that leaves
/// closes it exactly where it is still open.
pub proof fn law_input_is_written_or_closes<F>(session: ExecSession, data: Vec<u8>)
    ensures
        ({
            let action = session_action(
                session,
                SessionEvent::<F>::Client(Some(ClientMessage::Stdin(data))),
            );
            &&& session.stdin_open && data@.len() > 0 ==> action is WriteStdin
                && action->WriteStdin_0@ == data@
            &&& session.stdin_open && data@.len() == 0 ==> action is CloseStdin
            &&& !session.stdin_open ==> action is Nothing
        }),
        session_action(session, SessionEvent::<F>::Client(None)) == (SessionAction::<F>::HangUp {
            close_stdin: session.stdin_open,
        }),
{
}

} // verus!
