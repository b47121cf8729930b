//! The per-connection script interpreter: walking the ordered action
//! list against the frame buffer and the outbound path, classifying
//! every receive, and raising the shutdown signal when the script says
//! so.
//!
//! [`interp`] is the mathematical account of one connection's run as a
//! function of the bytes its peer delivers; [`run_script`] executes a
//! whole script against a stream given as chunks and is proved to follow
//! that account exactly. A live connection drives the same steps — the
//! matcher, [`record_recv_outcome`], the shutdown flag — around a real
//! socket.

use crate::connection::{
    chunks_view, flatten_from, recv_end, recv_rem, FrameBuffer, MessageError, RecvEnd,
};
use crate::mapping::{action_valid, find_msg, lookup, Action, MappingState, MessageAction};
use crate::reporter::{error_case, failure_case, success_case, Reporter, TestCaseView};
use vstd::prelude::*;

verus! {

/// The mathematical content of one socket-visible operation.
pub enum OpView {
    /// Write the named message's bytes to the peer.
    SendMsg(Seq<char>),
    /// Read and match the named message's bytes from the peer.
    RecvMsg(Seq<char>),
    /// Raise the process-wide shutdown signal.
    RaiseShutdown,
}

/// One socket-visible operation the interpreter performed, in order.
#[derive(Clone, Debug, PartialEq)]
pub enum SocketOp {
    /// Write the named message's bytes to the peer.
    SendMsg(String),
    /// Read and match the named message's bytes from the peer.
    RecvMsg(String),
    /// Raise the process-wide shutdown signal.
    RaiseShutdown,
}

impl View for SocketOp {
    type V = OpView;

    open spec fn view(&self) -> OpView {
        match self {
            SocketOp::SendMsg(name) => OpView::SendMsg(name@),
            SocketOp::RecvMsg(name) => OpView::RecvMsg(name@),
            SocketOp::RaiseShutdown => OpView::RaiseShutdown,
        }
    }
}

/// Whether no scripted action is the placeholder that must never be
/// executed.
pub open spec fn no_unknown(actions: Seq<MessageAction>) -> bool {
    forall|i: int| 0 <= i < actions.len() ==> !((#[trigger] actions[i]).execute is Unknown)
}

/// The record one receive outcome leaves in the report.
pub open spec fn record_of_recv(name: Seq<char>, duration_ms: u64, end: RecvEnd) -> TestCaseView {
    match end {
        RecvEnd::Matched => success_case(name, duration_ms),
        RecvEnd::Closed => failure_case(
            name,
            duration_ms,
            "recv_error"@,
            "message not recv correctly"@,
        ),
        RecvEnd::Mismatch => error_case(
            name,
            duration_ms,
            "message_error"@,
            "messages do not match"@,
        ),
        RecvEnd::Reset => error_case(
            name,
            duration_ms,
            "message_error"@,
            "connection reset by peer"@,
        ),
    }
}

/// What one connection's run amounts to: its socket operations in
/// order, its report records in order, and whether it raised the
/// shutdown signal.
pub struct RunModel {
    /// The socket-visible operations, in execution order.
    pub ops: Seq<OpView>,
    /// The report records, in execution order.
    pub records: Seq<TestCaseView>,
    /// Whether the script raised the shutdown signal.
    pub shutdown: bool,
}

/// One connection's run over a script, as a function of the bytes the
/// peer delivers (`avail`: everything from this point to the close).
///
/// Actions run strictly in order. A send writes its message. A receive
/// consumes the expected prefix on a match and nothing otherwise, and
/// always leaves one record; the script continues whatever the outcome.
/// A shutdown raises the signal and ends the script at once: nothing
/// after it runs.
pub open spec fn interp(
    table: Seq<(String, Vec<u8>)>,
    actions: Seq<MessageAction>,
    avail: Seq<u8>,
) -> RunModel
    decreases actions.len(),
{
    if actions.len() == 0 {
        RunModel { ops: Seq::empty(), records: Seq::empty(), shutdown: false }
    } else {
        let a = actions[0];
        match a.execute {
            Action::Shutdown => RunModel {
                ops: seq![OpView::RaiseShutdown],
                records: Seq::empty(),
                shutdown: true,
            },
            Action::Send => {
                let rest = interp(table, actions.skip(1), avail);
                RunModel {
                    ops: seq![OpView::SendMsg(a.message@)] + rest.ops,
                    records: rest.records,
                    shutdown: rest.shutdown,
                }
            },
            Action::Recv => {
                let expected = find_msg(table, a.message@).unwrap();
                let end = recv_end(avail, expected);
                let rest = interp(table, actions.skip(1), recv_rem(avail, expected));
                RunModel {
                    ops: seq![OpView::RecvMsg(a.message@)] + rest.ops,
                    records: seq![record_of_recv(a.message@, 0, end)] + rest.records,
                    shutdown: rest.shutdown,
                }
            },
            Action::Unknown => arbitrary(),
        }
    }
}

/// The record that classifying one receive outcome appends.
pub open spec fn recv_record(
    name: Seq<char>,
    duration_ms: u64,
    outcome: Result<Option<usize>, MessageError>,
) -> TestCaseView {
    match outcome {
        Ok(Some(_)) => success_case(name, duration_ms),
        Ok(None) => failure_case(name, duration_ms, "recv_error"@, "message not recv correctly"@),
        Err(e) => error_case(name, duration_ms, "message_error"@, e.message_spec()),
    }
}

/// Classifies one finished receive into the report: a match is a
/// success; a clean close before the data is a failure of kind
/// `recv_error`; a mismatch or a reset is an error of kind
/// `message_error`, detailed by the underlying cause.
pub fn record_recv_outcome(
    reporter: &mut Reporter,
    name: &str,
    duration_ms: u64,
    outcome: &Result<Option<usize>, MessageError>,
)
    ensures
        final(reporter).suite_name@ == old(reporter).suite_name@,
        final(reporter).cases() == old(reporter).cases().push(
            recv_record(name@, duration_ms, *outcome),
        ),
{
    match outcome {
        Ok(Some(_)) => reporter.sucess(name, duration_ms),
        Ok(None) => reporter.failure(
            name,
            duration_ms,
            "recv_error",
            "message not recv correctly",
        ),
        Err(e) => {
            let detail = e.message();
            reporter.error(name, duration_ms, "message_error", detail.as_str());
        },
    }
}

/// What one connection's run produced.
pub struct RunOutcome {
    /// The per-receive records, keyed by the suite name.
    pub reporter: Reporter,
    /// The socket-visible operations, in execution order.
    pub ops: Vec<SocketOp>,
    /// Whether the script raised the shutdown signal.
    pub shutdown_raised: bool,
}

/// Executes one whole script against a peer stream delivered as chunks,
/// exactly as a connection task does around a live socket: actions in
/// order, one record per receive, stop at the first shutdown.
///
/// The run follows [`interp`] of the delivered bytes exactly.
pub fn run_script(state: &MappingState, chunks: &Vec<Vec<u8>>) -> (r: RunOutcome)
    requires
        state.wf(),
        no_unknown(state.message_actions@),
        forall|i: int| 0 <= i < chunks@.len() ==> (#[trigger] chunks@[i])@.len() > 0,
    ensures
        ({
            let m = interp(
                state.name_to_message@,
                state.message_actions@,
                flatten_from(chunks_view(chunks@), 0),
            );
            &&& r.reporter.suite_name@ == state.mapping_name@
            &&& r.reporter.cases() == m.records
            &&& r.ops@.map_values(|o: SocketOp| o@) == m.ops
            &&& r.shutdown_raised == m.shutdown
        }),
{
    let ghost table = state.name_to_message@;
    let ghost actions = state.message_actions@;
    let ghost m = interp(table, actions, flatten_from(chunks_view(chunks@), 0));

    let mut reporter = Reporter::new(state.mapping_name.as_str());
    let mut ops: Vec<SocketOp> = Vec::new();
    let mut fb = FrameBuffer::new();
    let mut pos: usize = 0;
    let mut shutdown_raised = false;

    let n = state.message_actions.len();
    let mut i: usize = 0;

    proof {
        assert(fb@ + flatten_from(chunks_view(chunks@), 0) =~= flatten_from(chunks_view(chunks@), 0));
        assert(actions.skip(0) =~= actions);
        assert(ops@.map_values(|o: SocketOp| o@) + m.ops =~= m.ops);
        assert(reporter.cases() + m.records =~= m.records);
    }

    while i < n && !shutdown_raised
        invariant
            i <= n,
            n == actions.len(),
            pos <= chunks@.len(),
            table == state.name_to_message@,
            actions == state.message_actions@,
            state.wf(),
            no_unknown(actions),
            forall|j: int| 0 <= j < chunks@.len() ==> (#[trigger] chunks@[j])@.len() > 0,
            reporter.suite_name@ == state.mapping_name@,
            shutdown_raised ==> {
                &&& m.ops == ops@.map_values(|o: SocketOp| o@)
                &&& m.records == reporter.cases()
                &&& m.shutdown
            },
            !shutdown_raised ==> ({
                let cur = interp(
                    table,
                    actions.skip(i as int),
                    fb@ + flatten_from(chunks_view(chunks@), pos as int),
                );
                &&& m.ops == ops@.map_values(|o: SocketOp| o@) + cur.ops
                &&& m.records == reporter.cases() + cur.records
                &&& m.shutdown == cur.shutdown
            }),
        decreases n - i,
    {
        let ghost avail = fb@ + flatten_from(chunks_view(chunks@), pos as int);
        let ghost ops_pre = ops@;
        proof {
            assert(actions.skip(i as int)[0] == actions[i as int]);
            assert(actions.skip(i as int).skip(1) =~= actions.skip(i + 1));
            assert(action_valid(table, actions[i as int]));
        }
        let action = &state.message_actions[i];
        match action.execute {
            Action::Shutdown => {
                ops.push(SocketOp::RaiseShutdown);
                shutdown_raised = true;
                proof {
                    assert(ops@.map_values(|o: SocketOp| o@) =~= ops_pre.map_values(
                        |o: SocketOp| o@,
                    ) + seq![OpView::RaiseShutdown]);
                    assert(m.ops =~= ops@.map_values(|o: SocketOp| o@));
                }
            },
            Action::Send => {
                ops.push(SocketOp::SendMsg(action.message.clone()));
                proof {
                    assert(ops@.map_values(|o: SocketOp| o@) =~= ops_pre.map_values(
                        |o: SocketOp| o@,
                    ) + seq![OpView::SendMsg(actions[i as int].message@)]);
                    assert(m.ops =~= ops@.map_values(|o: SocketOp| o@) + interp(
                        table,
                        actions.skip(i + 1),
                        avail,
                    ).ops);
                }
            },
            Action::Recv => {
                let expected = lookup(&state.name_to_message, &action.message).unwrap();
                ops.push(SocketOp::RecvMsg(action.message.clone()));
                let outcome = fb.recv(expected, chunks, &mut pos);
                record_recv_outcome(&mut reporter, action.message.as_str(), 0, &outcome);
                proof {
                    let e = find_msg(table, actions[i as int].message@).unwrap();
                    let end = recv_end(avail, e);
                    assert(recv_record(actions[i as int].message@, 0, outcome) == record_of_recv(
                        actions[i as int].message@,
                        0,
                        end,
                    ));
                    assert(ops@.map_values(|o: SocketOp| o@) =~= ops_pre.map_values(
                        |o: SocketOp| o@,
                    ) + seq![OpView::RecvMsg(actions[i as int].message@)]);
                    let rest = interp(table, actions.skip(i + 1), recv_rem(avail, e));
                    assert(m.ops =~= ops@.map_values(|o: SocketOp| o@) + rest.ops);
                    assert(m.records =~= reporter.cases() + rest.records);
                }
            },
            Action::Unknown => {
                // The placeholder is excluded by the precondition; this
                // arm cannot be reached.
                proof {
                    assert(false);
                }
            },
        }
        i = i + 1;
    }
    proof {
        if !shutdown_raised {
            assert(actions.skip(i as int).len() == 0);
            assert(m.ops =~= ops@.map_values(|o: SocketOp| o@));
            assert(m.records =~= reporter.cases());
        }
    }
    RunOutcome { reporter, ops, shutdown_raised }
}

/// The one socket-visible operation a scripted action performs.
pub open spec fn op_of(a: MessageAction) -> OpView {
    match a.execute {
        Action::Send => OpView::SendMsg(a.message@),
        Action::Recv => OpView::RecvMsg(a.message@),
        Action::Shutdown => OpView::RaiseShutdown,
        Action::Unknown => arbitrary(),
    }
}

/// Order preservation: a script without a shutdown performs exactly one
/// socket operation per action, in script order, whatever bytes the peer
/// delivers — the interleaving of sends and receives is never altered.
pub proof fn lemma_order_preservation(
    table: Seq<(String, Vec<u8>)>,
    actions: Seq<MessageAction>,
    avail: Seq<u8>,
)
    requires
        forall|i: int|
            0 <= i < actions.len() ==> ((#[trigger] actions[i]).execute is Send
                || actions[i].execute is Recv),
    ensures
        interp(table, actions, avail).ops.len() == actions.len(),
        forall|i: int|
            0 <= i < actions.len() ==> interp(table, actions, avail).ops[i] == op_of(actions[i]),
        !interp(table, actions, avail).shutdown,
    decreases actions.len(),
{
    if actions.len() > 0 {
        let a = actions[0];
        let tail = actions.skip(1);
        assert(forall|i: int|
            0 <= i < tail.len() ==> ((#[trigger] tail[i]).execute is Send
                || tail[i].execute is Recv)) by {
            assert(forall|i: int| 0 <= i < tail.len() ==> tail[i] == actions[i + 1]);
        }
        let avail2 = if a.execute is Recv {
            recv_rem(avail, find_msg(table, a.message@).unwrap())
        } else {
            avail
        };
        lemma_order_preservation(table, tail, avail2);
        let m = interp(table, actions, avail);
        let rest = interp(table, tail, avail2);
        assert(m.ops == seq![op_of(a)] + rest.ops);
        assert forall|i: int| 0 <= i < actions.len() implies m.ops[i] == op_of(actions[i]) by {
            if i > 0 {
                assert(m.ops[i] == rest.ops[i - 1]);
                assert(tail[i - 1] == actions[i]);
            }
        }
    }
}

/// Early shutdown: the script `[Send(m), Shutdown, Recv(m2)]` sends,
/// raises the shutdown signal, and stops — the receive never runs and no
/// record is left.
pub proof fn lemma_early_shutdown(
    table: Seq<(String, Vec<u8>)>,
    send_action: MessageAction,
    shutdown_action: MessageAction,
    recv_action: MessageAction,
    avail: Seq<u8>,
)
    requires
        send_action.execute is Send,
        shutdown_action.execute is Shutdown,
        recv_action.execute is Recv,
    ensures
        ({
            let m = interp(table, seq![send_action, shutdown_action, recv_action], avail);
            &&& m.ops == seq![OpView::SendMsg(send_action.message@), OpView::RaiseShutdown]
            &&& m.shutdown
            &&& m.records == Seq::<TestCaseView>::empty()
        }),
{
    let script = seq![send_action, shutdown_action, recv_action];
    assert(script.skip(1) =~= seq![shutdown_action, recv_action]);
    let m = interp(table, script, avail);
    let rest = interp(table, seq![shutdown_action, recv_action], avail);
    assert(rest.ops == seq![OpView::RaiseShutdown]);
    assert(m.ops =~= seq![OpView::SendMsg(send_action.message@), OpView::RaiseShutdown]);
    assert(m.records =~= Seq::<TestCaseView>::empty());
}

} // verus!
