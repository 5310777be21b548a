//! Subscription sessions: the numbers they are known by, the states they
//! pass through, and the text they hand to the terminal.
//!
//! A session turns each thing that its stream delivers into at most one
//! text. Whoever runs the session writes that text to the shared terminal in
//! one piece, so that the lines of one update are never parted by another
//! session's.

use crate::decimal::{decimal_text, unsigned_text};
use crate::display::{model_of, shown_value, value_text};
use crate::namespace::ClientError;
use crate::report::{
    error_report, outputs, paint, readings, red_dimmed, render_error, white_dimmed, Output,
    OutputModel, Tint,
};
use crate::text::{append_chars, append_literal, append_padded, chars_of, spaces, string_of};
use crate::value::{TypedValue, ValueModel};
use vstd::prelude::*;

verus! {

/// Where a session stands. A session that has ended stays ended.
#[derive(Clone, Copy, Debug, PartialEq, Eq, Structural)]
pub enum SessionState {
    /// The broker has accepted the subscription; nothing was received yet.
    Starting,
    /// Updates are being received.
    Running,
    /// The stream came to its end.
    EndedNormally,
    /// The stream failed.
    EndedWithError,
}

/// What a session's stream delivers.
#[derive(Clone, Debug, PartialEq, Eq)]
pub enum StreamEvent {
    /// An update: some signals, each with its value.
    Batch(Vec<(String, Option<TypedValue>)>),
    /// The end of the stream.
    End,
    /// A failure of the stream, with its text.
    Error(String),
}

/// What a [`StreamEvent`] holds.
pub ghost enum StreamEventModel {
    Batch(Seq<(Seq<char>, Option<ValueModel>)>),
    End,
    Error(Seq<char>),
}

impl View for StreamEvent {
    type V = StreamEventModel;

    open spec fn view(&self) -> StreamEventModel {
        match self {
            StreamEvent::Batch(fields) => StreamEventModel::Batch(readings(fields@)),
            StreamEvent::End => StreamEventModel::End,
            StreamEvent::Error(text) => StreamEventModel::Error(text@),
        }
    }
}

/// One subscription that the broker accepted.
#[derive(Clone, Copy, Debug, PartialEq, Eq)]
pub struct SubscriptionSession {
    pub number: u64,
    pub state: SessionState,
}

/// The numbers of the sessions opened so far.
#[derive(Clone, Copy, Debug, PartialEq, Eq)]
pub struct Subscriptions {
    /// The number that the next session gets.
    pub next: u64,
}

/// What a `subscribe` comes to.
#[derive(Clone, Debug, PartialEq, Eq)]
pub struct Subscribed {
    /// The session, where the broker accepted the subscription.
    pub session: Option<SubscriptionSession>,
    /// What to tell the user.
    pub outputs: Vec<Output>,
}

/// The tag by which a session's output is known: its number in brackets.
pub open spec fn tag(number: u64) -> Seq<char> {
    "["@ + decimal_text(number as int) + "]"@
}

/// The remark that a subscription runs.
pub open spec fn running_notice(number: u64) -> Seq<char> {
    "Subscription is now running in the background. Received data is identified by "@ + tag(
        number,
    ) + "."@
}

/// One line of an update: the session's tag before the first line, as many
/// spaces before any other, then the signal and its value.
pub open spec fn block_line(
    number: u64,
    first: bool,
    name: Seq<char>,
    value: Option<ValueModel>,
) -> Seq<char> {
    (if first {
        white_dimmed(tag(number))
    } else {
        spaces(tag(number).len() as int)
    }) + " "@ + name + ": "@ + shown_value(value) + "\n"@
}

/// The text of an update: one line for each signal, in the order given.
pub open spec fn block(number: u64, fields: Seq<(Seq<char>, Option<ValueModel>)>) -> Seq<char>
    decreases fields.len(),
{
    if fields.len() == 0 {
        Seq::empty()
    } else {
        block(number, fields.drop_last()) + block_line(
            number,
            fields.len() == 1,
            fields.last().0,
            fields.last().1,
        )
    }
}

/// The notice that the stream came to its end.
pub open spec fn gone_notice(number: u64) -> Seq<char> {
    red_dimmed(tag(number)) + " "@ + white_dimmed("Server gone. Subscription stopped"@) + "\n"@
}

/// The notice that the stream failed.
pub open spec fn failure_notice(number: u64, text: Seq<char>) -> Seq<char> {
    white_dimmed(tag(number)) + " "@ + red_dimmed("Channel error: "@ + text)
}

/// The state that follows `state` when `event` arrives: only a running
/// session moves, and only to an end.
pub open spec fn state_after(state: SessionState, event: StreamEventModel) -> SessionState {
    if state == SessionState::Running {
        match event {
            StreamEventModel::Batch(_) => SessionState::Running,
            StreamEventModel::End => SessionState::EndedNormally,
            StreamEventModel::Error(_) => SessionState::EndedWithError,
        }
    } else {
        state
    }
}

/// The text that a session in `state` hands out when `event` arrives: none
/// unless it is running.
pub open spec fn text_for(number: u64, state: SessionState, event: StreamEventModel) -> Option<
    Seq<char>,
> {
    if state == SessionState::Running {
        match event {
            StreamEventModel::Batch(fields) => Some(block(number, fields)),
            StreamEventModel::End => Some(gone_notice(number)),
            StreamEventModel::Error(text) => Some(failure_notice(number, text)),
        }
    } else {
        None
    }
}

/// Whether a session in this state has ended.
pub open spec fn has_ended(state: SessionState) -> bool {
    state == SessionState::EndedNormally || state == SessionState::EndedWithError
}

/// A session that has ended stays as it is and says nothing more, whatever
/// arrives.
pub proof fn lemma_termination_is_final(number: u64, state: SessionState, event: StreamEventModel)
    requires
        has_ended(state),
    ensures
        state_after(state, event) == state,
        text_for(number, state, event) is None,
{
}

/// The tag of a session.
fn write_tag(number: u64) -> (r: Vec<char>)
    ensures
        r@ == tag(number),
{
    let mut out: Vec<char> = Vec::new();
    append_literal(&mut out, "[");
    append_chars(&mut out, &unsigned_text(number));
    append_literal(&mut out, "]");
    assert(out@ =~= tag(number));
    out
}

/// The text of an update.
pub fn format_block(number: u64, fields: &Vec<(String, Option<TypedValue>)>) -> (r: String)
    ensures
        r@ == block(number, readings(fields@)),
{
    let ghost all = readings(fields@);
    let sub_disp = write_tag(number);
    let sub_disp_color = paint(Tint::WhiteDimmed, string_of(&sub_disp).as_str());
    let mut out: Vec<char> = Vec::new();
    let mut i: usize = 0;
    assert(all.take(0) =~= Seq::<(Seq<char>, Option<ValueModel>)>::empty());
    while i < fields.len()
        invariant
            i <= fields.len(),
            all == readings(fields@),
            sub_disp@ == tag(number),
            sub_disp_color@ == white_dimmed(tag(number)),
            out@ == block(number, all.take(i as int)),
        decreases fields.len() - i,
    {
        let ghost before = out@;
        proof {
            assert(all.take(i + 1).drop_last() =~= all.take(i as int));
            assert(all.take(i + 1).last() == (fields@[i as int].0@, model_of(fields@[i as int].1)));
        }
        if i == 0 {
            append_literal(&mut out, sub_disp_color.as_str());
        } else {
            let nothing: Vec<char> = Vec::new();
            append_padded(&mut out, &nothing, sub_disp.len());
        }
        append_literal(&mut out, " ");
        append_literal(&mut out, fields[i].0.as_str());
        append_literal(&mut out, ": ");
        append_chars(&mut out, &value_text(&fields[i].1));
        append_literal(&mut out, "\n");
        assert(out@ =~= before + block_line(
            number,
            i == 0,
            fields@[i as int].0@,
            model_of(fields@[i as int].1),
        ));
        i += 1;
    }
    assert(all.take(fields.len() as int) =~= all);
    string_of(&out)
}

impl SubscriptionSession {
    /// Lets a session that was starting run; any other session is left as it
    /// is.
    pub fn enter(&mut self)
        ensures
            final(self).number == old(self).number,
            final(self).state == if old(self).state == SessionState::Starting {
                SessionState::Running
            } else {
                old(self).state
            },
    {
        if self.state == SessionState::Starting {
            self.state = SessionState::Running;
        }
    }

    /// Whether the session has ended.
    pub fn is_ended(&self) -> (r: bool)
        ensures
            r == has_ended(self.state),
    {
        self.state == SessionState::EndedNormally || self.state == SessionState::EndedWithError
    }

    /// Takes what the stream delivered. A running session hands back the
    /// text to write, in one piece: the update's lines, or the notice with
    /// which it ends. A session that is not running hands back nothing and
    /// stays as it is.
    pub fn receive(&mut self, event: &StreamEvent) -> (r: Option<String>)
        ensures
            final(self).number == old(self).number,
            final(self).state == state_after(old(self).state, event@),
            match r {
                Some(text) => text_for(old(self).number, old(self).state, event@) == Some(text@),
                None => text_for(old(self).number, old(self).state, event@) is None,
            },
    {
        if self.state != SessionState::Running {
            return None;
        }
        match event {
            StreamEvent::Batch(fields) => Some(format_block(self.number, fields)),
            StreamEvent::End => {
                self.state = SessionState::EndedNormally;
                let sub_disp = string_of(&write_tag(self.number));
                let mut out: Vec<char> = Vec::new();
                append_literal(&mut out, paint(Tint::RedDimmed, sub_disp.as_str()).as_str());
                append_literal(&mut out, " ");
                append_literal(
                    &mut out,
                    paint(Tint::WhiteDimmed, "Server gone. Subscription stopped").as_str(),
                );
                append_literal(&mut out, "\n");
                assert(out@ =~= gone_notice(self.number));
                Some(string_of(&out))
            },
            StreamEvent::Error(text) => {
                self.state = SessionState::EndedWithError;
                let sub_disp = string_of(&write_tag(self.number));
                let mut message: Vec<char> = Vec::new();
                append_literal(&mut message, "Channel error: ");
                append_literal(&mut message, text.as_str());
                let mut out: Vec<char> = Vec::new();
                append_literal(&mut out, paint(Tint::WhiteDimmed, sub_disp.as_str()).as_str());
                append_literal(&mut out, " ");
                append_literal(&mut out, paint(Tint::RedDimmed, string_of(&message).as_str()).as_str());
                assert(out@ =~= failure_notice(self.number, text@));
                Some(string_of(&out))
            },
        }
    }
}

impl Subscriptions {
    /// No session was opened yet; the first one gets the number 1.
    pub fn new() -> (r: Subscriptions)
        ensures
            r.next == 1,
    {
        Subscriptions { next: 1 }
    }

    /// Takes the broker's answer to a `subscribe`. Where the broker accepted,
    /// a session is made under the next number, which no later session gets
    /// again, and the user is told of it. Where it refused, no session is
    /// made, no number is used, and the error is reported.
    pub fn subscribe(&mut self, operation: &str, answer: Result<(), ClientError>) -> (r:
        Subscribed)
        requires
            old(self).next < u64::MAX,
        ensures
            match answer {
                Ok(_) => {
                    &&& final(self).next == old(self).next + 1
                    &&& r.session == Some(
                        SubscriptionSession {
                            number: old(self).next,
                            state: SessionState::Starting,
                        },
                    )
                    &&& outputs(r.outputs@) == seq![
                        OutputModel::ResponseOk { operation: operation@ },
                        OutputModel::Info(running_notice(old(self).next)),
                    ]
                },
                Err(e) => {
                    &&& final(self).next == old(self).next
                    &&& r.session is None
                    &&& outputs(r.outputs@) == seq![error_report(operation@, e@)]
                },
            },
    {
        let mut list: Vec<Output> = Vec::new();
        match answer {
            Ok(_) => {
                let number = self.next;
                self.next = number + 1;
                let mut notice: Vec<char> = Vec::new();
                append_literal(
                    &mut notice,
                    "Subscription is now running in the background. Received data is identified by ",
                );
                append_chars(&mut notice, &write_tag(number));
                append_literal(&mut notice, ".");
                assert(notice@ =~= running_notice(number));
                let first = Output::ResponseOk { operation: string_of(&chars_of(operation)) };
                let second = Output::Info(string_of(&notice));
                list.push(first);
                list.push(second);
                assert(outputs(list@) =~= seq![first@, second@]);
                Subscribed {
                    session: Some(SubscriptionSession { number, state: SessionState::Starting }),
                    outputs: list,
                }
            },
            Err(e) => {
                let only = render_error(operation, &e);
                list.push(only);
                assert(outputs(list@) =~= seq![only@]);
                Subscribed { session: None, outputs: list }
            },
        }
    }
}

} // verus!
