//! Demanded computation: the stack of names and the nested log.

use crate::types::adapton::{Context, LogEvent, LogEventTag, LogEvents, Stack};
use crate::types::lang::Name;
use vstd::prelude::*;

verus! {

impl Stack {
    pub fn push(&mut self, name: Name)
        ensures
            final(self).0@ == old(self).0@.push(name),
    {
        self.0.push(name)
    }

    pub fn pop(&mut self) -> (name: Option<Name>)
        ensures
            match name {
                Some(n) => old(self).0@.len() > 0 && n == old(self).0@.last() && final(self).0@
                    == old(self).0@.drop_last(),
                None => old(self).0@.len() == 0 && final(self).0@ == old(self).0@,
            },
    {
        self.0.pop()
    }
}

/// Opens an event of the log: what was logged so far is set aside, and the
/// log starts empty for what happens within the event.
pub fn begin_log_event(ctx: &mut Context)
    ensures
        final(ctx).log_buf@.len() == 0,
        final(ctx).log_stack@ == old(ctx).log_stack@.push(old(ctx).log_buf),
        final(ctx).agent == old(ctx).agent,
        final(ctx).edges == old(ctx).edges,
        final(ctx).stack == old(ctx).stack,
        final(ctx).store == old(ctx).store,
{
    let mut buf_buf: LogEvents = Vec::new();
    core::mem::swap(&mut ctx.log_buf, &mut buf_buf);
    ctx.log_stack.push(buf_buf);
}

/// The event of the given kind with `body` for what happened within it.
pub fn log_event(tag: LogEventTag, body: LogEvents) -> (event: LogEvent)
    ensures
        event == event_of(tag, body),
{
    match tag {
        LogEventTag::Put(n, m) => LogEvent::Put(n, m, body),
        LogEventTag::PutThunk(n, c) => LogEvent::PutThunk(n, c, body),
        LogEventTag::Get(n, c) => LogEvent::Get(n, c, body),
        LogEventTag::DirtyIncomingTo(n) => LogEvent::DirtyIncomingTo(n, body),
        LogEventTag::CleanEdgeTo(n, b) => LogEvent::CleanEdgeTo(n, b, body),
        LogEventTag::EvalThunk(n, r) => LogEvent::EvalThunk(n, r, body),
        LogEventTag::CleanThunk(n, r) => LogEvent::CleanThunk(n, r, body),
    }
}

/// The event of the kind `tag` with `body` for what happened within it.
pub open spec fn event_of(tag: LogEventTag, body: LogEvents) -> LogEvent {
    match tag {
        LogEventTag::Put(n, m) => LogEvent::Put(n, m, body),
        LogEventTag::PutThunk(n, c) => LogEvent::PutThunk(n, c, body),
        LogEventTag::Get(n, c) => LogEvent::Get(n, c, body),
        LogEventTag::DirtyIncomingTo(n) => LogEvent::DirtyIncomingTo(n, body),
        LogEventTag::CleanEdgeTo(n, b) => LogEvent::CleanEdgeTo(n, b, body),
        LogEventTag::EvalThunk(n, r) => LogEvent::EvalThunk(n, r, body),
        LogEventTag::CleanThunk(n, r) => LogEvent::CleanThunk(n, r, body),
    }
}

/// Closes the event that was opened last: the log is again what was set
/// aside, with one more event at its end, of the kind `tag`, which holds
/// what was logged since. An event must be open.
pub fn end_log_event(ctx: &mut Context, tag: LogEventTag)
    requires
        old(ctx).log_stack@.len() > 0,
    ensures
        final(ctx).log_stack@ == old(ctx).log_stack@.drop_last(),
        final(ctx).log_buf@ == old(ctx).log_stack@.last()@.push(event_of(tag, old(ctx).log_buf)),
        final(ctx).agent == old(ctx).agent,
        final(ctx).edges == old(ctx).edges,
        final(ctx).stack == old(ctx).stack,
        final(ctx).store == old(ctx).store,
{
    let mut events = ctx.log_stack.pop().unwrap();
    core::mem::swap(&mut events, &mut ctx.log_buf);
    let event = log_event(tag, events);
    ctx.log_buf.push(event);
}

} // verus!
