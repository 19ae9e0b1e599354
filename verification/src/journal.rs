//! The log: what is written there, by whom and when.

use crate::error::ApiError;
use crate::error::ErrorV;
use crate::error::internal;
use crate::json::Json;
use crate::json::JsonV;
use crate::json_text::flat_object;
use crate::json_text::json_text;
use crate::json_text::render;
use crate::json_text::says_members;
use crate::params::told;
use crate::rows::dup_opt;
use crate::rows::Event;
use crate::rows::EventV;
use crate::rows::rows;
use crate::tables::find;
use crate::tables::find_row;
use crate::tables::put;
use crate::tables::put_row;
use crate::text::texts;
use crate::types::Entity;
use crate::value::opt_view;
use vstd::prelude::*;

verus! {

broadcast use vstd::string::group_string_axioms;

/// What a change needs from outside: the instant it happens at, who makes it,
/// and fresh ids, taken in order.
pub struct LogEnv {
    pub now: String,
    pub actor: Option<String>,
    pub ids: Vec<String>,
}

/// What a [`LogEnv`] says.
pub ghost struct LogV {
    pub now: Seq<char>,
    pub actor: Option<Seq<char>>,
    pub ids: Seq<Seq<char>>,
}

impl View for LogEnv {
    type V = LogV;

    open spec fn view(&self) -> LogV {
        LogV { now: self.now@, actor: opt_view(self.actor), ids: texts(self.ids@) }
    }
}

/// The fresh id number `k`, or the refusal where there are no more.
pub open spec fn minted(log: LogV, k: nat) -> Result<Seq<char>, ErrorV> {
    if k < log.ids.len() {
        Ok(log.ids[k as int])
    } else {
        Err(internal("no fresh id is left"@))
    }
}

impl LogEnv {
    /// The fresh id number `k`, or the refusal where there are no more.
    pub fn mint(&self, k: usize) -> (r: Result<String, ApiError>)
        ensures
            told(r) == minted(self@, k as nat),
            r is Ok ==> k < usize::MAX,
    {
        if k < self.ids.len() {
            assert(texts(self.ids@)[k as int] == self.ids@[k as int]@);
            Ok(self.ids[k].clone())
        } else {
            Err(ApiError::internal("no fresh id is left".to_owned()))
        }
    }
}

/// The row of a new event.
pub open spec fn event_row(
    id: Seq<char>,
    entity: Entity,
    entity_id: Seq<char>,
    op: Seq<char>,
    payload: JsonV,
    log: LogV,
) -> EventV {
    EventV {
        id,
        entity: entity.name(),
        entity_id,
        op,
        payload: Some(json_text(payload)),
        ts: log.now,
        actor: log.actor,
    }
}

/// The log with one more event under the fresh id number `k`, or why it cannot
/// be written.
pub open spec fn journaled(
    events: Seq<EventV>,
    k: nat,
    entity: Entity,
    entity_id: Seq<char>,
    op: Seq<char>,
    payload: JsonV,
    log: LogV,
) -> Result<Seq<EventV>, ErrorV> {
    match minted(log, k) {
        Err(x) => Err(x),
        Ok(id) => if find::<Event>(events, id) is Some {
            Err(internal("storage error: UNIQUE constraint failed: events.id"@))
        } else {
            Ok(put::<Event>(events, event_row(id, entity, entity_id, op, payload, log)))
        },
    }
}

/// Writes one more event under the fresh id number `k`.
pub fn insert_event(
    events: &mut Vec<Event>,
    k: usize,
    entity: Entity,
    entity_id: &str,
    op: &str,
    payload: &Json,
    log: &LogEnv,
) -> (r: Result<(), ApiError>)
    ensures
        match journaled(rows(old(events)@), k as nat, entity, entity_id@, op@, payload@, log@) {
            Ok(x) => r is Ok && rows(final(events)@) == x && k < usize::MAX,
            Err(x) => r is Err && r->Err_0@ == x && final(events)@ == old(events)@,
        },
        r is Ok && flat_object(payload@) ==> says_members(json_text(payload@), payload@),
{
    let id: String = match log.mint(k) {
        Ok(x) => x,
        Err(x) => {
            return Err(x);
        },
    };
    if find_row(events, id.as_str()).is_some() {
        return Err(
            ApiError::internal("storage error: UNIQUE constraint failed: events.id".to_owned()),
        );
    }
    let row = Event {
        id,
        entity: entity.as_str().to_owned(),
        entity_id: entity_id.to_owned(),
        op: op.to_owned(),
        payload: Some(render(payload)),
        ts: log.now.clone(),
        actor: dup_opt(&log.actor),
    };
    put_row(events, row);
    Ok(())
}

} // verus!
