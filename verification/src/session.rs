//! The per-connection protocol: how one decoded inbound request is
//! validated, applied to the shared state and turned into the event to
//! broadcast, and how a session's arrival and departure adjust the
//! presence count and announce it.

use vstd::prelude::*;
use vstd::string::StringSliceAdditionalSpecFns;
use crate::GRID_SIZE;
use crate::color::valid_color;
use crate::hub::publish;
use crate::mask::spec_tree_mask;
use crate::messages::ClientMessage;
use crate::messages::ItemKind;
use crate::messages::ServerMessage;
use crate::pixel::CellModel;
use crate::state::AppState;
use crate::state::clamped_presence;
use crate::text::MAX_TEXT_CHARS;
use crate::text::has_image_prefix;
use crate::text::is_blank;
use crate::text::is_blank_text;
use crate::text::is_image_payload;
use crate::text::spec_x_percent;
use crate::text::truncate_text;
use crate::text::truncated;
use crate::text::x_percent_for;

verus! {

/// What one inbound request does to the state, and the one event it
/// yields for broadcast — or `None` for the silent no-op cases.
///
/// A paint request is accepted exactly when its index is in range, its
/// color well-formed and its cell paintable; it then rewrites that one
/// cell. A text request keeps the first `MAX_TEXT_CHARS` characters and
/// is dropped if what is kept is whitespace-only. An image request is
/// accepted exactly when its payload declares an image data-URI, and is
/// carried whole, without a size limit.
pub fn handle_client_message(
    msg: ClientMessage,
    state: &mut AppState,
    user_id: &str,
    now: u64,
) -> (r: Option<ServerMessage>)
    requires
        old(state).wf(),
    ensures
        final(state).wf(),
        final(state).online_count == old(state).online_count,
        final(state).tree_mask@ == old(state).tree_mask@,
        msg matches ClientMessage::Paint { index, color } ==> {
            let ok = index < GRID_SIZE && valid_color(color@) && spec_tree_mask()[index as int];
            &&& r is Some <==> ok
            &&& ok ==> final(state).grid_model() == old(state).grid_model().update(
                index as int,
                CellModel { color: color@, last_updated: now, modifier: user_id@ },
            )
            &&& (r matches Some(ev) ==> (ev matches ServerMessage::UpdatePixel {
                index: pi,
                color: pc,
            } && pi == index && pc@ == color@))
            &&& !ok ==> final(state).grid_model() == old(state).grid_model()
        },
        msg matches ClientMessage::SendMessage { text } ==> {
            let kept = truncated(text@, MAX_TEXT_CHARS as int);
            &&& final(state).grid_model() == old(state).grid_model()
            &&& (r is Some <==> !is_blank_text(kept))
            &&& (r matches Some(ev) ==> (ev matches ServerMessage::FallingItem {
                item_type,
                content,
                x_percent,
            } && item_type == ItemKind::Text && content@ == kept && x_percent == spec_x_percent(
                user_id.spec_bytes(),
                now,
            ) && x_percent < 100))
        },
        msg matches ClientMessage::SendImage { data } ==> {
            &&& final(state).grid_model() == old(state).grid_model()
            &&& (r is Some <==> is_image_payload(data@))
            &&& (r matches Some(ev) ==> (ev matches ServerMessage::FallingItem {
                item_type,
                content,
                x_percent,
            } && item_type == ItemKind::Image && content@ == data@ && x_percent == spec_x_percent(
                user_id.spec_bytes(),
                now,
            ) && x_percent < 100))
        },
{
    match msg {
        ClientMessage::Paint { index, color } => {
            match state.apply_paint(index, color.as_str(), user_id, now) {
                Ok(ev) => Some(ev),
                Err(_) => None,
            }
        },
        ClientMessage::SendMessage { text } => {
            let kept = truncate_text(text.as_str());
            if is_blank(kept.as_str()) {
                None
            } else {
                let x_percent = x_percent_for(user_id, now);
                Some(
                    ServerMessage::FallingItem {
                        item_type: ItemKind::Text,
                        content: kept,
                        x_percent,
                    },
                )
            }
        },
        ClientMessage::SendImage { data } => {
            if has_image_prefix(data.as_str()) {
                let x_percent = x_percent_for(user_id, now);
                Some(
                    ServerMessage::FallingItem {
                        item_type: ItemKind::Image,
                        content: data,
                        x_percent,
                    },
                )
            } else {
                None
            }
        },
    }
}

/// Handles one inbound request and publishes the resulting event, if
/// any, to the hub. The state changes exactly as under
/// `handle_client_message`; what was published cannot be observed here,
/// so only the state transition is stated.
pub fn process_client_message(
    msg: ClientMessage,
    state: &mut AppState,
    tx: &tokio::sync::broadcast::Sender<ServerMessage>,
    user_id: &str,
    now: u64,
)
    requires
        old(state).wf(),
    ensures
        final(state).wf(),
        final(state).online_count == old(state).online_count,
        final(state).tree_mask@ == old(state).tree_mask@,
        msg matches ClientMessage::Paint { index, color } ==> {
            let ok = index < GRID_SIZE && valid_color(color@) && spec_tree_mask()[index as int];
            &&& ok ==> final(state).grid_model() == old(state).grid_model().update(
                index as int,
                CellModel { color: color@, last_updated: now, modifier: user_id@ },
            )
            &&& !ok ==> final(state).grid_model() == old(state).grid_model()
        },
        !(msg matches ClientMessage::Paint { .. }) ==> final(state).grid_model() == old(
            state,
        ).grid_model(),
{
    let r = handle_client_message(msg, state, user_id, now);
    match r {
        Some(ev) => publish(tx, ev),
        None => (),
    }
}

/// A session has connected: raise the presence count (clamped at the
/// machine limit) and announce the new count to every session.
pub fn register_session(
    state: &mut AppState,
    tx: &tokio::sync::broadcast::Sender<ServerMessage>,
) -> (count: u64)
    requires
        old(state).wf(),
    ensures
        final(state).wf(),
        final(state).online_count == clamped_presence(old(state).online_count, 1),
        count == final(state).online_count,
        final(state).grid@ == old(state).grid@,
        final(state).tree_mask@ == old(state).tree_mask@,
{
    let count = state.adjust_presence(1);
    publish(tx, ServerMessage::UpdateCount { count });
    count
}

/// A session has ended: lower the presence count (never below zero)
/// and announce the new count to every session.
pub fn unregister_session(
    state: &mut AppState,
    tx: &tokio::sync::broadcast::Sender<ServerMessage>,
) -> (count: u64)
    requires
        old(state).wf(),
    ensures
        final(state).wf(),
        final(state).online_count == clamped_presence(old(state).online_count, -1),
        count == final(state).online_count,
        final(state).grid@ == old(state).grid@,
        final(state).tree_mask@ == old(state).tree_mask@,
{
    let count = state.adjust_presence(-1);
    publish(tx, ServerMessage::UpdateCount { count });
    count
}

} // verus!
