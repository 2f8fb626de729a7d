//! What the tables always hold: every CSRF state leads back to this site, and
//! every opt-out is guild-wide or names a registered plugin.
//!
//! Operations that keep it so are called sound ([`sound_op`]); they keep any
//! database sound, whatever they come to
//! ([`crate::store::sound_ops_keep_the_store_sound`]). Here each flow is shown
//! to ask for sound operations alone. For a login and for a toggle, which
//! bring text from outside into those tables, see
//! [`crate::routes::oauth::login_stores_a_way_back`] and
//! [`crate::routes::preferences::toggle_stores_registered_plugins`].

use crate::routes::members::GuildMembers;
use crate::routes::oauth::Callback;
use crate::routes::preferences::{AutoEnableUpdate, BulkUpdate, GetPreferences};
use crate::services::guild_sync::{GuildRefresh, GuildSwap};
use crate::store::sound_op;
use crate::tasks::guild_refresh_worker::Worker;
use vstd::prelude::*;

verus! {

/// A replacement of a guild list asks for sound operations alone.
pub proof fn replacement_is_sound(swap: GuildSwap)
    ensures
        swap.waits_for() is Some ==> sound_op(swap.waits_for()->0),
{
}

/// So does a refresh.
pub proof fn refresh_is_sound(refresh: GuildRefresh)
    ensures
        refresh.waits_for() is Some ==> sound_op(refresh.waits_for()->0),
{
}

/// So does a callback.
pub proof fn callback_is_sound(callback: Callback)
    ensures
        callback.waits_for() is Some ==> sound_op(callback.waits_for()->0),
{
}

/// So does a listing of members.
pub proof fn listing_is_sound(listing: GuildMembers)
    ensures
        listing.waits_for() is Some ==> sound_op(listing.waits_for()->0),
{
}

/// So does a reading of the preferences.
pub proof fn reading_is_sound(reading: GetPreferences)
    ensures
        reading.waits_for() is Some ==> sound_op(reading.waits_for()->0),
{
}

/// So do the updates that take no text.
pub proof fn updates_are_sound(bulk: BulkUpdate, setting: AutoEnableUpdate)
    ensures
        sound_op(bulk.writes()),
        sound_op(setting.writes()),
{
}

/// So does the worker.
pub proof fn worker_is_sound(worker: Worker)
    ensures
        worker.waits_for() is Some ==> sound_op(worker.waits_for()->0),
{
}

} // verus!
