//! Opt-outs for newly joined guilds.
//!
//! A user with "auto-enable new servers" off who joins a brand-new guild gets
//! a guild-wide opt-out for it, so that no plugin assigns roles there until
//! the user opts in.

use crate::ops::{texts, Answer, Op};
use crate::store::{guild_wide, Store};
use crate::text::same_text;
use vstd::prelude::*;

verus! {

/// Whether new guilds are enabled by themselves, by the user's setting. Off
/// for users who never set it.
pub open spec fn auto_enable(setting: Option<bool>) -> bool {
    setting == Some(true)
}

/// The guilds of `new_ids` that are not among `old_ids`, in order.
pub open spec fn brand_new(old_ids: Seq<Seq<char>>, new_ids: Seq<Seq<char>>) -> Seq<Seq<char>> {
    new_ids.filter(|g: Seq<char>| !old_ids.contains(g))
}

/// The user's "auto-enable new servers" preference, from the row that holds
/// it, if there is one.
pub fn auto_enable_new_guilds(setting: Option<bool>) -> (res: bool)
    ensures
        res == auto_enable(setting),
        res <==> setting == Some(true),
{
    match setting {
        Some(enabled) => enabled,
        None => false,
    }
}

/// The operation that sets that preference.
pub fn set_auto_enable_new_guilds<'a>(discord_id: &'a String, enabled: bool) -> (res: Op<'a>)
    ensures
        res == (Op::UpsertAutoEnable { discord_id, enabled }),
{
    Op::UpsertAutoEnable { discord_id, enabled }
}

/// The operation that reads the guilds recorded for a user. It comes before
/// they are replaced, to tell what is brand new.
pub fn snapshot_guild_ids<'a>(discord_id: &'a String) -> (res: Op<'a>)
    ensures
        res == (Op::SelectGuildIds { discord_id }),
{
    Op::SelectGuildIds { discord_id }
}

fn contains_text(ids: &Vec<String>, id: &String) -> (res: bool)
    ensures
        res == texts(ids@).contains(id@),
{
    let mut i: usize = 0;
    while i < ids.len()
        invariant
            i <= ids@.len(),
            forall|j: int| 0 <= j < i ==> (#[trigger] ids@[j])@ != id@,
        decreases ids@.len() - i,
    {
        if same_text(ids[i].as_str(), id.as_str()) {
            assert(texts(ids@)[i as int] == id@);
            return true;
        }
        i = i + 1;
    }
    assert forall|j: int| 0 <= j < texts(ids@).len() implies texts(ids@)[j] != id@ by {
        assert(ids@[j]@ != id@);
    }
    false
}

/// The guilds that are brand new to the user.
pub fn truly_new(old_guild_ids: &Vec<String>, new_guild_ids: &Vec<String>) -> (res: Vec<String>)
    ensures
        texts(res@) == brand_new(texts(old_guild_ids@), texts(new_guild_ids@)),
        forall|g: Seq<char>| #[trigger]
            texts(res@).contains(g) <==> texts(new_guild_ids@).contains(g) && !texts(
                old_guild_ids@,
            ).contains(g),
{
    let ghost pred = |g: Seq<char>| !texts(old_guild_ids@).contains(g);
    let ghost all = texts(new_guild_ids@);
    let mut fresh: Vec<String> = Vec::new();
    let mut i: usize = 0;
    assert(texts(fresh@) == all.take(0).filter(pred)) by {
        reveal(Seq::filter);
    }
    while i < new_guild_ids.len()
        invariant
            i <= new_guild_ids@.len(),
            all == texts(new_guild_ids@),
            pred == (|g: Seq<char>| !texts(old_guild_ids@).contains(g)),
            texts(fresh@) == all.take(i as int).filter(pred),
        decreases new_guild_ids@.len() - i,
    {
        let ghost before = texts(fresh@);
        let id: &String = &new_guild_ids[i];
        proof {
            reveal(Seq::filter);
            assert(all.take(i + 1).drop_last() == all.take(i as int));
            assert(all.take(i + 1).last() == id@);
        }
        if !contains_text(old_guild_ids, id) {
            fresh.push(id.clone());
            assert(texts(fresh@) == before.push(id@));
        }
        i = i + 1;
    }
    assert(all.take(i as int) == all);
    proof {
        assert forall|g: Seq<char>| #[trigger]
            texts(fresh@).contains(g) <==> texts(new_guild_ids@).contains(g) && !texts(
            old_guild_ids@,
        ).contains(g) by {
            brand_new_guilds(texts(old_guild_ids@), texts(new_guild_ids@), g);
        }
    }
    fresh
}

/// The guild-wide opt-outs to add for brand-new guilds, by the user's
/// setting; none at all where new guilds are enabled by themselves.
pub fn apply_optouts_for_new_guilds(truly_new: Vec<String>, setting: Option<bool>) -> (res: Option<
    Vec<String>,
>)
    ensures
        res == (if auto_enable(setting) {
            None
        } else {
            Some(truly_new)
        }),
        setting == Some(true) ==> res is None,
        setting != Some(true) ==> res == Some(truly_new),
{
    if auto_enable_new_guilds(setting) {
        None
    } else {
        Some(truly_new)
    }
}

/// What counts as brand new: exactly the new guilds that were not there
/// before.
pub proof fn brand_new_guilds(old_ids: Seq<Seq<char>>, new_ids: Seq<Seq<char>>, g: Seq<char>)
    ensures
        brand_new(old_ids, new_ids).contains(g) <==> new_ids.contains(g) && !old_ids.contains(g),
    decreases new_ids.len(),
{
    reveal(Seq::filter);
    let pred = |g: Seq<char>| !old_ids.contains(g);
    if new_ids.len() > 0 {
        let rest = new_ids.drop_last();
        let last = new_ids.last();
        brand_new_guilds(old_ids, rest, g);
        assert(new_ids == rest.push(last));
        assert(new_ids.contains(g) <==> rest.contains(g) || g == last) by {
            if rest.contains(g) {
                let i = choose|i: int| 0 <= i < rest.len() && rest[i] == g;
                assert(new_ids[i] == g);
            }
            assert(new_ids[new_ids.len() - 1] == last);
        }
        let kept = brand_new(old_ids, rest);
        if pred(last) {
            assert(brand_new(old_ids, new_ids) == kept.push(last));
            assert(kept.push(last)[kept.len() as int] == last);
            if kept.contains(g) {
                let i = choose|i: int| 0 <= i < kept.len() && kept[i] == g;
                assert(kept.push(last)[i] == g);
            }
        }
    }
}

/// What the opt-outs are once this is done, with the user's setting as it is
/// stored. Where new guilds are enabled by themselves, they are as they were.
/// Else there is a guild-wide one for each brand-new guild besides those that
/// were there, which are as they were, and nothing else has changed.
pub proof fn optouts_for_new_guilds(
    store: Store,
    discord_id: String,
    old_ids: Seq<Seq<char>>,
    new_ids: Seq<Seq<char>>,
    fresh: Vec<String>,
    setting: Option<bool>,
    now: int,
)
    requires
        store.can_answer(
            Op::SelectAutoEnable { discord_id: &discord_id },
            now,
            Answer::Flag(setting),
        ),
        texts(fresh@) == brand_new(old_ids, new_ids),
    ensures
        auto_enable(setting) == store.auto_enable(discord_id@),
        auto_enable(setting) <==> store.settings.contains_key(discord_id@)
            && store.settings[discord_id@],
        ({
            let added = Op::InsertMasterOptouts { discord_id: &discord_id, guild_ids: &fresh };
            let after = store.after_op(added, now);
            let guilds = Set::new(|g: Seq<char>| new_ids.contains(g) && !old_ids.contains(g));
            &&& after == (Store { optouts: after.optouts, ..store })
            &&& forall|k: (Seq<char>, Seq<char>, Seq<char>)| #[trigger]
                after.optouts.contains_key(k) <==> store.optouts.contains_key(k) || guild_wide(
                    k,
                    discord_id@,
                    guilds,
                )
            &&& forall|k: (Seq<char>, Seq<char>, Seq<char>)| #[trigger]
                after.optouts.contains_key(k) ==> after.optouts[k] == (
                if store.optouts.contains_key(k) {
                    store.optouts[k]
                } else {
                    now
                })
        }),
{
    let guilds = Set::new(|g: Seq<char>| new_ids.contains(g) && !old_ids.contains(g));
    assert(texts(fresh@).to_set() =~= guilds) by {
        assert forall|g: Seq<char>| texts(fresh@).to_set().contains(g) <==> guilds.contains(g) by {
            brand_new_guilds(old_ids, new_ids, g);
        }
    }
}

} // verus!
