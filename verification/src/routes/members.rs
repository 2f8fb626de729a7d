//! The members of a guild, for a caller who is one of them or for a plugin
//! server.

use crate::error::AppError;
use crate::ops::{texts, Answer, Op};
use crate::store::{text_of, Db, Store};
use vstd::prelude::*;

verus! {

/// Where a listing stands.
pub enum MembersPhase {
    /// Checking that the caller is a member.
    CheckMember { discord_id: String },
    /// Listing the members.
    List,
    /// Finding the guild's name.
    Name { discord_ids: Vec<String> },
    Finished { discord_ids: Vec<String>, guild_name: Option<String> },
    Failed(AppError),
}

/// The listing of a guild's members.
pub struct GuildMembers {
    pub guild_id: String,
    pub phase: MembersPhase,
}

impl GuildMembers {
    /// A listing for a caller who must be a member.
    pub fn for_caller(discord_id: String, guild_id: String) -> (res: GuildMembers)
        ensures
            res == (GuildMembers { guild_id, phase: MembersPhase::CheckMember { discord_id } }),
    {
        GuildMembers { guild_id, phase: MembersPhase::CheckMember { discord_id } }
    }

    /// A listing for a plugin server.
    pub fn for_server(guild_id: String) -> (res: GuildMembers)
        ensures
            res == (GuildMembers { guild_id, phase: MembersPhase::List }),
    {
        GuildMembers { guild_id, phase: MembersPhase::List }
    }

    /// The operation the listing waits for.
    pub open spec fn waits_for<'a>(&'a self) -> Option<Op<'a>> {
        match &self.phase {
            MembersPhase::CheckMember { discord_id } => Some(
                Op::SelectMembership { discord_id, guild_id: &self.guild_id },
            ),
            MembersPhase::List => Some(Op::SelectGuildMembers { guild_id: &self.guild_id }),
            MembersPhase::Name { .. } => Some(Op::SelectGuildName { guild_id: &self.guild_id }),
            MembersPhase::Finished { .. } => None,
            MembersPhase::Failed(_) => None,
        }
    }

    /// Whether `answer` takes this listing to `after`.
    pub open spec fn stepped(self, answer: Answer, after: GuildMembers) -> bool {
        &&& after.guild_id == self.guild_id
        &&& after.phase == (match (self.phase, answer) {
            (MembersPhase::Finished { .. }, _) => self.phase,
            (MembersPhase::Failed(_), _) => self.phase,
            (_, Answer::Failed(e)) => MembersPhase::Failed(e),
            (MembersPhase::CheckMember { .. }, Answer::Found(found)) => if found {
                MembersPhase::List
            } else {
                MembersPhase::Failed(AppError::Unauthorized)
            },
            (MembersPhase::List, Answer::Ids(discord_ids)) => MembersPhase::Name { discord_ids },
            (MembersPhase::Name { discord_ids }, Answer::Text(guild_name)) => {
                MembersPhase::Finished { discord_ids, guild_name }
            },
            _ => self.phase,
        })
    }

    /// What to carry out next; nothing when the flow is over.
    pub fn next_op<'a>(&'a self) -> (res: Option<Op<'a>>)
        ensures
            res == self.waits_for(),
    {
        match &self.phase {
            MembersPhase::CheckMember { discord_id } => Some(
                Op::SelectMembership { discord_id, guild_id: &self.guild_id },
            ),
            MembersPhase::List => Some(Op::SelectGuildMembers { guild_id: &self.guild_id }),
            MembersPhase::Name { .. } => Some(Op::SelectGuildName { guild_id: &self.guild_id }),
            MembersPhase::Finished { .. } => None,
            MembersPhase::Failed(_) => None,
        }
    }

    /// Takes the answer.
    pub fn step(self, answer: Answer) -> (res: GuildMembers)
        ensures
            self.stepped(answer, res),
    {
        let GuildMembers { guild_id, phase } = self;
        let next: MembersPhase = match (phase, answer) {
            (MembersPhase::Finished { discord_ids, guild_name }, _) => {
                MembersPhase::Finished { discord_ids, guild_name }
            },
            (MembersPhase::Failed(e), _) => MembersPhase::Failed(e),
            (_, Answer::Failed(e)) => MembersPhase::Failed(e),
            (MembersPhase::CheckMember { discord_id }, Answer::Found(found)) => {
                if found {
                    MembersPhase::List
                } else {
                    MembersPhase::Failed(AppError::Unauthorized)
                }
            },
            (MembersPhase::List, Answer::Ids(discord_ids)) => MembersPhase::Name { discord_ids },
            (MembersPhase::Name { discord_ids }, Answer::Text(guild_name)) => {
                MembersPhase::Finished { discord_ids, guild_name }
            },
            (phase, _) => phase,
        };
        GuildMembers { guild_id, phase: next }
    }

    /// Whether the operation, on this database, can come to this answer and
    /// take the flow to `after` and the database to `next`.
    pub open spec fn moves(self, db: Db, answer: Answer, after: GuildMembers, next: Db) -> bool {
        &&& self.waits_for() is Some
        &&& db.performs(self.waits_for()->0, answer, next)
        &&& self.stepped(answer, after)
    }

    /// Whether a listing that begins so may be given out: the caller, if
    /// there is one to check, is a member.
    pub open spec fn admitted(self, store: Store) -> bool {
        match self.phase {
            MembersPhase::CheckMember { discord_id } => store.is_member(
                discord_id@,
                self.guild_id@,
            ),
            _ => true,
        }
    }

    /// What is known of the tables in the midst of a listing that began as
    /// `start` on the tables `store`.
    pub open spec fn underway(self, start: GuildMembers, store: Store, db: Db) -> bool {
        let guild = self.guild_id@;
        &&& self.guild_id == start.guild_id
        &&& db.committed == store
        &&& db.pending is None
        &&& !start.admitted(store) ==> self.phase == start.phase || self.phase is Failed
        &&& match self.phase {
            MembersPhase::CheckMember { .. } => self.phase == start.phase,
            MembersPhase::Name { discord_ids } => store.lists_members(guild, texts(discord_ids@)),
            MembersPhase::Finished { discord_ids, guild_name } => store.lists_members(
                guild,
                texts(discord_ids@),
            ) && store.can_name(guild, text_of(guild_name)),
            _ => true,
        }
    }
}

/// A listing, from one state to the next: the states, the database at each,
/// and the answers between them.
pub open spec fn members_run(
    listings: Seq<GuildMembers>,
    dbs: Seq<Db>,
    answers: Seq<Answer>,
) -> bool {
    &&& listings.len() == answers.len() + 1
    &&& dbs.len() == answers.len() + 1
    &&& forall|i: int|
        #![trigger answers[i]]
        0 <= i < answers.len() ==> listings[i].moves(
            dbs[i],
            answers[i],
            listings[i + 1],
            dbs[i + 1],
        )
}

/// A listing changes nothing; one that finishes holds each member of the
/// guild once, and a name recorded for it where there is one; and it goes to
/// nobody who has to be a member and is not.
pub proof fn members_are_listed_to_members(
    listings: Seq<GuildMembers>,
    dbs: Seq<Db>,
    answers: Seq<Answer>,
)
    requires
        members_run(listings, dbs, answers),
        listings[0].phase is CheckMember || listings[0].phase is List,
        dbs[0].pending is None,
    ensures
        listings.last().underway(listings[0], dbs[0].committed, dbs.last()),
        listings.last().phase is Finished ==> listings[0].admitted(dbs[0].committed),
    decreases answers.len(),
{
    if answers.len() > 0 {
        let n = answers.len() - 1;
        let earlier = answers.drop_last();
        assert forall|i: int| #![trigger earlier[i]] 0 <= i < earlier.len() implies
            listings.drop_last()[i].moves(
            dbs.drop_last()[i],
            earlier[i],
            listings.drop_last()[i + 1],
            dbs.drop_last()[i + 1],
        ) by {
            assert(answers[i] == earlier[i]);
        }
        members_are_listed_to_members(listings.drop_last(), dbs.drop_last(), earlier);
        assert(answers[n] == answers.last());
        assert(listings[n].moves(dbs[n], answers[n], listings[n + 1], dbs[n + 1]));
    }
}

impl GuildMembers {
    /// A bound on the answers a listing still needs.
    pub open spec fn remaining(self) -> nat {
        match self.phase {
            MembersPhase::CheckMember { .. } => 3,
            MembersPhase::List => 2,
            MembersPhase::Name { .. } => 1,
            MembersPhase::Finished { .. } => 0,
            MembersPhase::Failed(_) => 0,
        }
    }
}

/// A listing ends: it waits for something just as long as it is not over, and
/// every answer its operation can give brings it nearer the end.
pub proof fn listing_ends(
    listing: GuildMembers,
    db: Db,
    answer: Answer,
    after: GuildMembers,
    next: Db,
)
    requires
        listing.moves(db, answer, after, next),
    ensures
        after.remaining() < listing.remaining(),
        after.waits_for() is None <==> after.remaining() == 0,
{
}

/// A listing in the words of the tables: everybody on record in the guild is
/// listed, once, and nobody else; the name is one on record for the guild, and
/// is missing only if no member's row has one; and a caller who asks is on
/// record in the guild.
pub proof fn members_spelt_out(
    listings: Seq<GuildMembers>,
    dbs: Seq<Db>,
    answers: Seq<Answer>,
    discord_ids: Vec<String>,
    guild_name: Option<String>,
)
    requires
        members_run(listings, dbs, answers),
        listings[0].phase is CheckMember || listings[0].phase is List,
        dbs[0].pending is None,
        listings.last().phase == (MembersPhase::Finished { discord_ids, guild_name }),
    ensures
        ({
            let store = dbs[0].committed;
            let guild = listings[0].guild_id@;
            &&& texts(discord_ids@).no_duplicates()
            &&& forall|u: Seq<char>| #[trigger]
                texts(discord_ids@).contains(u) <==> store.user_guilds.contains_key((u, guild))
            &&& guild_name matches Some(name) ==> exists|u: Seq<char>| #[trigger]
                store.user_guilds.contains_key((u, guild)) && store.user_guilds[(
                    u,
                    guild,
                )].guild_name == Some(name@)
            &&& guild_name is None ==> forall|u: Seq<char>| #[trigger]
                store.user_guilds.contains_key((u, guild)) ==> store.user_guilds[(
                    u,
                    guild,
                )].guild_name is None
            &&& listings[0].phase matches MembersPhase::CheckMember { discord_id }
                ==> store.user_guilds.contains_key((discord_id@, guild))
            &&& dbs.last().committed == store
        }),
{
    members_are_listed_to_members(listings, dbs, answers);
    let store = dbs[0].committed;
    let guild = listings[0].guild_id@;
    assert forall|u: Seq<char>| #[trigger]
        texts(discord_ids@).contains(u) <==> store.user_guilds.contains_key((u, guild)) by {
        let _ = store.is_member(u, guild);
    }
    if let Some(name) = guild_name {
        let u = choose|u: Seq<char>| #[trigger]
            store.is_member(u, guild) && store.user_guilds[(u, guild)].guild_name == text_of(
                guild_name,
            );
        assert(store.user_guilds.contains_key((u, guild)));
    } else {
        assert forall|u: Seq<char>| #[trigger]
            store.user_guilds.contains_key((u, guild)) implies store.user_guilds[(
            u,
            guild,
        )].guild_name is None by {
            let _ = store.is_member(u, guild);
        }
    }
}

/// A listing fails with an answer that failed, and with that error, or because
/// the caller is not a member; in no other case. So a member is given the
/// list, however long, if the statements go through.
pub proof fn listing_fails_with_its_answer(
    listing: GuildMembers,
    answer: Answer,
    after: GuildMembers,
)
    requires
        listing.waits_for() is Some,
        listing.stepped(answer, after),
    ensures
        after.phase matches MembersPhase::Failed(error) ==> answer == Answer::Failed(error) || (
        listing.phase is CheckMember && answer == Answer::Found(false) && error is Unauthorized),
        answer is Failed ==> after.phase is Failed,
        listing.phase is CheckMember && answer == Answer::Found(false) ==> after.phase is Failed,
        after.guild_id@ == listing.guild_id@,
{
}

} // verus!
