//! Server-to-server endpoints for plugins.
//!
//! The sync workers of plugins have no signed-in user, so these go by a
//! shared key in a request header instead of the session cookie.

use crate::encoding::lemma_ascii_text;
use crate::error::AppError;
use crate::ops::{texts, Answer, Op};
use crate::routes::members::{GuildMembers, MembersPhase};
use crate::store::Store;
use crate::trusted::{header_text, header_text_byte};
use vstd::prelude::*;
use vstd::string::*;
use vstd::utf8::*;

verus! {

/// The request header that holds the key.
pub const INTERNAL_KEY_HEADER: &'static str = "x-internal-key";

pub struct UserGuildIdsQuery {
    pub discord_id: String,
}

pub struct GuildMemberIdsQuery {
    pub guild_id: String,
}

/// Whether the header, if there is one, holds the expected key: readable
/// text, the same byte for byte.
pub open spec fn key_matches(provided: Option<&[u8]>, expected: Seq<char>) -> bool {
    match provided {
        None => false,
        Some(bytes) => bytes@ == encode_utf8(expected) && forall|i: int|
            0 <= i < bytes@.len() ==> header_text_byte(#[trigger] bytes@[i]),
    }
}

/// Compares two keys without stopping at the first difference.
fn same_bytes(a: &[u8], b: &[u8]) -> (res: bool)
    requires
        a@.len() == b@.len(),
    ensures
        res == (a@ == b@),
{
    let mut diff: u8 = 0;
    let mut i: usize = 0;
    assert(a@.take(0) == b@.take(0));
    while i < a.len()
        invariant
            i <= a@.len(),
            a@.len() == b@.len(),
            diff == 0 <==> a@.take(i as int) == b@.take(i as int),
        decreases a@.len() - i,
    {
        let x: u8 = a[i];
        let y: u8 = b[i];
        let ghost before = diff;
        diff = diff | (x ^ y);
        proof {
            assert((before | (x ^ y)) == 0 <==> before == 0 && x == y) by (bit_vector);
            let (p, q) = (a@.take(i as int), b@.take(i as int));
            assert(a@.take(i + 1) == p.push(x));
            assert(b@.take(i + 1) == q.push(y));
            if p.push(x) == q.push(y) {
                assert(p == p.push(x).drop_last());
                assert(q == q.push(y).drop_last());
                assert(x == p.push(x).last());
                assert(y == q.push(y).last());
            }
        }
        i = i + 1;
    }
    assert(a@.take(i as int) == a@);
    assert(b@.take(i as int) == b@);
    diff == 0
}

/// Checks the key header of a request.
pub fn verify_internal_key(provided: Option<&[u8]>, expected: &str) -> (res: Result<(), AppError>)
    ensures
        res == (if key_matches(provided, expected@) {
            Ok::<(), AppError>(())
        } else {
            Err::<(), AppError>(AppError::Unauthorized)
        }),
        res is Ok <==> provided is Some && provided->0@ == encode_utf8(expected@) && (forall|i: int|
            0 <= i < provided->0@.len() ==> (32 <= #[trigger] provided->0@[i] < 127
                || provided->0@[i] == 9)),
        res is Err ==> res->Err_0 is Unauthorized,
{
    let bytes: &[u8] = match provided {
        None => {
            return Err(AppError::Unauthorized);
        },
        Some(bytes) => bytes,
    };
    let text: String = match header_text(bytes) {
        None => {
            return Err(AppError::Unauthorized);
        },
        Some(text) => text,
    };
    proof {
        lemma_ascii_text(bytes@);
    }
    let given: &[u8] = text.as_str().as_bytes();
    let wanted: &[u8] = expected.as_bytes();
    if given.len() != wanted.len() {
        return Err(AppError::Unauthorized);
    }
    if !same_bytes(given, wanted) {
        return Err(AppError::Unauthorized);
    }
    Ok(())
}

/// A lookup of a user's guilds.
pub struct GuildIdsLookup {
    pub discord_id: String,
}

impl GuildIdsLookup {
    /// The statement.
    pub open spec fn reads<'a>(&'a self) -> Op<'a> {
        Op::SelectGuildIds { discord_id: &self.discord_id }
    }

    /// What to carry out.
    pub fn op<'a>(&'a self) -> (res: Op<'a>)
        ensures
            res == self.reads(),
            res matches Op::SelectGuildIds { discord_id } && discord_id@ == self.discord_id@,
    {
        Op::SelectGuildIds { discord_id: &self.discord_id }
    }
}

/// GET /auth/internal/user_guild_ids: the guilds a user is in.
pub fn user_guild_ids(provided: Option<&[u8]>, expected: &str, query: UserGuildIdsQuery) -> (res:
    Result<GuildIdsLookup, AppError>)
    ensures
        res == (if key_matches(provided, expected@) {
            Ok::<GuildIdsLookup, AppError>(GuildIdsLookup { discord_id: query.discord_id })
        } else {
            Err::<GuildIdsLookup, AppError>(AppError::Unauthorized)
        }),
{
    match verify_internal_key(provided, expected) {
        Err(e) => Err(e),
        Ok(()) => Ok(GuildIdsLookup { discord_id: query.discord_id }),
    }
}

/// GET /auth/internal/guild_member_ids: the members of a guild, and its name.
pub fn guild_member_ids(
    provided: Option<&[u8]>,
    expected: &str,
    query: GuildMemberIdsQuery,
) -> (res: Result<GuildMembers, AppError>)
    ensures
        res == (if key_matches(provided, expected@) {
            Ok::<GuildMembers, AppError>(
                GuildMembers { guild_id: query.guild_id, phase: MembersPhase::List },
            )
        } else {
            Err::<GuildMembers, AppError>(AppError::Unauthorized)
        }),
{
    match verify_internal_key(provided, expected) {
        Err(e) => Err(e),
        Ok(()) => Ok(GuildMembers::for_server(query.guild_id)),
    }
}

/// The key of the server-to-server endpoints is taken as it is, byte for byte,
/// if it is text that a header can hold; no other value is, and none at all
/// is not either.
pub proof fn key_is_taken_as_it_is(given: &[u8], expected: Seq<char>)
    ensures
        key_matches(Some(given), expected) ==> given@ == encode_utf8(expected),
        given@ == encode_utf8(expected) && (forall|i: int|
            0 <= i < given@.len() ==> (32 <= #[trigger] given@[i] < 127 || given@[i] == 9))
            ==> key_matches(Some(given), expected),
        !key_matches(None, expected),
{
}

/// What a plugin server is told of a user's guilds is what the tables say:
/// every guild the user is in, once, and no other.
pub proof fn guild_ids_are_the_memberships(
    store: Store,
    lookup: GuildIdsLookup,
    now: int,
    ids: Vec<String>,
)
    requires
        store.can_answer(lookup.reads(), now, Answer::Ids(ids)),
    ensures
        texts(ids@).no_duplicates(),
        forall|g: Seq<char>| #[trigger]
            texts(ids@).contains(g) <==> store.user_guilds.contains_key((lookup.discord_id@, g)),
{
    assert forall|g: Seq<char>| #[trigger]
        texts(ids@).contains(g) <==> store.user_guilds.contains_key((lookup.discord_id@, g)) by {
        let _ = store.is_member(lookup.discord_id@, g);
    }
}

} // verus!
