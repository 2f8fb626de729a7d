//! Static registry of the plugins served from this gateway.
//!
//! Used to draw the per-plugin toggles, and to check that a plugin named in
//! a request is one of these, so that nobody fills the opt-out table with
//! arbitrary text. A slug is the plugin's URL prefix.

use crate::text::same_text;
use vstd::prelude::*;

verus! {

pub struct PluginEntry {
    pub slug: &'static str,
    pub display_name: &'static str,
}

/// Slug and display name of every plugin, in the order they are shown.
pub open spec fn registry() -> Seq<(Seq<char>, Seq<char>)> {
    seq![
        ("birthday-role"@, "Birthday Role"@),
        ("bluesky-account-role"@, "Bluesky Account Role"@),
        ("email-domain-role"@, "Email Domain Role"@),
        ("form-respondent-role"@, "Form Respondent Role"@),
        ("genshin-player-role"@, "Genshin Player Role"@),
        ("github-contributor-role"@, "GitHub Contributor Role"@),
        ("kick-channel-role"@, "Kick Channel Role"@),
        ("member-origin-role"@, "Member Origin Role"@),
        ("osu-player-role"@, "osu! Player Role"@),
        ("referral-code-role"@, "Referral Code Role"@),
        ("roblox-player-role"@, "Roblox Player Role"@),
        ("steam-player-role"@, "Steam Player Role"@),
        ("stripe-subscriber-role"@, "Stripe Subscriber Role"@),
        ("tiktok-creator-role"@, "TikTok Creator Role"@),
        ("twitch-follower-role"@, "Twitch Follower Role"@),
        ("youtube-subscriber-role"@, "YouTube Subscriber Role"@),
    ]
}

/// Whether `slug` names a registered plugin.
pub open spec fn known_plugin(slug: Seq<char>) -> bool {
    exists|i: int| 0 <= i < registry().len() && (#[trigger] registry()[i]).0 == slug
}

/// Whether the entries are the registry, in order.
pub open spec fn lists_registry(entries: Seq<PluginEntry>) -> bool {
    &&& entries.len() == registry().len()
    &&& forall|i: int|
        0 <= i < registry().len() ==> (#[trigger] entries[i]).slug@ == registry()[i].0
            && entries[i].display_name@ == registry()[i].1
}

/// The registry.
pub fn plugins() -> (res: Vec<PluginEntry>)
    ensures
        lists_registry(res@),
{
    let entries: Vec<PluginEntry> = vec![
        PluginEntry { slug: "birthday-role", display_name: "Birthday Role" },
        PluginEntry { slug: "bluesky-account-role", display_name: "Bluesky Account Role" },
        PluginEntry { slug: "email-domain-role", display_name: "Email Domain Role" },
        PluginEntry { slug: "form-respondent-role", display_name: "Form Respondent Role" },
        PluginEntry { slug: "genshin-player-role", display_name: "Genshin Player Role" },
        PluginEntry { slug: "github-contributor-role", display_name: "GitHub Contributor Role" },
        PluginEntry { slug: "kick-channel-role", display_name: "Kick Channel Role" },
        PluginEntry { slug: "member-origin-role", display_name: "Member Origin Role" },
        PluginEntry { slug: "osu-player-role", display_name: "osu! Player Role" },
        PluginEntry { slug: "referral-code-role", display_name: "Referral Code Role" },
        PluginEntry { slug: "roblox-player-role", display_name: "Roblox Player Role" },
        PluginEntry { slug: "steam-player-role", display_name: "Steam Player Role" },
        PluginEntry { slug: "stripe-subscriber-role", display_name: "Stripe Subscriber Role" },
        PluginEntry { slug: "tiktok-creator-role", display_name: "TikTok Creator Role" },
        PluginEntry { slug: "twitch-follower-role", display_name: "Twitch Follower Role" },
        PluginEntry { slug: "youtube-subscriber-role", display_name: "YouTube Subscriber Role" },
    ];
    entries
}

/// Whether `slug` names a registered plugin.
pub fn is_known_plugin(slug: &str) -> (res: bool)
    ensures
        res == known_plugin(slug@),
{
    let entries: Vec<PluginEntry> = plugins();
    let mut i: usize = 0;
    while i < entries.len()
        invariant
            i <= entries@.len(),
            entries@.len() == registry().len(),
            forall|j: int|
                0 <= j < registry().len() ==> (#[trigger] entries@[j]).slug@ == registry()[j].0,
            forall|j: int| 0 <= j < i ==> (#[trigger] registry()[j]).0 != slug@,
        decreases entries@.len() - i,
    {
        if same_text(entries[i].slug, slug) {
            assert(registry()[i as int].0 == slug@);
            return true;
        }
        i = i + 1;
    }
    false
}

/// No plugin has the empty slug, which in the opt-out table stands for the
/// guild-wide toggle.
pub proof fn known_plugin_is_named(slug: Seq<char>)
    requires
        known_plugin(slug),
    ensures
        slug.len() > 0,
{
    reveal_strlit("birthday-role");
    reveal_strlit("bluesky-account-role");
    reveal_strlit("email-domain-role");
    reveal_strlit("form-respondent-role");
    reveal_strlit("genshin-player-role");
    reveal_strlit("github-contributor-role");
    reveal_strlit("kick-channel-role");
    reveal_strlit("member-origin-role");
    reveal_strlit("osu-player-role");
    reveal_strlit("referral-code-role");
    reveal_strlit("roblox-player-role");
    reveal_strlit("steam-player-role");
    reveal_strlit("stripe-subscriber-role");
    reveal_strlit("tiktok-creator-role");
    reveal_strlit("twitch-follower-role");
    reveal_strlit("youtube-subscriber-role");
}

/// The registered slugs, as they are written in the URLs of the plugins.
pub proof fn registered_slugs(slug: Seq<char>)
    ensures
        known_plugin(slug) <==> slug == "birthday-role"@
            || slug == "bluesky-account-role"@
            || slug == "email-domain-role"@
            || slug == "form-respondent-role"@
            || slug == "genshin-player-role"@
            || slug == "github-contributor-role"@
            || slug == "kick-channel-role"@
            || slug == "member-origin-role"@
            || slug == "osu-player-role"@
            || slug == "referral-code-role"@
            || slug == "roblox-player-role"@
            || slug == "steam-player-role"@
            || slug == "stripe-subscriber-role"@
            || slug == "tiktok-creator-role"@
            || slug == "twitch-follower-role"@
            || slug == "youtube-subscriber-role"@,
{
    assert(registry()[0].0 == "birthday-role"@);
    assert(registry()[1].0 == "bluesky-account-role"@);
    assert(registry()[2].0 == "email-domain-role"@);
    assert(registry()[3].0 == "form-respondent-role"@);
    assert(registry()[4].0 == "genshin-player-role"@);
    assert(registry()[5].0 == "github-contributor-role"@);
    assert(registry()[6].0 == "kick-channel-role"@);
    assert(registry()[7].0 == "member-origin-role"@);
    assert(registry()[8].0 == "osu-player-role"@);
    assert(registry()[9].0 == "referral-code-role"@);
    assert(registry()[10].0 == "roblox-player-role"@);
    assert(registry()[11].0 == "steam-player-role"@);
    assert(registry()[12].0 == "stripe-subscriber-role"@);
    assert(registry()[13].0 == "tiktok-creator-role"@);
    assert(registry()[14].0 == "twitch-follower-role"@);
    assert(registry()[15].0 == "youtube-subscriber-role"@);
}

/// The registry as it is shown: every plugin under its name, in this order.
pub proof fn registry_as_it_is_shown(entries: Seq<PluginEntry>)
    requires
        lists_registry(entries),
    ensures
        entries.len() == 16,
        entries[0].slug@ == "birthday-role"@,
        entries[0].display_name@ == "Birthday Role"@,
        entries[1].slug@ == "bluesky-account-role"@,
        entries[1].display_name@ == "Bluesky Account Role"@,
        entries[2].slug@ == "email-domain-role"@,
        entries[2].display_name@ == "Email Domain Role"@,
        entries[3].slug@ == "form-respondent-role"@,
        entries[3].display_name@ == "Form Respondent Role"@,
        entries[4].slug@ == "genshin-player-role"@,
        entries[4].display_name@ == "Genshin Player Role"@,
        entries[5].slug@ == "github-contributor-role"@,
        entries[5].display_name@ == "GitHub Contributor Role"@,
        entries[6].slug@ == "kick-channel-role"@,
        entries[6].display_name@ == "Kick Channel Role"@,
        entries[7].slug@ == "member-origin-role"@,
        entries[7].display_name@ == "Member Origin Role"@,
        entries[8].slug@ == "osu-player-role"@,
        entries[8].display_name@ == "osu! Player Role"@,
        entries[9].slug@ == "referral-code-role"@,
        entries[9].display_name@ == "Referral Code Role"@,
        entries[10].slug@ == "roblox-player-role"@,
        entries[10].display_name@ == "Roblox Player Role"@,
        entries[11].slug@ == "steam-player-role"@,
        entries[11].display_name@ == "Steam Player Role"@,
        entries[12].slug@ == "stripe-subscriber-role"@,
        entries[12].display_name@ == "Stripe Subscriber Role"@,
        entries[13].slug@ == "tiktok-creator-role"@,
        entries[13].display_name@ == "TikTok Creator Role"@,
        entries[14].slug@ == "twitch-follower-role"@,
        entries[14].display_name@ == "Twitch Follower Role"@,
        entries[15].slug@ == "youtube-subscriber-role"@,
        entries[15].display_name@ == "YouTube Subscriber Role"@,
{
}

} // verus!
