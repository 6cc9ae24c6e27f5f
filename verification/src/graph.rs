//! Microsoft Graph objects, and the targets and message addresses made from them.

use vstd::prelude::*;
use crate::protocol::{make_target, plugin_target, Target, TargetView};
use crate::text::{
    chars_of, find_char, find_char_in, join, lemma_find_char_unique, same_text, seq_join, slice_chars,
    string_of, strip_prefix, text_result,
};

verus! {

/// A page of a Graph list reply.
#[derive(Debug)]
pub struct GraphList<T> {
    pub value: Vec<T>,
}

/// A team the user has joined.
#[derive(Debug)]
pub struct GraphTeam {
    pub id: String,
    pub display_name: String,
}

/// A channel of a team.
#[derive(Debug)]
pub struct GraphChannel {
    pub id: String,
    pub display_name: String,
}

/// A chat of the user, with up to a few of its members.
#[derive(Debug)]
pub struct GraphChat {
    pub id: String,
    pub chat_type: String,
    pub topic: Option<String>,
    pub members: Option<Vec<GraphChatMember>>,
}

/// A member of a chat.
#[derive(Debug)]
pub struct GraphChatMember {
    pub display_name: Option<String>,
}

/// The display names of `members` that are present and not empty, in order.
pub open spec fn present_names(members: Seq<GraphChatMember>) -> Seq<Seq<char>>
    decreases members.len(),
{
    if members.len() == 0 {
        Seq::empty()
    } else {
        let earlier = present_names(members.drop_last());
        match members.last().display_name {
            Some(n) => if n@.len() > 0 { earlier.push(n@) } else { earlier },
            None => earlier,
        }
    }
}

/// At most the first four of `names`.
pub open spec fn first_four(names: Seq<Seq<char>>) -> Seq<Seq<char>> {
    if names.len() <= 4 { names } else { names.take(4) }
}

/// The member names a chat title is made of.
pub open spec fn title_names(chat: GraphChat) -> Seq<Seq<char>> {
    match chat.members {
        Some(ms) => first_four(present_names(ms@)),
        None => Seq::empty(),
    }
}

/// The title of a chat: its topic when it has a non-empty one; else the first four
/// non-empty member names joined by ", "; else "Direct message" for a one-on-one
/// chat and "Group chat" for any other.
pub open spec fn spec_chat_title(chat: GraphChat) -> Seq<char> {
    if chat.topic is Some && chat.topic->0@.len() > 0 {
        chat.topic->0@
    } else if title_names(chat).len() == 0 {
        if chat.chat_type@ == "oneOnOne"@ { "Direct message"@ } else { "Group chat"@ }
    } else {
        seq_join(title_names(chat), ", "@)
    }
}

/// The name of a member, as text (empty where it has none).
pub open spec fn member_name(m: GraphChatMember) -> Seq<char> {
    match m.display_name {
        Some(n) => n@,
        None => Seq::empty(),
    }
}

proof fn lemma_present_names_all_named(ms: Seq<GraphChatMember>)
    requires
        forall|j: int| 0 <= j < ms.len() ==> (#[trigger] ms[j]).display_name is Some && member_name(ms[j]).len() > 0,
    ensures
        present_names(ms) == ms.map_values(|m: GraphChatMember| member_name(m)),
    decreases ms.len(),
{
    if ms.len() > 0 {
        let init = ms.drop_last();
        assert forall|j: int| 0 <= j < init.len() implies (#[trigger] init[j]).display_name is Some && member_name(init[j]).len() > 0 by {
            assert(init[j] == ms[j]);
        }
        lemma_present_names_all_named(init);
        assert(ms.last() == ms[ms.len() - 1]);
        assert(ms.map_values(|m: GraphChatMember| member_name(m)) =~= init.map_values(|m: GraphChatMember| member_name(m)).push(member_name(ms.last())));
    }
}

proof fn lemma_present_names_none_named(ms: Seq<GraphChatMember>)
    requires
        forall|j: int| 0 <= j < ms.len() ==> member_name(#[trigger] ms[j]).len() == 0,
    ensures
        present_names(ms).len() == 0,
    decreases ms.len(),
{
    if ms.len() > 0 {
        let init = ms.drop_last();
        assert forall|j: int| 0 <= j < init.len() implies member_name(#[trigger] init[j]).len() == 0 by {
            assert(init[j] == ms[j]);
        }
        lemma_present_names_none_named(init);
        assert(member_name(ms[ms.len() - 1]).len() == 0);
    }
}

/// How a chat is titled. A non-empty topic is the title. Without one: when every
/// member has a non-empty name, the title is the names of the first four members
/// (all of them where there are fewer) in order, joined by ", "; when no member has
/// a non-empty name (or the members are unknown), it is "Direct message" for a
/// one-on-one chat and "Group chat" for any other.
pub proof fn lemma_chat_title_rules(chat: GraphChat)
    ensures
        chat.topic matches Some(t) ==> (t@.len() > 0 ==> spec_chat_title(chat) == t@),
        !(chat.topic matches Some(t) && t@.len() > 0) ==> {
            &&& chat.members matches Some(ms) ==> (
                (forall|j: int| 0 <= j < ms@.len() ==> (#[trigger] ms@[j]).display_name is Some && member_name(ms@[j]).len() > 0)
                    && ms@.len() > 0
                ==> spec_chat_title(chat) == seq_join(
                    ms@.take(if ms@.len() <= 4 { ms@.len() as int } else { 4 }).map_values(|m: GraphChatMember| member_name(m)),
                    ", "@,
                ))
            &&& (chat.members is None || (chat.members matches Some(ms)
                    && forall|j: int| 0 <= j < ms@.len() ==> member_name(#[trigger] ms@[j]).len() == 0))
                ==> spec_chat_title(chat) == if chat.chat_type@ == "oneOnOne"@ { "Direct message"@ } else { "Group chat"@ }
        },
{
    if !(chat.topic matches Some(t) && t@.len() > 0) {
        if let Some(ms) = chat.members {
            if forall|j: int| 0 <= j < ms@.len() ==> (#[trigger] ms@[j]).display_name is Some && member_name(ms@[j]).len() > 0 {
                lemma_present_names_all_named(ms@);
                let all = ms@.map_values(|m: GraphChatMember| member_name(m));
                let n: int = if ms@.len() <= 4 { ms@.len() as int } else { 4 };
                assert(ms@.take(n).map_values(|m: GraphChatMember| member_name(m)) =~= first_four(all));
            }
            if forall|j: int| 0 <= j < ms@.len() ==> member_name(#[trigger] ms@[j]).len() == 0 {
                lemma_present_names_none_named(ms@);
            }
        }
    }
}

/// The title shown for a chat.
pub fn chat_title(chat: &GraphChat) -> (title: String)
    ensures
        title@ == spec_chat_title(*chat),
{
    if let Some(topic) = &chat.topic {
        if !topic.as_str().is_empty() {
            return topic.clone();
        }
    }
    let mut names: Vec<String> = Vec::new();
    if let Some(ms) = &chat.members {
        let mut i: usize = 0;
        while i < ms.len()
            invariant
                i <= ms.len(),
                names.deep_view() == first_four(present_names(ms@.take(i as int))),
            decreases ms.len() - i,
        {
            assert(ms@.take(i + 1).drop_last() =~= ms@.take(i as int));
            if let Some(n) = &ms[i].display_name {
                if !n.as_str().is_empty() && names.len() < 4 {
                    let ghost old_names = names.deep_view();
                    assert(old_names.len() == names.len());
                    assert(first_four(present_names(ms@.take(i as int))).len() < 4);
                    names.push(n.clone());
                    proof {
                        let before = present_names(ms@.take(i as int));
                        assert(before.len() < 4);
                        assert(present_names(ms@.take(i + 1)) == before.push(n@));
                        assert(names.deep_view() =~= old_names.push(n@));
                    }
                } else {
                    proof {
                        let before = present_names(ms@.take(i as int));
                        if n@.len() > 0 {
                            assert(present_names(ms@.take(i + 1)) == before.push(n@));
                            assert(before.push(n@).take(4) =~= first_four(before));
                        }
                    }
                }
            }
            i = i + 1;
        }
        assert(ms@.take(ms.len() as int) =~= ms@);
    }
    if names.len() == 0 {
        if same_text(chat.chat_type.as_str(), "oneOnOne") {
            "Direct message".to_string()
        } else {
            "Group chat".to_string()
        }
    } else {
        join(&names, ", ")
    }
}


/// The description of a chat by its type.
pub open spec fn spec_chat_description(chat_type: Seq<char>) -> Seq<char> {
    if chat_type == "oneOnOne"@ {
        "Direct message"@
    } else if chat_type == "meeting"@ {
        "Meeting chat"@
    } else {
        "Group chat"@
    }
}

/// The description shown for a chat of type `chat_type`.
pub fn chat_description(chat_type: &str) -> (d: String)
    ensures
        d@ == spec_chat_description(chat_type@),
{
    if same_text(chat_type, "oneOnOne") {
        "Direct message".to_string()
    } else if same_text(chat_type, "meeting") {
        "Meeting chat".to_string()
    } else {
        "Group chat".to_string()
    }
}

/// The target through which a message reaches a chat.
pub open spec fn spec_chat_target(chat: GraphChat) -> TargetView {
    plugin_target("chat:"@ + chat.id@, spec_chat_title(chat), spec_chat_description(chat.chat_type@))
}

/// The target for one chat: id "chat:<chat id>", its title and its description.
pub fn chat_target(chat: &GraphChat) -> (t: Target)
    ensures
        t@ == spec_chat_target(*chat),
{
    let mut id = "chat:".to_string();
    id.append(chat.id.as_str());
    make_target(id, chat_title(chat), chat_description(chat.chat_type.as_str()))
}

/// The targets for a list of chats, one per chat, in the same order.
pub fn chats_to_targets(chats: &GraphList<GraphChat>) -> (targets: Vec<Target>)
    ensures
        targets@.len() == chats.value@.len(),
        forall|i: int| 0 <= i < targets@.len() ==> #[trigger] targets@[i]@ == spec_chat_target(chats.value@[i]),
{
    let mut targets: Vec<Target> = Vec::new();
    let mut i: usize = 0;
    while i < chats.value.len()
        invariant
            i <= chats.value@.len(),
            targets@.len() == i,
            forall|j: int| 0 <= j < i ==> #[trigger] targets@[j]@ == spec_chat_target(chats.value@[j]),
        decreases chats.value.len() - i,
    {
        targets.push(chat_target(&chats.value[i]));
        i = i + 1;
    }
    targets
}

/// The id of the target for a channel of a team.
pub open spec fn channel_target_id(team_id: Seq<char>, channel_id: Seq<char>) -> Seq<char> {
    "channel:"@ + team_id + ":"@ + channel_id
}

/// The target through which a message reaches a channel of a team.
pub open spec fn spec_channel_target(team: GraphTeam, channel: GraphChannel) -> TargetView {
    plugin_target(
        channel_target_id(team.id@, channel.id@),
        team.display_name@ + " › "@ + channel.display_name@,
        team.display_name@,
    )
}

/// The targets for the channels of one team, in order.
pub open spec fn team_targets(team: GraphTeam, channels: Seq<GraphChannel>) -> Seq<TargetView> {
    channels.map_values(|c: GraphChannel| spec_channel_target(team, c))
}

/// The targets for all teams, team after team; a team whose channels could not be
/// listed (`None`) contributes none.
pub open spec fn spec_channel_targets(
    teams: Seq<GraphTeam>,
    lists: Seq<Option<GraphList<GraphChannel>>>,
) -> Seq<TargetView>
    decreases teams.len(),
{
    if teams.len() == 0 {
        Seq::empty()
    } else {
        spec_channel_targets(teams.drop_last(), lists.drop_last()) + match lists.last() {
            Some(l) => team_targets(teams.last(), l.value@),
            None => Seq::empty(),
        }
    }
}

/// How many channels the fetched lists hold together; a list that could not be
/// fetched holds none.
pub open spec fn fetched_channel_count(lists: Seq<Option<GraphList<GraphChannel>>>) -> nat
    decreases lists.len(),
{
    if lists.len() == 0 {
        0
    } else {
        fetched_channel_count(lists.drop_last()) + match lists.last() {
            Some(l) => l.value@.len(),
            None => 0,
        }
    }
}

/// Every channel of every team whose list was fetched is offered as a target, and
/// nothing else is: there are as many targets as fetched channels, and for channel
/// `j` of team `i` the target of that channel of that team is among them.
pub proof fn lemma_every_fetched_channel_is_offered(
    teams: Seq<GraphTeam>,
    lists: Seq<Option<GraphList<GraphChannel>>>,
)
    requires
        teams.len() == lists.len(),
    ensures
        spec_channel_targets(teams, lists).len() == fetched_channel_count(lists),
        forall|i: int, j: int|
            0 <= i < teams.len() && lists[i] is Some && 0 <= j < lists[i]->0.value@.len()
                ==> spec_channel_targets(teams, lists).contains(
                    #[trigger] spec_channel_target(teams[i], lists[i]->0.value@[j]),
                ),
    decreases teams.len(),
{
    if teams.len() > 0 {
        let t0 = teams.drop_last();
        let l0 = lists.drop_last();
        lemma_every_fetched_channel_is_offered(t0, l0);
        let before = spec_channel_targets(t0, l0);
        let last = match lists.last() {
            Some(l) => team_targets(teams.last(), l.value@),
            None => Seq::<TargetView>::empty(),
        };
        let all = spec_channel_targets(teams, lists);
        assert(all == before + last);
        assert forall|i: int, j: int|
            0 <= i < teams.len() && lists[i] is Some && 0 <= j < lists[i]->0.value@.len()
            implies all.contains(#[trigger] spec_channel_target(teams[i], lists[i]->0.value@[j])) by {
            let target = spec_channel_target(teams[i], lists[i]->0.value@[j]);
            if i < teams.len() - 1 {
                assert(t0[i] == teams[i] && l0[i] == lists[i]);
                assert(before.contains(target));
                let k = choose|k: int| 0 <= k < before.len() && before[k] == target;
                assert(all[k] == target);
            } else {
                assert(last[j] == target);
                assert(all[before.len() + j] == target);
            }
        }
    }
}

/// The target for one channel of a team: id "channel:<team id>:<channel id>", title
/// "<team> › <channel>", description the team's name.
pub fn channel_target(team: &GraphTeam, channel: &GraphChannel) -> (t: Target)
    ensures
        t@ == spec_channel_target(*team, *channel),
{
    let mut id = "channel:".to_string();
    id.append(team.id.as_str());
    id.append(":");
    id.append(channel.id.as_str());
    let mut title = team.display_name.clone();
    title.append(" › ");
    title.append(channel.display_name.as_str());
    make_target(id, title, team.display_name.clone())
}

/// The targets for all channels of all teams. `lists[i]` holds the channels of
/// `teams[i]`, or `None` where they could not be listed; such a team is skipped.
pub fn channel_targets(
    teams: &Vec<GraphTeam>,
    lists: &Vec<Option<GraphList<GraphChannel>>>,
) -> (targets: Vec<Target>)
    requires
        teams.len() == lists.len(),
    ensures
        targets@.map_values(|t: Target| t@) == spec_channel_targets(teams@, lists@),
{
    let mut targets: Vec<Target> = Vec::new();
    let mut i: usize = 0;
    while i < teams.len()
        invariant
            teams.len() == lists.len(),
            i <= teams.len(),
            targets@.map_values(|t: Target| t@) == spec_channel_targets(teams@.take(i as int), lists@.take(i as int)),
        decreases teams.len() - i,
    {
        let ghost before = targets@.map_values(|t: Target| t@);
        proof {
            assert(teams@.take(i + 1).drop_last() =~= teams@.take(i as int));
            assert(lists@.take(i + 1).drop_last() =~= lists@.take(i as int));
        }
        match &lists[i] {
            Some(list) => {
                let mut j: usize = 0;
                while j < list.value.len()
                    invariant
                        i < teams.len(),
                        j <= list.value.len(),
                        targets@.map_values(|t: Target| t@) == before + team_targets(teams@[i as int], list.value@.take(j as int)),
                    decreases list.value.len() - j,
                {
                    let ghost old_seq = targets@;
                    let t = channel_target(&teams[i], &list.value[j]);
                    targets.push(t);
                    assert(targets@.map_values(|t: Target| t@) =~= old_seq.map_values(|t: Target| t@).push(t@));
                    assert(team_targets(teams@[i as int], list.value@.take(j + 1)) =~= team_targets(teams@[i as int], list.value@.take(j as int)).push(spec_channel_target(teams@[i as int], list.value@[j as int])));
                    assert(targets@.map_values(|t: Target| t@) =~= before + team_targets(teams@[i as int], list.value@.take(j + 1)));
                    j = j + 1;
                }
                assert(list.value@.take(list.value.len() as int) =~= list.value@);
            },
            None => {
                assert(before =~= before + Seq::<TargetView>::empty());
            },
        }
        i = i + 1;
    }
    assert(teams@.take(teams.len() as int) =~= teams@);
    assert(lists@.take(lists.len() as int) =~= lists@);
    targets
}

/// Base address of the Graph API.
pub open spec fn graph_base() -> Seq<char> {
    "https://graph.microsoft.com/v1.0"@
}

/// The Graph address listing the user's recent chats with a few members each.
pub const RECENT_CHATS_URL: &'static str = "https://graph.microsoft.com/v1.0/me/chats?$top=20&$expand=members($top=6)";

/// The Graph address listing the teams the user has joined.
pub const JOINED_TEAMS_URL: &'static str = "https://graph.microsoft.com/v1.0/me/joinedTeams";

/// The Graph address listing the channels of a team.
pub fn team_channels_url(team_id: &str) -> (url: String)
    ensures
        url@ == graph_base() + "/teams/"@ + team_id@ + "/channels"@,
{
    let mut url = "https://graph.microsoft.com/v1.0".to_string();
    url.append("/teams/");
    url.append(team_id);
    url.append("/channels");
    url
}

/// Where a message for target `target_id` is posted: "chat:<id>" names a chat,
/// "channel:<team>:<channel>" a channel (split at the first ':' after the prefix).
pub open spec fn spec_message_url(target_id: Seq<char>) -> Result<Seq<char>, Seq<char>> {
    if "chat:"@.is_prefix_of(target_id) {
        Ok(graph_base() + "/chats/"@ + target_id.skip("chat:"@.len() as int) + "/messages"@)
    } else if "channel:"@.is_prefix_of(target_id) {
        let rest = target_id.skip("channel:"@.len() as int);
        let k = find_char(rest, ':');
        if k < rest.len() {
            Ok(graph_base() + "/teams/"@ + rest.take(k) + "/channels/"@ + rest.skip(k + 1) + "/messages"@)
        } else {
            Err("Invalid channel target id: "@ + target_id)
        }
    } else {
        Err("Unknown target id format: "@ + target_id)
    }
}

/// The address a message for `target_id` is posted to, or the error for an id of
/// no known form.
pub fn message_url(target_id: &str) -> (r: Result<String, String>)
    ensures
        text_result(r) == spec_message_url(target_id@),
{
    let tid = chars_of(target_id);
    if let Some(chat_id) = strip_prefix(&tid, "chat:") {
        let mut url = "https://graph.microsoft.com/v1.0".to_string();
        url.append("/chats/");
        url.append(string_of(&chat_id).as_str());
        url.append("/messages");
        Ok(url)
    } else if let Some(rest) = strip_prefix(&tid, "channel:") {
        let k = find_char_in(&rest, ':');
        if k < rest.len() {
            let team_id = slice_chars(&rest, 0, k);
            let channel_id = slice_chars(&rest, k + 1, rest.len());
            proof {
                assert(team_id@ =~= rest@.take(k as int));
                assert(channel_id@ =~= rest@.skip(k + 1));
            }
            let mut url = "https://graph.microsoft.com/v1.0".to_string();
            url.append("/teams/");
            url.append(string_of(&team_id).as_str());
            url.append("/channels/");
            url.append(string_of(&channel_id).as_str());
            url.append("/messages");
            Ok(url)
        } else {
            let mut e = "Invalid channel target id: ".to_string();
            e.append(target_id);
            Err(e)
        }
    } else {
        let mut e = "Unknown target id format: ".to_string();
        e.append(target_id);
        Err(e)
    }
}


/// The target made for a chat leads messages to that chat's message list.
pub proof fn lemma_chat_target_reaches_its_chat(chat: GraphChat)
    ensures
        spec_message_url(spec_chat_target(chat).id)
            == Ok::<Seq<char>, Seq<char>>(graph_base() + "/chats/"@ + chat.id@ + "/messages"@),
{
    reveal_strlit("chat:");
    let id = "chat:"@ + chat.id@;
    assert(id.subrange(0, 5) =~= "chat:"@);
    assert(id.skip(5) =~= chat.id@);
}

/// The target made for a channel of a team leads messages to that channel of that
/// team, as long as the team's id holds no ':' (Graph team ids are GUIDs).
pub proof fn lemma_channel_target_reaches_its_channel(team: GraphTeam, channel: GraphChannel)
    requires
        !team.id@.contains(':'),
    ensures
        spec_message_url(spec_channel_target(team, channel).id) == Ok::<Seq<char>, Seq<char>>(
            graph_base() + "/teams/"@ + team.id@ + "/channels/"@ + channel.id@ + "/messages"@,
        ),
{
    reveal_strlit("chat:");
    reveal_strlit("channel:");
    reveal_strlit(":");
    let id = channel_target_id(team.id@, channel.id@);
    assert(id[3] == 'n');
    if "chat:"@.is_prefix_of(id) {
        assert(id.subrange(0, 5)[3] == 't');
    }
    assert(id.subrange(0, 8) =~= "channel:"@);
    let rest = id.skip(8);
    assert(rest =~= team.id@ + ":"@ + channel.id@);
    assert forall|j: int| 0 <= j < team.id@.len() implies rest[j] != ':' by {
        assert(rest[j] == team.id@[j]);
    }
    lemma_find_char_unique(rest, ':', team.id@.len() as int);
    assert(rest.take(team.id@.len() as int) =~= team.id@);
    assert(rest.skip(team.id@.len() as int + 1) =~= channel.id@);
}

} // verus!
