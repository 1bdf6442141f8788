//! A registry that always offers the same relay, and a matchmaking that keeps
//! one match per template.
use vstd::prelude::*;

use crate::room::maps::{has_key, inserted, lemma_inserted, lookup, unique_keys};

verus! {

/// Where the one relay of a test installation is.
#[derive(Debug)]
pub struct RegistryService {
    pub relay_grpc_host: String,
    pub relay_grpc_port: u16,
    pub relay_game_host: String,
    pub relay_game_port: u16,
}

/// The answer to a request for a free relay.
#[derive(Debug)]
pub struct FreeRelay {
    pub relay_grpc_host: String,
    pub relay_grpc_port: u32,
    pub relay_game_host: String,
    pub relay_game_port: u32,
}

impl RegistryService {
    /// The relay to use. Its gRPC port is given as the game port, as the
    /// service has always answered.
    pub fn find_free_relay(&self) -> (r: FreeRelay)
        ensures
            r.relay_grpc_host@ == self.relay_grpc_host@,
            r.relay_grpc_port == self.relay_game_port,
            r.relay_game_host@ == self.relay_game_host@,
            r.relay_game_port == self.relay_game_port,
    {
        FreeRelay {
            relay_grpc_host: self.relay_grpc_host.clone(),
            relay_grpc_port: self.relay_game_port as u32,
            relay_game_host: self.relay_game_host.clone(),
            relay_game_port: self.relay_game_port as u32,
        }
    }
}

/// A match that the matchmaking created: where its relay is and its room.
#[derive(Debug)]
pub struct MatchInfo {
    pub relay_grpc_host: String,
    pub relay_grpc_port: u16,
    pub relay_game_host: String,
    pub relay_game_port: u16,
    pub room_id: u64,
}

impl MatchInfo {
    pub fn copy(&self) -> (r: MatchInfo)
        ensures
            r.relay_grpc_host@ == self.relay_grpc_host@,
            r.relay_grpc_port == self.relay_grpc_port,
            r.relay_game_host@ == self.relay_game_host@,
            r.relay_game_port == self.relay_game_port,
            r.room_id == self.room_id,
    {
        MatchInfo {
            relay_grpc_host: self.relay_grpc_host.clone(),
            relay_grpc_port: self.relay_grpc_port,
            relay_game_host: self.relay_game_host.clone(),
            relay_game_port: self.relay_game_port,
            room_id: self.room_id,
        }
    }
}

/// What the factory answers when it created a match.
#[derive(Debug)]
pub struct CreatedMatch {
    pub id: u64,
    pub relay_grpc_host: String,
    pub relay_grpc_port: u32,
    pub relay_game_host: String,
    pub relay_game_port: u32,
}

/// What the relay answers when it registered a member.
#[derive(Debug)]
pub struct AttachedUser {
    pub user_id: u32,
    pub private_key: Vec<u8>,
}

/// What the matchmaking answers a ticket: the member and where to play.
#[derive(Debug)]
pub struct TicketResponse {
    pub private_key: Vec<u8>,
    pub user_id: u32,
    pub room_id: u64,
    pub relay_game_host: String,
    pub relay_game_port: u32,
}

/// The matches, by template.
pub open spec fn matches_view(m: Seq<(String, MatchInfo)>) -> Seq<(Seq<char>, MatchInfo)> {
    m.map_values(|e: (String, MatchInfo)| (e.0@, e.1))
}

/// The model of a match: the hosts as texts.
pub open spec fn same_match(a: MatchInfo, b: MatchInfo) -> bool {
    &&& a.relay_grpc_host@ == b.relay_grpc_host@
    &&& a.relay_grpc_port == b.relay_grpc_port
    &&& a.relay_game_host@ == b.relay_game_host@
    &&& a.relay_game_port == b.relay_game_port
    &&& a.room_id == b.room_id
}

/// The match that the factory created, with the ports as 16-bit numbers.
pub open spec fn match_of(created: CreatedMatch, info: MatchInfo) -> bool {
    &&& info.relay_grpc_host@ == created.relay_grpc_host@
    &&& info.relay_grpc_port == created.relay_grpc_port as u16
    &&& info.relay_game_host@ == created.relay_game_host@
    &&& info.relay_game_port == created.relay_game_port as u16
    &&& info.room_id == created.id
}

/// What a lookup of a template gives: a copy of its match, or nothing when
/// the template has none.
pub open spec fn match_found(m: Seq<(Seq<char>, MatchInfo)>, template: Seq<char>, r: Option<MatchInfo>) -> bool {
    match r {
        Some(info) => has_key(m, template) && same_match(info, lookup(m, template)->0),
        None => !has_key(m, template),
    }
}

/// Once the match that the factory created for a template is remembered, a
/// lookup of the template finds that match, so a second ticket for the
/// template joins it; the other templates keep their matches.
pub proof fn law_remembered_match_is_found(
    before: Seq<(Seq<char>, MatchInfo)>,
    after: Seq<(Seq<char>, MatchInfo)>,
    template: Seq<char>,
    created: CreatedMatch,
    remembered: MatchInfo,
    found: Option<MatchInfo>,
    other: Seq<char>,
)
    requires
        unique_keys(before),
        !has_key(before, template),
        match_of(created, remembered),
        after == before.push((template, after.last().1)),
        same_match(after.last().1, remembered),
        match_found(after, template, found),
    ensures
        found matches Some(info) && same_match(info, remembered) && match_of(created, info),
        other != template ==> lookup(after, other) == lookup(before, other),
{
    lemma_inserted(before, template, after.last().1);
    assert(after == inserted(before, template, after.last().1));
}

/// What looking for the match of a template gives: the match kept for it,
/// with the matches unchanged; else, given the factory's answer, the match
/// it created, kept last; else nothing, with the matches unchanged.
pub open spec fn found_or_created(
    before: Seq<(Seq<char>, MatchInfo)>,
    after: Seq<(Seq<char>, MatchInfo)>,
    template: Seq<char>,
    created: Option<CreatedMatch>,
    r: Option<MatchInfo>,
) -> bool {
    if has_key(before, template) {
        &&& r matches Some(info) && same_match(info, lookup(before, template)->0)
        &&& after == before
    } else {
        match created {
            None => r is None && after == before,
            Some(c) => {
                &&& r matches Some(info) && match_of(c, info) && same_match(after.last().1, info)
                &&& after == before.push((template, after.last().1))
            },
        }
    }
}

/// A second look for the match of a template, after the first one gave a
/// match, finds an equal match and keeps the matches as they are, whatever
/// the factory would answer: the factory is asked at most once per template.
pub proof fn law_second_look_finds_same_match(
    s0: Seq<(Seq<char>, MatchInfo)>,
    s1: Seq<(Seq<char>, MatchInfo)>,
    s2: Seq<(Seq<char>, MatchInfo)>,
    template: Seq<char>,
    first: Option<CreatedMatch>,
    second: Option<CreatedMatch>,
    r1: Option<MatchInfo>,
    r2: Option<MatchInfo>,
)
    requires
        unique_keys(s0),
        found_or_created(s0, s1, template, first, r1),
        r1 is Some,
        found_or_created(s1, s2, template, second, r2),
    ensures
        r2 matches Some(info) && same_match(info, r1->0),
        s2 == s1,
{
    if !has_key(s0, template) {
        lemma_inserted(s0, template, s1.last().1);
        assert(s1 == inserted(s0, template, s1.last().1));
    }
}

/// A matchmaking for tests: the first ticket for a template creates a match,
/// and the later ones join it.
#[derive(Debug)]
pub struct StubMatchmakingService {
    pub matches: Vec<(String, MatchInfo)>,
}

impl View for StubMatchmakingService {
    type V = Seq<(Seq<char>, MatchInfo)>;

    open spec fn view(&self) -> Seq<(Seq<char>, MatchInfo)> {
        matches_view(self.matches@)
    }
}

impl StubMatchmakingService {
    pub fn new() -> (r: StubMatchmakingService)
        ensures
            r@.len() == 0,
    {
        StubMatchmakingService { matches: Vec::new() }
    }

    /// The match of a template, if there is one.
    pub fn find_match(&self, template: &String) -> (r: Option<MatchInfo>)
        requires
            unique_keys(self@),
        ensures
            match_found(self@, template@, r),
    {
        let mut i: usize = 0;
        while i < self.matches.len()
            invariant
                i <= self.matches@.len(),
                unique_keys(self@),
                forall|j: int| 0 <= j < i ==> #[trigger] self@[j].0 != template@,
            decreases self.matches@.len() - i,
        {
            if self.matches[i].0 == *template {
                proof {
                    assert(self@[i as int].0 == template@);
                    crate::room::maps::lemma_index_of(self@, i as int);
                }
                return Some(self.matches[i].1.copy());
            }
            i = i + 1;
        }
        proof {
            if has_key(self@, template@) {
                let j = crate::room::maps::index_of(self@, template@);
                assert(self@[j].0 == template@);
            }
        }
        None
    }

    /// Keep the match that the factory created for a template, and give it.
    pub fn remember_match(&mut self, template: String, created: CreatedMatch) -> (r: MatchInfo)
        requires
            unique_keys(old(self)@),
            !has_key(old(self)@, template@),
        ensures
            match_of(created, r),
            final(self)@ == old(self)@.push((template@, final(self)@.last().1)),
            same_match(final(self)@.last().1, r),
            unique_keys(final(self)@),
    {
        let info = MatchInfo {
            relay_grpc_host: created.relay_grpc_host,
            relay_grpc_port: created.relay_grpc_port as u16,
            relay_game_host: created.relay_game_host,
            relay_game_port: created.relay_game_port as u16,
            room_id: created.id,
        };
        let kept = info.copy();
        let ghost before = self@;
        self.matches.push((template, kept));
        proof {
            assert(self@ == before.push((template@, kept)));
            assert forall|a: int, b: int| 0 <= a < b < self@.len() implies #[trigger] self@[a].0
                != #[trigger] self@[b].0 by {
                if b == before.len() {
                    assert(before[a].0 != template@);
                }
            }
        }
        info
    }

    /// The match of a template: the one kept for it, or else the one that the
    /// factory created (`created`, its answer to a request for the template),
    /// which is then kept. `None` when no match is kept for the template and
    /// no answer of the factory is given: the factory is to be asked.
    pub fn find_or_create_match(&mut self, template: String, created: Option<CreatedMatch>) -> (r: Option<MatchInfo>)
        requires
            unique_keys(old(self)@),
        ensures
            unique_keys(final(self)@),
            found_or_created(old(self)@, final(self)@, template@, created, r),
    {
        match self.find_match(&template) {
            Some(info) => Some(info),
            None => match created {
                None => None,
                Some(c) => Some(self.remember_match(template, c)),
            },
        }
    }

    /// The answer to a ticket: the member that the relay registered, in the
    /// room of the match.
    pub fn ticket_response(attached: AttachedUser, match_info: &MatchInfo) -> (r: TicketResponse)
        ensures
            r.private_key == attached.private_key,
            r.user_id == attached.user_id,
            r.room_id == match_info.room_id,
            r.relay_game_host@ == match_info.relay_game_host@,
            r.relay_game_port == match_info.relay_game_port,
    {
        TicketResponse {
            private_key: attached.private_key,
            user_id: attached.user_id,
            room_id: match_info.room_id,
            relay_game_host: match_info.relay_game_host.clone(),
            relay_game_port: match_info.relay_game_port as u32,
        }
    }
}

} // verus!
