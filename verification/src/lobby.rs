//! Shared lobby types and the player identity registry.
//!
//! The registry maps a [`PlayerId`] to its per-player record and owns the
//! strictly increasing sequence counter that drives deterministic color
//! assignment.

use vstd::prelude::*;

verus! {

/// The states of the session state machine: no session, single player,
/// hosting, or connected to a remote host as a client.
#[derive(Debug, Clone, Copy, PartialEq, Eq, Structural, Hash)]
pub enum LobbyState {
    /// No session active (initial state).
    Inactive,
    /// A local single-player session with no network resources.
    Single,
    /// Authoritative host accepting remote connections.
    Host,
    /// Thin client connected to one remote host.
    Client,
}

impl Default for LobbyState {
    fn default() -> (r: Self)
        ensures
            r == LobbyState::Inactive,
    {
        LobbyState::Inactive
    }
}

/// Whether the active level's spawn configuration has been processed yet.
#[derive(Debug, Clone, Copy, PartialEq, Eq, Structural, Hash)]
pub enum MapLoaderState {
    Yes,
    No,
}

impl Default for MapLoaderState {
    fn default() -> (r: Self)
        ensures
            r == MapLoaderState::No,
    {
        MapLoaderState::No
    }
}

/// Identity of a player: the local authoritative player, or a remote client
/// keyed by its transport-level connection identifier.
#[derive(Debug, Clone, Copy, PartialEq, Eq, Structural, Hash)]
pub enum PlayerId {
    /// The local player when hosting or playing alone.
    HostOrSingle,
    /// A remote player, keyed by its unique 64-bit connection identifier.
    Client(u64),
}

impl Default for PlayerId {
    fn default() -> (r: Self)
        ensures
            r == PlayerId::HostOrSingle,
    {
        PlayerId::HostOrSingle
    }
}

impl PlayerId {
    /// The transport-level connection identifier, for remote players only.
    pub fn client_id(&self) -> (r: Option<u64>)
        ensures
            r == (match *self {
                PlayerId::HostOrSingle => None::<u64>,
                PlayerId::Client(id) => Some(id),
            }),
    {
        match self {
            PlayerId::HostOrSingle => None,
            PlayerId::Client(id) => Some(*id),
        }
    }
}

/// Stable identifier of a non-player networked object, used to target
/// despawn and transform-replication messages.
#[derive(Debug, Clone, Copy, PartialEq, Eq, Structural, Hash)]
pub struct LinkId(pub u64);

/// Opaque handle to an engine-managed actor. The core only stores and
/// compares handles; it never dereferences them.
#[derive(Debug, Clone, Copy, PartialEq, Eq, Structural, Hash)]
pub struct ActorHandle(pub u64);

/// A display color in HSL, held in integer units: hue in tenths of a degree
/// (0..3600), saturation and lightness in permille (0..=1000).
#[derive(Debug, Clone, Copy, PartialEq, Eq, Structural, Hash)]
pub struct Color {
    pub hue_tenths: u16,
    pub saturation_permille: u16,
    pub lightness_permille: u16,
}

impl Color {
    /// Pure red: hue 0, full saturation, half lightness.
    pub fn red() -> (r: Color)
        ensures
            r == (Color { hue_tenths: 0, saturation_permille: 1000, lightness_permille: 500 }),
    {
        Color { hue_tenths: 0, saturation_permille: 1000, lightness_permille: 500 }
    }
}

/// A 3D position, held as the bit patterns of its three single-precision
/// coordinates. The core never does arithmetic on coordinates; it only
/// stores, compares and transports them.
#[derive(Debug, Clone, Copy, PartialEq, Eq, Structural, Hash)]
pub struct Position {
    pub x_bits: u32,
    pub y_bits: u32,
    pub z_bits: u32,
}

impl Position {
    /// The origin.
    pub fn zero() -> (r: Position)
        ensures
            r == (Position { x_bits: 0, y_bits: 0, z_bits: 0 }),
    {
        Position { x_bits: 0, y_bits: 0, z_bits: 0 }
    }
}

/// An orientation quaternion, held as the bit patterns of its four
/// single-precision components.
#[derive(Debug, Clone, Copy, PartialEq, Eq, Structural, Hash)]
pub struct Rotation {
    pub x_bits: u32,
    pub y_bits: u32,
    pub z_bits: u32,
    pub w_bits: u32,
}

/// Per-player view state replicated alongside the transform: a view
/// direction and a camera distance (bit pattern of a single-precision
/// value).
#[derive(Debug, Clone, Copy, PartialEq, Eq, Structural, Hash)]
pub struct PlayerView {
    pub direction: Rotation,
    pub distance_bits: u32,
}

impl PlayerView {
    pub fn new(direction: Rotation, distance_bits: u32) -> (r: Self)
        ensures
            r == (PlayerView { direction, distance_bits }),
    {
        PlayerView { direction, distance_bits }
    }
}

/// Accumulated input/action state of one player.
#[derive(Debug, Clone)]
pub struct PlayerActions {
    /// Action codes gathered since the last drain.
    pub actions: Vec<u64>,
}

impl View for PlayerActions {
    type V = Seq<u64>;

    open spec fn view(&self) -> Seq<u64> {
        self.actions@
    }
}

impl Default for PlayerActions {
    fn default() -> (r: Self)
        ensures
            r@ == Seq::<u64>::empty(),
    {
        PlayerActions { actions: Vec::new() }
    }
}

/// Mathematical model of a per-player record.
pub struct PlayerDataV {
    pub entity: Option<ActorHandle>,
    pub color: Color,
    pub username: Seq<char>,
    pub inputs: Seq<u64>,
}

/// Per-player record: the owning reference to the player's actor (absent
/// only in a just-constructed placeholder), a display color, a username and
/// the accumulated input state.
#[derive(Debug, Clone)]
pub struct PlayerData {
    /// The owning reference to the player's actor; read it through
    /// [`PlayerData::entity`], which demands that it is present.
    pub entity: Option<ActorHandle>,
    pub color: Color,
    pub username: String,
    pub inputs: PlayerActions,
}

impl View for PlayerData {
    type V = PlayerDataV;

    open spec fn view(&self) -> PlayerDataV {
        PlayerDataV {
            entity: self.entity,
            color: self.color,
            username: self.username@,
            inputs: self.inputs@,
        }
    }
}

impl PlayerData {
    /// A record for a spawned actor.
    pub fn new(entity: ActorHandle, color: Color, username: String) -> (r: PlayerData)
        ensures
            r@.entity == Some(entity),
            r@.color == color,
            r@.username == username@,
            r@.inputs == Seq::<u64>::empty(),
    {
        PlayerData { entity: Some(entity), color, username, inputs: PlayerActions::default() }
    }

    /// The actor handle. Accessing it on a placeholder record is a fatal
    /// error, so the record must hold one.
    pub fn entity(&self) -> (r: ActorHandle)
        requires
            self@.entity is Some,
        ensures
            Some(r) == self@.entity,
    {
        self.entity.unwrap()
    }

    /// Whether this record owns an actor (placeholders do not).
    pub fn has_entity(&self) -> (r: bool)
        ensures
            r == (self@.entity is Some),
    {
        self.entity.is_some()
    }
}

impl Default for PlayerData {
    /// A placeholder record: no actor yet, red color, sentinel name.
    fn default() -> (r: Self)
        ensures
            r@.entity is None,
            r@.color == (Color { hue_tenths: 0, saturation_permille: 1000, lightness_permille: 500 }),
            r@.username == "noname"@,
            r@.inputs == Seq::<u64>::empty(),
    {
        PlayerData {
            entity: None,
            color: Color::red(),
            username: "noname".to_owned(),
            inputs: PlayerActions::default(),
        }
    }
}

/// First-match association lookup over a sequence of keyed entries,
/// scanning from the most recently appended entry.
pub open spec fn assoc_lookup(s: Seq<(PlayerId, PlayerDataV)>, id: PlayerId) -> Option<PlayerDataV>
    decreases s.len(),
{
    if s.len() == 0 {
        None
    } else if s.last().0 == id {
        Some(s.last().1)
    } else {
        assoc_lookup(s.drop_last(), id)
    }
}

/// Each key occurs at most once.
pub open spec fn distinct_keys(s: Seq<(PlayerId, PlayerDataV)>) -> bool {
    forall|i: int, j: int|
        0 <= i < j < s.len() ==> (#[trigger] s[i]).0 != (#[trigger] s[j]).0
}

proof fn lemma_assoc_lookup_absent(s: Seq<(PlayerId, PlayerDataV)>, id: PlayerId)
    requires
        forall|i: int| 0 <= i < s.len() ==> (#[trigger] s[i]).0 != id,
    ensures
        assoc_lookup(s, id) is None,
    decreases s.len(),
{
    if s.len() > 0 {
        assert(s.last().0 != id);
        lemma_assoc_lookup_absent(s.drop_last(), id);
    }
}

proof fn lemma_assoc_lookup_at(s: Seq<(PlayerId, PlayerDataV)>, id: PlayerId, i: int)
    requires
        distinct_keys(s),
        0 <= i < s.len(),
        s[i].0 == id,
    ensures
        assoc_lookup(s, id) == Some(s[i].1),
    decreases s.len(),
{
    if i == s.len() - 1 {
        assert(s.last() == s[i]);
    } else {
        assert(s.last().0 != id);
        assert(s.drop_last()[i] == s[i]);
        lemma_assoc_lookup_at(s.drop_last(), id, i);
    }
}

proof fn lemma_assoc_lookup_remove(s: Seq<(PlayerId, PlayerDataV)>, i: int, id2: PlayerId)
    requires
        distinct_keys(s),
        0 <= i < s.len(),
    ensures
        assoc_lookup(s.remove(i), id2) == (if id2 == s[i].0 {
            None::<PlayerDataV>
        } else {
            assoc_lookup(s, id2)
        }),
    decreases s.len(),
{
    s.remove_ensures(i);
    if i == s.len() - 1 {
        assert(s.remove(i) =~= s.drop_last());
        if id2 == s[i].0 {
            assert(forall|j: int|
                0 <= j < s.drop_last().len() ==> (#[trigger] s.drop_last()[j]).0 != id2);
            lemma_assoc_lookup_absent(s.drop_last(), id2);
        }
    } else {
        let r = s.remove(i);
        assert(r.last() == s.last());
        assert(r.drop_last() =~= s.drop_last().remove(i));
        if r.last().0 == id2 {
            assert(s[i].0 != id2);
        } else {
            assert(s.drop_last()[i] == s[i]);
            lemma_assoc_lookup_remove(s.drop_last(), i, id2);
        }
    }
}

/// The player identity registry: the set of all known per-player records
/// keyed by identity, a distinguished record for the local player, and the
/// strictly increasing sequence counter behind color assignment.
#[derive(Debug, Clone)]
pub struct Lobby {
    /// The local player's record, used when no network plumbing exists.
    pub me: PlayerData,
    /// The registered players. Mutate it through [`Lobby::register`] and
    /// [`Lobby::unregister`], which keep [`Lobby::inv`].
    pub players: Vec<(PlayerId, PlayerData)>,
    /// Incremented exactly once per player spawn, host-side.
    pub players_seq: usize,
}

impl Lobby {
    /// The registry's entries as a sequence of (identity, record) pairs in
    /// insertion order.
    pub open spec fn entries(self) -> Seq<(PlayerId, PlayerDataV)> {
        self.players@.map_values(|p: (PlayerId, PlayerData)| (p.0, p.1@))
    }

    /// The registry as a mathematical map from identity to record.
    pub open spec fn players_map(self) -> Map<PlayerId, PlayerDataV> {
        Map::new(
            |id: PlayerId| assoc_lookup(self.entries(), id) is Some,
            |id: PlayerId| assoc_lookup(self.entries(), id)->0,
        )
    }

    /// Registry well-formedness: no identity occurs twice, and every
    /// registered record owns an actor.
    pub open spec fn inv(self) -> bool {
        &&& distinct_keys(self.entries())
        &&& forall|i: int|
            0 <= i < self.entries().len() ==> (#[trigger] self.entries()[i]).1.entity is Some
    }

    /// Number of registered players (the local `me` record not included).
    pub fn len(&self) -> (r: usize)
        ensures
            r == self.entries().len(),
    {
        self.players.len()
    }

    /// The entry at an index, for enumerating the registry.
    pub fn entry_at(&self, i: usize) -> (r: (PlayerId, &PlayerData))
        requires
            i < self.entries().len(),
        ensures
            (r.0, r.1@) == self.entries()[i as int],
    {
        let p = &self.players[i];
        (p.0, &p.1)
    }

    /// Index of the entry for `id`, if present.
    fn find(&self, id: PlayerId) -> (r: Option<usize>)
        ensures
            match r {
                Some(i) => i < self.entries().len() && self.entries()[i as int].0 == id,
                None => forall|j: int|
                    0 <= j < self.entries().len() ==> (#[trigger] self.entries()[j]).0 != id,
            },
    {
        let ghost s = self.entries();
        let mut i: usize = 0;
        while i < self.players.len()
            invariant
                i <= s.len(),
                s.len() == self.players@.len(),
                s == self.entries(),
                forall|j: int| 0 <= j < i ==> (#[trigger] s[j]).0 != id,
            decreases self.players.len() - i,
        {
            if self.players[i].0 == id {
                assert(s[i as int].0 == id);
                return Some(i);
            }
            i += 1;
        }
        None
    }

    /// Looks an identity up, returning its record if present.
    pub fn lookup(&self, id: PlayerId) -> (r: Option<&PlayerData>)
        requires
            self.inv(),
        ensures
            r is Some <==> self.players_map().contains_key(id),
            r is Some ==> r->0@ == self.players_map()[id],
            r is Some ==> r->0@.entity is Some,
    {
        proof {
            assert(self.players_map().contains_key(id) == (assoc_lookup(self.entries(), id)
                is Some));
        }
        match self.find(id) {
            Some(i) => {
                proof {
                    lemma_assoc_lookup_at(self.entries(), id, i as int);
                    assert(self.entries()[i as int].1 == self.players@[i as int].1@);
                    assert(self.players_map()[id] == assoc_lookup(self.entries(), id)->0);
                    assert(self.entries()[i as int].1.entity is Some);
                }
                Some(&self.players[i].1)
            },
            None => {
                proof {
                    lemma_assoc_lookup_absent(self.entries(), id);
                }
                None
            },
        }
    }

    /// Inserts or overwrites the record for `id`. Re-registering an
    /// existing identity silently replaces its record.
    pub fn register(&mut self, id: PlayerId, actor: ActorHandle, color: Color, username: String)
        requires
            old(self).inv(),
        ensures
            final(self).inv(),
            final(self).players_map() =~= old(self).players_map().insert(
                id,
                PlayerDataV {
                    entity: Some(actor),
                    color,
                    username: username@,
                    inputs: Seq::<u64>::empty(),
                },
            ),
            !old(self).players_map().contains_key(id) ==> final(self).entries()
                == old(self).entries().push(
                (
                    id,
                    PlayerDataV {
                        entity: Some(actor),
                        color,
                        username: username@,
                        inputs: Seq::<u64>::empty(),
                    },
                )),
            final(self).me == old(self).me,
            final(self).players_seq == old(self).players_seq,
    {
        let ghost oldm = old(self).players_map();
        let _ = self.unregister(id);
        let ghost midm = self.players_map();
        let ghost pre = self.entries();
        let data = PlayerData::new(actor, color, username);
        let ghost dv = data@;
        self.players.push((id, data));
        proof {
            assert(self.entries() =~= pre.push((id, dv)));
            assert(self.entries().drop_last() =~= pre);
            assert(self.entries().last() == (id, dv));
            // The removed identity no longer occurs in the remaining entries.
            assert forall|j: int| 0 <= j < pre.len() implies (#[trigger] pre[j]).0 != id by {
                if pre[j].0 == id {
                    lemma_assoc_lookup_at(pre, id, j);
                    assert(midm.contains_key(id));
                }
            }
            assert(distinct_keys(self.entries()));
            assert forall|id2: PlayerId| true implies #[trigger] assoc_lookup(self.entries(), id2)
                == (if id2 == id { Some(dv) } else { assoc_lookup(pre, id2) }) by {
            }
            assert(self.players_map() =~= midm.insert(id, dv));
            assert(midm.insert(id, dv) =~= oldm.insert(id, dv));
            if !oldm.contains_key(id) {
                assert(self.entries() == pre.push((id, dv)));
            }
        }
    }

    /// Removes and returns the record for `id`, or returns nothing when the
    /// identity is unknown. The caller despawns the returned actor.
    pub fn unregister(&mut self, id: PlayerId) -> (r: Option<PlayerData>)
        requires
            old(self).inv(),
        ensures
            final(self).inv(),
            final(self).players_map() =~= old(self).players_map().remove(id),
            !final(self).players_map().contains_key(id),
            r is Some <==> old(self).players_map().contains_key(id),
            r is Some ==> r->0@ == old(self).players_map()[id],
            r is Some ==> r->0@.entity is Some,
            r is Some ==> exists|i: int|
                0 <= i < old(self).entries().len() && old(self).entries()[i] == (id, r->0@)
                    && final(self).entries() == old(self).entries().remove(i),
            r is None ==> final(self).entries() == old(self).entries(),
            final(self).me == old(self).me,
            final(self).players_seq == old(self).players_seq,
    {
        let ghost pre = self.entries();
        match self.find(id) {
            Some(i) => {
                proof {
                    lemma_assoc_lookup_at(pre, id, i as int);
                    assert(pre[i as int].1.entity is Some);
                }
                let (_, data) = self.players.remove(i);
                proof {
                    assert(self.entries() =~= pre.remove(i as int));
                    assert forall|id2: PlayerId| true implies #[trigger] assoc_lookup(
                        self.entries(),
                        id2,
                    ) == (if id2 == id { None::<PlayerDataV> } else { assoc_lookup(pre, id2) }) by {
                        lemma_assoc_lookup_remove(pre, i as int, id2);
                    }
                    pre.remove_ensures(i as int);
                    assert(distinct_keys(self.entries()));
                    assert(forall|j: int|
                        0 <= j < self.entries().len() ==> (#[trigger] self.entries()[j]).1.entity
                            is Some);
                }
                Some(data)
            },
            None => {
                proof {
                    lemma_assoc_lookup_absent(pre, id);
                }
                None
            },
        }
    }

    /// Increments the player sequence counter and returns the color that the
    /// golden-angle rotation assigns to the new count.
    pub fn next_color(&mut self) -> (r: Color)
        requires
            old(self).inv(),
            old(self).players_seq < usize::MAX,
        ensures
            final(self).inv(),
            final(self).players_seq == old(self).players_seq + 1,
            r == crate::host::player_color_spec(seq_low_bits((old(self).players_seq + 1) as nat)),
            final(self).me == old(self).me,
            final(self).entries() == old(self).entries(),
    {
        self.players_seq += 1;
        crate::host::generate_player_color(truncate_seq(self.players_seq))
    }
}

/// The low 32 bits of the sequence counter, as fed to color generation.
pub open spec fn seq_low_bits(n: nat) -> u32 {
    (n % 0x1_0000_0000) as u32
}

/// The low 32 bits of the sequence counter, computed.
pub fn truncate_seq(n: usize) -> (r: u32)
    ensures
        r == seq_low_bits(n as nat),
{
    ((n as u64) % 0x1_0000_0000) as u32
}

impl Default for Lobby {
    /// An empty registry with a placeholder local record and the sequence
    /// counter at zero.
    fn default() -> (r: Self)
        ensures
            r.inv(),
            r.entries() == Seq::<(PlayerId, PlayerDataV)>::empty(),
            r.players_map() =~= Map::<PlayerId, PlayerDataV>::empty(),
            r.players_seq == 0,
            r.me@.entity is None,
    {
        let l = Lobby { me: PlayerData::default(), players: Vec::new(), players_seq: 0 };
        proof {
            assert(l.entries() =~= Seq::<(PlayerId, PlayerDataV)>::empty());
            assert forall|id: PlayerId| true implies assoc_lookup(l.entries(), id) is None by {
                lemma_assoc_lookup_absent(l.entries(), id);
            }
        }
        l
    }
}

/// Configuration a client needs before entering the client role.
#[derive(Debug, Clone)]
pub struct ClientResource {
    pub address: Option<String>,
    pub username: Option<String>,
}

impl Default for ClientResource {
    fn default() -> (r: Self)
        ensures
            r.address is None,
            r.username is None,
    {
        ClientResource { address: None, username: None }
    }
}

/// Configuration a host needs before entering the host role.
#[derive(Debug, Clone)]
pub struct HostResource {
    pub address: Option<String>,
    pub username: Option<String>,
}

impl Default for HostResource {
    fn default() -> (r: Self)
        ensures
            r.address is None,
            r.username is None,
    {
        HostResource { address: None, username: None }
    }
}

/// The client's own identity as assigned by the host, recorded on the first
/// `InitConnection`.
#[derive(Debug, Clone, Copy, PartialEq, Eq, Structural)]
pub struct OwnId(pub Option<u64>);

impl Default for OwnId {
    fn default() -> (r: Self)
        ensures
            r.0 is None,
    {
        OwnId(None)
    }
}

/// Levels a map change can target.
#[derive(Debug, Clone, Copy, PartialEq, Eq, Structural, Hash)]
pub enum KnownLevel {
    /// The default hub level a fresh session loads.
    Hub,
}

/// How a map-change request names its destination level.
#[derive(Debug, Clone)]
pub enum LevelCode {
    Url(String),
    Path(String),
    Known(KnownLevel),
}

/// Internal event requesting a map transition.
#[derive(Debug, Clone)]
pub struct ChangeMapLobbyEvent(pub LevelCode);

/// Marker carried by a player's character actor, tying the actor to the
/// identity it represents.
#[derive(Debug, Clone, Copy, PartialEq, Eq, Structural)]
pub struct Character {
    pub id: PlayerId,
}

/// Fire-and-forget signal telling world management to discard all dynamic
/// actors now.
#[derive(Debug, Clone, Copy, PartialEq, Eq, Structural)]
pub struct UnloadActorsEvent;

/// Internal event requesting removal of a non-player networked object.
#[derive(Debug, Clone, Copy, PartialEq, Eq, Structural)]
pub struct DespawnActorEvent(pub LinkId);

/// Internal event requesting a projectile announcement.
#[derive(Debug, Clone, Copy, PartialEq, Eq, Structural)]
pub struct SpawnProjectileEvent(pub LinkId, pub Color);

} // verus!
