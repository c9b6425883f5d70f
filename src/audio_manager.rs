use vstd::prelude::*;
use vstd::utf8::{decode_utf8, valid_utf8};
use crate::config::AudioConfig;
use crate::errors::HardwareError;
use crate::registry::{entry_with_key, has_key, keyed_map, keys_unique, lemma_append, lemma_entry_at, lemma_remove};

verus! {

/// Relies on `String::from_utf8`: bytes that are valid UTF-8 become the text
/// they encode, any other bytes are refused.
#[verifier::external_body]
fn text_from_utf8(bytes: &Vec<u8>) -> (r: Option<String>)
    ensures
        r is Some <==> valid_utf8(bytes@),
        r is Some ==> r->0@ == decode_utf8(bytes@),
{
    String::from_utf8(bytes.clone()).ok()
}

/// The extension of playable files.
pub open spec fn mp3_suffix() -> Seq<u8> {
    seq![46u8, 109u8, 112u8, 51u8]
}

/// Whether a file name has the playable extension `mp3`: it ends in `.mp3`
/// and that dot is not its first byte.
pub open spec fn is_playable_name(name: Seq<u8>) -> bool {
    name.len() >= 5 && name.subrange(name.len() - 4, name.len() as int) == mp3_suffix()
}

/// The playable names among `names`, in order.
pub open spec fn playable_names(names: Seq<Seq<u8>>) -> Seq<Seq<u8>>
    decreases names.len(),
{
    if names.len() == 0 {
        Seq::empty()
    } else {
        let rest = playable_names(names.drop_last());
        if is_playable_name(names.last()) {
            rest.push(names.last())
        } else {
            rest
        }
    }
}

/// The path under which a playable file is served.
pub open spec fn served_path(name: Seq<char>) -> Seq<char> {
    "/audio/"@ + name
}

/// Whether a file name has the playable extension `mp3`.
pub fn is_playable(name: &Vec<u8>) -> (r: bool)
    ensures
        r == is_playable_name(name@),
{
    let n = name.len();
    if n < 5 {
        return false;
    }
    let r = name[n - 4] == 46u8 && name[n - 3] == 109u8 && name[n - 2] == 112u8 && name[n - 1]
        == 51u8;
    assert(r == (name@.subrange(n - 4, n as int) =~= mp3_suffix()));
    r
}

/// A playable file: its name, and the path under which it is served.
#[derive(Debug, PartialEq, Eq)]
pub struct AudioFile {
    pub name: String,
    pub path: String,
}

/// Relies on `uuid::Uuid::new_v4`: a random identifier, as its 128 bits.
#[verifier::external_body]
fn random_session_id() -> u128 {
    uuid::Uuid::new_v4().as_u128()
}

/// Whether `r` is the listing of a directory whose entries have the file
/// names `names`: the playable files in listing order, each with the path
/// under which it is served, or `Other` when the name of a playable file is
/// not valid UTF-8.
pub open spec fn is_listing_of(names: Seq<Seq<u8>>, r: Result<Vec<AudioFile>, HardwareError>) -> bool {
    let playable = playable_names(names);
    &&& (r is Ok <==> forall|i: int| 0 <= i < playable.len() ==> valid_utf8(#[trigger] playable[i]))
    &&& (r is Err ==> r->Err_0 is Other)
    &&& (r is Ok ==> {
        &&& r->Ok_0@.len() == playable.len()
        &&& forall|i: int|
            0 <= i < playable.len() ==> (#[trigger] r->Ok_0@[i]).name@ == decode_utf8(playable[i])
                && r->Ok_0@[i].path@ == served_path(r->Ok_0@[i].name@)
    })
}

/// The playable names of a prefix are a prefix of those of a longer one.
proof fn lemma_playable_prefix_extends(all: Seq<Seq<u8>>, i: int, j: int)
    requires
        0 <= i <= j <= all.len(),
    ensures
        playable_names(all.subrange(0, i)).len() <= playable_names(all.subrange(0, j)).len(),
        forall|k: int|
            0 <= k < playable_names(all.subrange(0, i)).len() ==> #[trigger] playable_names(
                all.subrange(0, j),
            )[k] == playable_names(all.subrange(0, i))[k],
    decreases j - i,
{
    if i < j {
        lemma_playable_prefix_extends(all, i, j - 1);
        assert(all.subrange(0, j).drop_last() =~= all.subrange(0, j - 1));
    }
}

/// A playback that is running: its identifier and the file it plays.
#[derive(Debug)]
pub struct PlaybackSession {
    pub id: u128,
    pub file_name: String,
}

/// What `get_status` reports of a running playback.
#[derive(Debug, PartialEq, Eq)]
pub struct PlaybackStatus {
    pub id: u128,
    pub playing: bool,
    pub file_name: String,
}

/// Key of a session in the registry: its identifier.
pub open spec fn session_key() -> spec_fn(PlaybackSession) -> u128 {
    |s: PlaybackSession| s.id
}

/// The sessions of `s` by identifier, each with the name of the file it plays.
pub open spec fn active_of(s: Seq<PlaybackSession>) -> Map<u128, Seq<char>> {
    Map::new(
        |id: u128| keyed_map(s, session_key()).dom().contains(id),
        |id: u128| keyed_map(s, session_key())[id].file_name@,
    )
}

/// The identifier probed `k` steps after `c`, counting on from zero past the
/// largest identifier.
pub open spec fn probe(c: u128, k: int) -> int {
    if c + k <= u128::MAX {
        c + k
    } else {
        c + k - u128::MAX - 1
    }
}

proof fn lemma_active_insert(before: Seq<PlaybackSession>, after: Seq<PlaybackSession>, s: PlaybackSession)
    requires
        keyed_map(after, session_key()) == keyed_map(before, session_key()).insert(s.id, s),
    ensures
        active_of(after) == active_of(before).insert(s.id, s.file_name@),
{
    assert(active_of(after) =~= active_of(before).insert(s.id, s.file_name@));
}

proof fn lemma_active_remove(before: Seq<PlaybackSession>, after: Seq<PlaybackSession>, id: u128)
    requires
        keyed_map(after, session_key()) == keyed_map(before, session_key()).remove(id),
    ensures
        active_of(after) == active_of(before).remove(id),
{
    assert(active_of(after) =~= active_of(before).remove(id));
}

/// The audio configuration and the registry of running playbacks. A session
/// is active exactly while it is in the registry, and each identifier is there
/// at most once.
pub struct AudioManager {
    config: AudioConfig,
    sessions: Vec<PlaybackSession>,
}

impl AudioManager {
    /// The running playbacks, in order of start.
    pub closed spec fn sessions(&self) -> Seq<PlaybackSession> {
        self.sessions@
    }

    /// The configuration this manager was made with.
    pub closed spec fn spec_config(&self) -> AudioConfig {
        self.config
    }

    #[verifier::type_invariant]
    spec fn inv(&self) -> bool {
        keys_unique(self.sessions@, session_key())
    }

    /// The active sessions: each identifier with the name of the file it plays.
    pub open spec fn active(&self) -> Map<u128, Seq<char>> {
        active_of(self.sessions())
    }

    /// A manager for `config` with no active session.
    pub fn new(config: AudioConfig) -> (r: Result<AudioManager, HardwareError>)
        ensures
            r is Ok,
            r->Ok_0.spec_config() == config,
            r->Ok_0.active() == Map::<u128, Seq<char>>::empty(),
    {
        let m = AudioManager { config, sessions: Vec::new() };
        assert(m.active() =~= Map::<u128, Seq<char>>::empty());
        Ok(m)
    }

    /// The configuration this manager was made with.
    pub fn config(&self) -> (r: &AudioConfig)
        ensures
            *r == self.spec_config(),
    {
        &self.config
    }

    /// The playable files of the audio directory, from the file names of its
    /// entries as bytes: those with the extension `mp3`, in listing order,
    /// each served under `/audio/`. Fails with `Other` when the name of a
    /// playable file is not valid UTF-8.
    pub fn list_audio_files(&self, names: &Vec<Vec<u8>>) -> (r: Result<Vec<AudioFile>, HardwareError>)
        ensures
            is_listing_of(names@.map_values(|b: Vec<u8>| b@), r),
    {
        let ghost all = names@.map_values(|b: Vec<u8>| b@);
        let mut files: Vec<AudioFile> = Vec::new();
        let mut i: usize = 0;
        while i < names.len()
            invariant
                i <= names@.len(),
                all == names@.map_values(|b: Vec<u8>| b@),
                files@.len() == playable_names(all.subrange(0, i as int)).len(),
                forall|j: int|
                    0 <= j < files@.len() ==> valid_utf8(
                        #[trigger] playable_names(all.subrange(0, i as int))[j],
                    ) && files@[j].name@ == decode_utf8(playable_names(all.subrange(0, i as int))[j])
                        && files@[j].path@ == served_path(files@[j].name@),
            decreases names@.len() - i,
        {
            let ghost before = all.subrange(0, i as int);
            let ghost after = all.subrange(0, i + 1);
            assert(after.drop_last() =~= before);
            assert(after.last() == names@[i as int]@);
            if is_playable(&names[i]) {
                match text_from_utf8(&names[i]) {
                    Some(name) => {
                        let path = String::from_str("/audio/").concat(name.as_str());
                        files.push(AudioFile { name, path });
                    },
                    None => {
                        proof {
                            assert(playable_names(after)[playable_names(after).len() - 1] == after.last());
                            lemma_playable_prefix_extends(all, i as int + 1, all.len() as int);
                            let idx = playable_names(after).len() - 1;
                            assert(all.subrange(0, all.len() as int) =~= all);
                            assert(playable_names(all)[idx] == names@[i as int]@);
                            assert(!valid_utf8(playable_names(all)[idx]));
                        }
                        return Err(HardwareError::Other(String::from_str("Invalid file name")));
                    },
                }
            }
            i = i + 1;
        }
        assert(all.subrange(0, i as int) =~= all);
        assert(playable_names(all.subrange(0, i as int)) == playable_names(all));
        assert(forall|j: int|
            0 <= j < playable_names(all).len() ==> valid_utf8(#[trigger] playable_names(all)[j]));
        let r: Result<Vec<AudioFile>, HardwareError> = Ok(files);
        assert(r->Ok_0@.len() == playable_names(all).len());
        assert(forall|j: int|
            0 <= j < playable_names(all).len() ==> (#[trigger] r->Ok_0@[j]).name@ == decode_utf8(playable_names(all)[j])
                && r->Ok_0@[j].path@ == served_path(r->Ok_0@[j].name@));
        r
    }

    /// Position of the session `id`.
    fn find_session(&self, id: u128) -> (r: Option<usize>)
        ensures
            r is Some ==> r->0 < self.sessions().len() && self.sessions()[r->0 as int].id == id,
            r is None ==> !self.active().dom().contains(id),
    {
        let mut i: usize = 0;
        while i < self.sessions.len()
            invariant
                i <= self.sessions@.len(),
                forall|j: int| 0 <= j < i ==> (#[trigger] self.sessions@[j]).id != id,
            decreases self.sessions@.len() - i,
        {
            if self.sessions[i].id == id {
                return Some(i);
            }
            i = i + 1;
        }
        None
    }

    /// An identifier that no active session has: `candidate` where it is free,
    /// else the first free one after it, counting on from zero past the
    /// largest.
    fn fresh_session_id(&self, candidate: u128) -> (r: u128)
        ensures
            !self.active().dom().contains(r),
            !self.active().dom().contains(candidate) ==> r == candidate,
    {
        let n = self.sessions.len();
        let ghost ids = self.sessions@.map_values(|s: PlaybackSession| s.id);
        let ghost mut tried: Set<u128> = Set::empty();
        let mut k: u128 = 0;
        while k <= n as u128
            invariant
                n == self.sessions@.len(),
                k <= n + 1,
                ids == self.sessions@.map_values(|s: PlaybackSession| s.id),
                tried.finite(),
                tried.len() == k,
                k > 0 ==> self.active().dom().contains(candidate),
                forall|x: u128| tried.contains(x) ==> ids.to_set().contains(x),
                forall|x: u128|
                    tried.contains(x) ==> exists|j: int| 0 <= j < k && x == probe(candidate, j),
            decreases n + 1 - k,
        {
            let c: u128 = if k <= u128::MAX - candidate {
                candidate + k
            } else {
                k - (u128::MAX - candidate) - 1
            };
            assert(c == probe(candidate, k as int));
            match self.find_session(c) {
                None => {
                    return c;
                },
                Some(i) => {
                    proof {
                        assert(ids[i as int] == c);
                        assert(ids.contains(c));
                        assert(has_key(self.sessions@, session_key(), c));
                        assert(!tried.contains(c));
                        tried = tried.insert(c);
                    }
                },
            }
            k = k + 1;
        }
        proof {
            ids.lemma_cardinality_of_set();
            vstd::set_lib::lemma_len_subset(tried, ids.to_set());
        }
        candidate
    }

    /// Registers a new session for `file_name` and returns its identifier,
    /// which no active session had: `candidate` where it is free.
    pub fn start_session(&mut self, file_name: &str, candidate: u128) -> (r: u128)
        ensures
            !old(self).active().dom().contains(r),
            !old(self).active().dom().contains(candidate) ==> r == candidate,
            final(self).active() == old(self).active().insert(r, file_name@),
            final(self).spec_config() == old(self).spec_config(),
    {
        proof {
            use_type_invariant(&*self);
        }
        let id = self.fresh_session_id(candidate);
        let session = PlaybackSession { id, file_name: String::from_str(file_name) };
        let mut parts = AudioManager { config: AudioConfig { audio_directory: String::new(), buffer_size: 0 }, sessions: Vec::new() };
        core::mem::swap(self, &mut parts);
        proof {
            use_type_invariant(&parts);
        }
        let AudioManager { config, mut sessions } = parts;
        let ghost before = sessions@;
        proof {
            lemma_append(before, session_key(), session);
            lemma_active_insert(before, before.push(session), session);
        }
        sessions.push(session);
        *self = AudioManager { config, sessions };
        id
    }

    /// Starts tracking a playback of `filename` and returns its new
    /// identifier, which no active session had. Fails with `NotFound`, and
    /// changes nothing, when the file does not exist.
    pub fn play_audio(&mut self, filename: &str, file_exists: bool) -> (r: Result<u128, HardwareError>)
        ensures
            r is Ok <==> file_exists,
            r is Err ==> r->Err_0 is NotFound && final(self).active() == old(self).active(),
            r is Ok ==> !old(self).active().dom().contains(r->Ok_0) && final(self).active()
                == old(self).active().insert(r->Ok_0, filename@),
            final(self).spec_config() == old(self).spec_config(),
    {
        if !file_exists {
            return Err(
                HardwareError::NotFound(String::from_str("Audio file not found: ").concat(filename)),
            );
        }
        let candidate = random_session_id();
        Ok(self.start_session(filename, candidate))
    }

    /// The status of the session `id`: playing while it is active, `None`
    /// once it has finished or been stopped, or if it never existed.
    pub fn get_status(&self, id: u128) -> (r: Option<PlaybackStatus>)
        ensures
            r is Some <==> self.active().dom().contains(id),
            r is Some ==> r->0.id == id && r->0.playing && r->0.file_name@ == self.active()[id],
    {
        proof {
            use_type_invariant(self);
        }
        match self.find_session(id) {
            Some(i) => {
                proof {
                    lemma_entry_at(self.sessions@, session_key(), i as int);
                }
                Some(PlaybackStatus { id, playing: true, file_name: self.sessions[i].file_name.clone() })
            },
            None => None,
        }
    }

    /// The identifiers of the active sessions, each once.
    pub fn list_active_playbacks(&self) -> (r: Vec<u128>)
        ensures
            r@.no_duplicates(),
            forall|id: u128| r@.contains(id) <==> self.active().dom().contains(id),
    {
        proof {
            use_type_invariant(self);
        }
        let mut r: Vec<u128> = Vec::new();
        let mut i: usize = 0;
        while i < self.sessions.len()
            invariant
                i <= self.sessions@.len(),
                keys_unique(self.sessions@, session_key()),
                r@ == self.sessions@.subrange(0, i as int).map_values(|s: PlaybackSession| s.id),
            decreases self.sessions@.len() - i,
        {
            r.push(self.sessions[i].id);
            i = i + 1;
            assert(r@ =~= self.sessions@.subrange(0, i as int).map_values(|s: PlaybackSession| s.id));
        }
        assert(self.sessions@.subrange(0, i as int) =~= self.sessions@);
        assert forall|id: u128| r@.contains(id) implies self.active().dom().contains(id) by {
            let j = choose|j: int| 0 <= j < r@.len() && r@[j] == id;
            assert(self.sessions@[j].id == id);
        }
        assert forall|id: u128| self.active().dom().contains(id) implies r@.contains(id) by {
            let j = choose|j: int| 0 <= j < self.sessions@.len() && self.sessions@[j].id == id;
            assert(r@[j] == id);
        }
        r
    }

    /// Forgets the session `id`, if it is active: its playback has ended.
    pub fn finish_playback(&mut self, id: u128)
        ensures
            final(self).active() == old(self).active().remove(id),
            final(self).spec_config() == old(self).spec_config(),
    {
        let _ = self.stop_audio(id);
    }

    /// Stops the session `id`: it is no longer active. Fails with `NotFound`,
    /// and changes nothing, when no such session is active.
    pub fn stop_audio(&mut self, id: u128) -> (r: Result<(), HardwareError>)
        ensures
            r is Ok <==> old(self).active().dom().contains(id),
            r is Err ==> r->Err_0 is NotFound,
            final(self).active() == old(self).active().remove(id),
            final(self).spec_config() == old(self).spec_config(),
    {
        proof {
            use_type_invariant(&*self);
        }
        let i = match self.find_session(id) {
            Some(i) => i,
            None => {
                assert(self.active().remove(id) =~= self.active());
                return Err(HardwareError::NotFound(String::from_str("Playback not found")));
            },
        };
        let mut parts = AudioManager { config: AudioConfig { audio_directory: String::new(), buffer_size: 0 }, sessions: Vec::new() };
        core::mem::swap(self, &mut parts);
        proof {
            use_type_invariant(&parts);
        }
        let AudioManager { config, mut sessions } = parts;
        let ghost before = sessions@;
        proof {
            lemma_remove(before, session_key(), i as int);
            lemma_active_remove(before, before.remove(i as int), id);
        }
        let _ = sessions.remove(i);
        *self = AudioManager { config, sessions };
        Ok(())
    }

    /// Forgets every session: none is active afterwards.
    pub fn stop_all(&mut self)
        ensures
            final(self).active() == Map::<u128, Seq<char>>::empty(),
            final(self).spec_config() == old(self).spec_config(),
    {
        let mut parts = AudioManager { config: AudioConfig { audio_directory: String::new(), buffer_size: 0 }, sessions: Vec::new() };
        core::mem::swap(self, &mut parts);
        let AudioManager { config, sessions: _ } = parts;
        let r = AudioManager { config, sessions: Vec::new() };
        assert(r.active() =~= Map::<u128, Seq<char>>::empty());
        *self = r;
    }
}

/// A playback that has just started is reported as playing, with its file,
/// and its identifier is that of no session that was active before it.
pub proof fn lemma_started_playback_is_playing(
    before: AudioManager,
    after: AudioManager,
    id: u128,
    filename: Seq<char>,
)
    requires
        !before.active().dom().contains(id),
        after.active() == before.active().insert(id, filename),
    ensures
        after.active().dom().contains(id),
        after.active()[id] == filename,
        forall|other: u128| #[trigger] before.active().dom().contains(other) ==> other != id,
{
}

/// Once the playback of a session has ended, the session is not found, and
/// every other session is as it was.
pub proof fn lemma_finished_playback_not_found(before: AudioManager, after: AudioManager, id: u128)
    requires
        after.active() == before.active().remove(id),
    ensures
        !after.active().dom().contains(id),
        forall|other: u128|
            other != id ==> (#[trigger] after.active().dom().contains(other)
                == before.active().dom().contains(other)),
{
}

/// After every session is stopped, none of those that were active is found.
pub proof fn lemma_stop_all_forgets_every_session(before: AudioManager, after: AudioManager)
    requires
        after.active() == Map::<u128, Seq<char>>::empty(),
    ensures
        forall|id: u128| #[trigger] before.active().dom().contains(id) ==> !after.active().dom().contains(id),
{
}

} // verus!
