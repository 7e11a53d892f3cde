//! The catalog store: the tracked games and the clips fetched for them.
//!
//! A game is found by its id, and no id is held twice. The three mutations
//! of a game report a missing or a colliding id as a [`StoreError`] and
//! leave the catalog as it was when they fail.

use crate::status::StoreError;
use crate::table::Table;
use vstd::prelude::*;

verus! {

/// A tracked game.
#[derive(Debug, Clone, PartialEq, Eq)]
pub struct Game {
    /// The id under which the caller added the game.
    pub id: u64,
    /// The name shown for the game.
    pub name: String,
    /// Whether automatic fetching should leave the game alone.
    pub is_paused: bool,
}

/// What the catalog holds under a game's id.
pub ghost struct GameRecord {
    pub name: Seq<char>,
    pub is_paused: bool,
}

/// A clip as the clip source reports it.
#[derive(Debug, Clone, Copy, PartialEq, Eq)]
pub struct Clip {
    /// The id by which a clip is told from every other.
    pub id: u64,
    /// The game the clip shows.
    pub game_id: u64,
    /// When the clip was recorded, in seconds since the Unix epoch.
    pub recorded_at: i64,
}

/// What the catalog holds under a clip's id.
pub ghost struct ClipRecord {
    pub game_id: u64,
    pub recorded_at: i64,
}

impl Clip {
    /// What the catalog holds for this clip once it is stored.
    pub open spec fn record(self) -> ClipRecord {
        ClipRecord { game_id: self.game_id, recorded_at: self.recorded_at }
    }
}

struct GameRow {
    name: String,
    is_paused: bool,
}

impl View for GameRow {
    type V = GameRecord;

    closed spec fn view(&self) -> GameRecord {
        GameRecord { name: self.name@, is_paused: self.is_paused }
    }
}

struct ClipRow {
    game_id: u64,
    recorded_at: i64,
}

impl View for ClipRow {
    type V = ClipRecord;

    closed spec fn view(&self) -> ClipRecord {
        ClipRecord { game_id: self.game_id, recorded_at: self.recorded_at }
    }
}

/// The catalog store, held in memory.
pub struct Catalog {
    games: Table<GameRow>,
    clips: Table<ClipRow>,
}

/// A catalog as two maps: the games by id and the clips by id.
#[verifier::ext_equal]
pub ghost struct CatalogView {
    pub games: Map<u64, GameRecord>,
    pub clips: Map<u64, ClipRecord>,
}

impl CatalogView {
    /// The catalog without games and without clips.
    pub open spec fn empty() -> CatalogView {
        CatalogView { games: Map::empty(), clips: Map::empty() }
    }

    /// How an insert of `id` ends: it collides if the id is held.
    pub open spec fn insert_result(self, id: u64) -> Result<(), StoreError> {
        if self.games.contains_key(id) {
            Err(StoreError::AlreadyExists)
        } else {
            Ok(())
        }
    }

    /// The catalog after an insert of `id`: a new game is unpaused, and a
    /// held id keeps its game as it is.
    pub open spec fn insert(self, id: u64, name: Seq<char>) -> CatalogView {
        if self.games.contains_key(id) {
            self
        } else {
            CatalogView {
                games: self.games.insert(id, GameRecord { name, is_paused: false }),
                ..self
            }
        }
    }

    /// How a delete or a change of `id` ends: the id must be held.
    pub open spec fn lookup_result(self, id: u64) -> Result<(), StoreError> {
        if self.games.contains_key(id) {
            Ok(())
        } else {
            Err(StoreError::NotFound)
        }
    }

    /// The catalog after a delete of `id`. Clips stay.
    pub open spec fn delete(self, id: u64) -> CatalogView {
        CatalogView { games: self.games.remove(id), ..self }
    }

    /// The catalog after the paused flag of `id` was set: the game keeps its
    /// name, and a catalog without the id stays as it is.
    pub open spec fn set_is_paused(self, id: u64, is_paused: bool) -> CatalogView {
        if self.games.contains_key(id) {
            CatalogView {
                games: self.games.insert(
                    id,
                    GameRecord { name: self.games[id].name, is_paused },
                ),
                ..self
            }
        } else {
            self
        }
    }

    /// The catalog after one clip was stored: a clip whose id is held
    /// changes nothing.
    pub open spec fn store_clip(self, clip: Clip) -> CatalogView {
        if self.clips.contains_key(clip.id) {
            self
        } else {
            CatalogView { clips: self.clips.insert(clip.id, clip.record()), ..self }
        }
    }

    /// The catalog after the clips were stored one by one, first to last.
    pub open spec fn store_clips(self, clips: Seq<Clip>) -> CatalogView
        decreases clips.len(),
    {
        if clips.len() == 0 {
            self
        } else {
            self.store_clips(clips.drop_last()).store_clip(clips.last())
        }
    }

    /// How many of the clips are new to the catalog when stored one by one.
    pub open spec fn count_new_clips(self, clips: Seq<Clip>) -> nat
        decreases clips.len(),
    {
        if clips.len() == 0 {
            0
        } else {
            let before = self.store_clips(clips.drop_last());
            let earlier = self.count_new_clips(clips.drop_last());
            if before.clips.contains_key(clips.last().id) {
                earlier
            } else {
                earlier + 1
            }
        }
    }
}

impl View for Catalog {
    type V = CatalogView;

    closed spec fn view(&self) -> CatalogView {
        CatalogView { games: self.games@, clips: self.clips@ }
    }
}

impl Catalog {
    /// A catalog without games and without clips.
    pub fn new() -> (catalog: Catalog)
        ensures
            catalog@ == CatalogView::empty(),
    {
        Catalog { games: Table::new(), clips: Table::new() }
    }

    /// Adds an unpaused game under `id`, unless the id is held.
    pub fn insert(&mut self, id: u64, name: String) -> (result: Result<(), StoreError>)
        ensures
            result == old(self)@.insert_result(id),
            final(self)@ == old(self)@.insert(id, name@),
    {
        if self.games.contains(id) {
            Err(StoreError::AlreadyExists)
        } else {
            self.games.insert(id, GameRow { name, is_paused: false });
            Ok(())
        }
    }

    /// Removes the game held under `id`.
    pub fn delete(&mut self, id: u64) -> (result: Result<(), StoreError>)
        ensures
            result == old(self)@.lookup_result(id),
            final(self)@ == old(self)@.delete(id),
    {
        match self.games.remove(id) {
            Some(_) => Ok(()),
            None => Err(StoreError::NotFound),
        }
    }

    /// Sets the paused flag of the game held under `id`.
    pub fn set_is_paused(&mut self, id: u64, is_paused: bool) -> (result: Result<
        (),
        StoreError,
    >)
        ensures
            result == old(self)@.lookup_result(id),
            final(self)@ == old(self)@.set_is_paused(id, is_paused),
    {
        match self.games.remove(id) {
            Some(row) => {
                self.games.insert(id, GameRow { name: row.name, is_paused });
                Ok(())
            },
            None => Err(StoreError::NotFound),
        }
    }

    /// Reverts the schema: every game and every clip is gone afterwards.
    /// A catalog in memory cannot fail to do so.
    pub fn down(&mut self) -> (result: Result<(), StoreError>)
        ensures
            result == Ok::<(), StoreError>(()),
            final(self)@ == CatalogView::empty(),
    {
        self.games.clear();
        self.clips.clear();
        Ok(())
    }

    /// Applies the schema. A catalog in memory has its tables from the
    /// start, so nothing changes, and it cannot fail.
    pub fn up(&mut self) -> (result: Result<(), StoreError>)
        ensures
            result == Ok::<(), StoreError>(()),
            final(self)@ == old(self)@,
    {
        Ok(())
    }

    /// Whether a game is held under `id`.
    pub fn contains_game(&self, id: u64) -> (held: bool)
        ensures
            held == self@.games.contains_key(id),
    {
        self.games.contains(id)
    }

    /// The game held under `id`.
    pub fn game(&self, id: u64) -> (game: Option<Game>)
        ensures
            match game {
                Some(g) => {
                    &&& self@.games.contains_key(id)
                    &&& g.id == id
                    &&& g.name@ == self@.games[id].name
                    &&& g.is_paused == self@.games[id].is_paused
                },
                None => !self@.games.contains_key(id),
            },
    {
        match self.games.get(id) {
            Some(row) => Some(Game { id, name: row.name.clone(), is_paused: row.is_paused }),
            None => None,
        }
    }

    /// The number of games.
    pub fn game_count(&self) -> (count: usize)
        ensures
            self@.games.dom().finite(),
            count == self@.games.dom().len(),
    {
        self.games.len()
    }

    /// The clip held under `id`.
    pub fn clip(&self, id: u64) -> (clip: Option<Clip>)
        ensures
            match clip {
                Some(c) => self@.clips.contains_key(id) && c.id == id && c.record()
                    == self@.clips[id],
                None => !self@.clips.contains_key(id),
            },
    {
        match self.clips.get(id) {
            Some(row) => Some(Clip { id, game_id: row.game_id, recorded_at: row.recorded_at }),
            None => None,
        }
    }

    /// The number of clips.
    pub fn clip_count(&self) -> (count: usize)
        ensures
            self@.clips.dom().finite(),
            count == self@.clips.dom().len(),
    {
        self.clips.len()
    }

    /// Stores the clips, first to last, and says how many were new. A clip
    /// whose id is held already is passed over, so that storing the same
    /// clips again changes nothing.
    pub fn store_clips(&mut self, clips: &Vec<Clip>) -> (stored: usize)
        ensures
            final(self)@ == old(self)@.store_clips(clips@),
            final(self)@.games == old(self)@.games,
            stored == old(self)@.count_new_clips(clips@),
    {
        let ghost before = self@;
        proof {
            lemma_store_clips_keeps_games(before, clips@);
        }
        let mut stored: usize = 0;
        let mut i: usize = 0;
        while i < clips.len()
            invariant
                i <= clips@.len(),
                stored <= i,
                self@ == before.store_clips(clips@.take(i as int)),
                stored == before.count_new_clips(clips@.take(i as int)),
            decreases clips@.len() - i,
        {
            let clip = clips[i];
            proof {
                assert(clips@.take(i + 1).drop_last() =~= clips@.take(i as int));
            }
            if !self.clips.contains(clip.id) {
                self.clips.insert(
                    clip.id,
                    ClipRow { game_id: clip.game_id, recorded_at: clip.recorded_at },
                );
                stored += 1;
            }
            i += 1;
        }
        proof {
            assert(clips@.take(clips@.len() as int) =~= clips@);
        }
        stored
    }
}

/// Storing clips changes no game.
pub proof fn lemma_store_clips_keeps_games(catalog: CatalogView, clips: Seq<Clip>)
    ensures
        catalog.store_clips(clips).games == catalog.games,
    decreases clips.len(),
{
    if clips.len() > 0 {
        lemma_store_clips_keeps_games(catalog, clips.drop_last());
    }
}

} // verus!
