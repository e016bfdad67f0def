//! The pool: one storage engine for each workspace that was connected, found
//! by the workspace's identifier.
use vstd::prelude::*;
use super::error::{Error, StoreError};
use super::keyed::{
    distinct_keys, has_key, lemma_position_is, lemma_upsert, lookup, position, with_key, Keyed,
};
use super::state::StoreState;
use super::storage::SqliteDocStorage;
use super::table::{find_key, views, RowTest};

verus! {

/// An engine in the pool, as the contracts see it: the path that it is bound
/// to and the state of its store.
pub struct Bound {
    pub path: Seq<char>,
    pub state: StoreState,
}

/// An engine in the pool under its identifier, as the contracts see it.
pub struct EngineRow {
    pub id: Seq<char>,
    pub bound: Bound,
}

impl Keyed for EngineRow {
    type Key = Seq<char>;

    open spec fn key(self) -> Seq<char> {
        self.id
    }
}

/// An engine in the pool under its identifier.
pub struct Engine {
    id: String,
    storage: SqliteDocStorage,
}

impl View for Engine {
    type V = EngineRow;

    closed spec fn view(&self) -> EngineRow {
        EngineRow {
            id: self.id@,
            bound: Bound { path: self.storage.spec_path(), state: self.storage@ },
        }
    }
}

/// Passes the engine of one workspace.
pub struct ForWorkspace<'a> {
    pub id: &'a String,
}

impl<'a> RowTest<Engine> for ForWorkspace<'a> {
    open spec fn passing(&self) -> spec_fn(<Engine as View>::V) -> bool {
        with_key(self.id@)
    }

    fn passes(&self, row: &Engine) -> (answer: bool) {
        row.id == *self.id
    }
}

/// The engines of the workspaces that were connected and not disconnected
/// since, each under the identifier of its workspace.
pub struct SqliteDocStoragePool {
    engines: Vec<Engine>,
}

/// What a sequence of engines holds for each identifier.
spec fn held_by(engines: Seq<Engine>) -> Map<Seq<char>, Bound> {
    Map::new(
        |id: Seq<char>| has_key(views(engines), id),
        |id: Seq<char>| views(engines)[position(views(engines), id)].bound,
    )
}

/// No identifier has two of the engines, and every engine is well formed.
spec fn all_wf(engines: Seq<Engine>) -> bool {
    &&& distinct_keys(views(engines))
    &&& forall|i: int| 0 <= i < engines.len() ==> (#[trigger] engines[i]).storage.wf()
}

/// Engines of which one was written to, and kept its identifier, hold what
/// they held before, but for that engine.
proof fn lemma_engine_written(engines: Seq<Engine>, at: int, written: Seq<Engine>)
    requires
        all_wf(engines),
        0 <= at < engines.len(),
        written.len() == engines.len(),
        forall|i: int| 0 <= i < engines.len() && i != at ==> #[trigger] written[i] == engines[i],
        written[at].id == engines[at].id,
    ensures
        held_by(written) == held_by(engines).insert(engines[at].id@, written[at]@.bound),
        written[at].storage.wf() ==> all_wf(written),
{
    let before = views(engines);
    let after = views(written);
    let row = written[at]@;
    let id = engines[at].id@;
    assert(before[at] == engines[at]@);
    assert(after =~= before.update(at, row));
    lemma_position_is(before, at);
    lemma_upsert(before, row);
    assert(held_by(written) =~= held_by(engines).insert(id, row.bound)) by {
        assert forall|other: Seq<char>|
            held_by(written).contains_key(other) <==> held_by(engines).contains_key(other) by {
            if other != id {
                assert(lookup(after, other) == lookup(before, other));
            }
        }
        assert forall|other: Seq<char>| held_by(written).contains_key(other) implies held_by(
            written,
        )[other] == held_by(engines).insert(id, row.bound)[other] by {
            if other != id {
                assert(lookup(after, other) == lookup(before, other));
            }
        }
    }
}

impl View for SqliteDocStoragePool {
    type V = Map<Seq<char>, Bound>;

    closed spec fn view(&self) -> Map<Seq<char>, Bound> {
        held_by(self.engines@)
    }
}

impl Default for SqliteDocStoragePool {
    fn default() -> (pool: Self)
        ensures
            pool.wf(),
            pool@ == Map::<Seq<char>, Bound>::empty(),
    {
        SqliteDocStoragePool::new()
    }
}

impl SqliteDocStoragePool {
    /// What holds of every pool: no identifier has two engines, and every
    /// engine is well formed.
    pub closed spec fn wf(&self) -> bool {
        all_wf(self.engines@)
    }

    /// In a well-formed pool every engine's state is well formed.
    pub proof fn lemma_engines_wf(&self)
        requires
            self.wf(),
        ensures
            forall|id: Seq<char>| self@.contains_key(id) ==> (#[trigger] self@[id]).state.wf(),
    {
        let rows = views(self.engines@);
        assert forall|id: Seq<char>| self@.contains_key(id) implies (#[trigger] self@[id]).state.wf() by {
            let p = position(rows, id);
            assert(rows[p] == self.engines[p]@);
            assert(self.engines[p].storage.wf());
        }
    }

    /// A pool without engines.
    pub fn new() -> (pool: Self)
        ensures
            pool.wf(),
            pool@ == Map::<Seq<char>, Bound>::empty(),
    {
        let pool = SqliteDocStoragePool { engines: Vec::new() };
        proof {
            assert(pool@ =~= Map::<Seq<char>, Bound>::empty());
        }
        pool
    }

    /// Whether the workspace has an engine in the pool.
    pub fn is_connected(&self, universal_id: &String) -> (connected: bool)
        requires
            self.wf(),
        ensures
            connected == self@.contains_key(universal_id@),
    {
        find_key(&self.engines, &ForWorkspace { id: universal_id }, Ghost(universal_id@)).is_some()
    }

    /// The position of the workspace's engine, made first where the
    /// workspace has none: that engine is then bound to `path` and was never
    /// connected. An engine that is there is kept, whatever `path` says.
    fn get_or_create_storage(&mut self, universal_id: String, path: &str) -> (at: usize)
        requires
            old(self).wf(),
        ensures
            final(self).wf(),
            at < final(self).engines.len(),
            final(self).engines[at as int]@.id == universal_id@,
            final(self)@ == (if old(self)@.contains_key(universal_id@) {
                old(self)@
            } else {
                old(self)@.insert(universal_id@, Bound { path: path@, state: StoreState::fresh() })
            }),
    {
        let ghost before = views(self.engines@);
        let found = find_key(
            &self.engines,
            &ForWorkspace { id: &universal_id },
            Ghost(universal_id@),
        );
        match found {
            Some(at) => {
                proof {
                    assert(before[at as int] == self.engines[at as int]@);
                }
                at
            },
            None => {
                let storage = SqliteDocStorage::new(String::from_str(path));
                let engine = Engine { id: universal_id, storage };
                proof {
                    lemma_upsert(before, engine@);
                }
                self.engines.push(engine);
                proof {
                    let after = views(self.engines@);
                    assert(after =~= before.push(engine@));
                    lemma_position_is(after, after.len() - 1);
                    assert(self@ =~= old(self)@.insert(
                        universal_id@,
                        Bound { path: path@, state: StoreState::fresh() },
                    )) by {
                        assert forall|id: Seq<char>|
                            self@.contains_key(id) <==> (id == universal_id@ || old(
                                self,
                            )@.contains_key(id)) by {
                            if id != universal_id@ {
                                assert(lookup(after, id) == lookup(before, id));
                            }
                        }
                        assert forall|id: Seq<char>| self@.contains_key(id) && id
                            != universal_id@ implies self@[id] == old(self)@[id] by {
                            assert(lookup(after, id) == lookup(before, id));
                        }
                    }
                }
                self.engines.len() - 1
            },
        }
    }

    /// Makes the workspace's store ready. A workspace without an engine gets
    /// one, bound to `path`; a workspace that has one keeps it, and `path` is
    /// not looked at. The engine is then connected. Fails where that engine
    /// was closed, and only there; it stays in the pool as it was.
    pub fn connect(&mut self, universal_id: String, path: String) -> (result: Result<(), Error>)
        requires
            old(self).wf(),
        ensures
            final(self).wf(),
            ({
                let bound = if old(self)@.contains_key(universal_id@) {
                    old(self)@[universal_id@]
                } else {
                    Bound { path: path@, state: StoreState::fresh() }
                };
                if bound.state.closed {
                    result == Err::<(), Error>(Error::Store(StoreError::Closed)) && final(self)@
                        == old(self)@
                } else {
                    result is Ok && final(self)@ == old(self)@.insert(
                        universal_id@,
                        Bound { path: bound.path, state: bound.state.connect() },
                    )
                }
            }),
    {
        let at = self.get_or_create_storage(universal_id, path.as_str());
        let ghost before = views(self.engines@);
        let ghost held = self@;
        proof {
            lemma_position_is(before, at as int);
            assert(before[at as int] == self.engines[at as int]@);
        }
        let ghost was = before[at as int].bound;
        assert(held.contains_key(universal_id@) && held[universal_id@] == was);
        let result = self.engines[at].storage.connect();
        proof {
            let after = views(self.engines@);
            let row = self.engines[at as int]@;
            assert(row.id == universal_id@);
            assert(row.bound.path == was.path);
            if was.state.closed {
                assert(row.bound.state == was.state);
                assert(row.bound == was);
                assert(held.insert(universal_id@, row.bound) =~= held);
            } else {
                assert(row.bound.state == was.state.connect());
            }
            assert(after =~= before.update(at as int, row));
            lemma_upsert(before, row);
            assert(self@ =~= held.insert(universal_id@, row.bound)) by {
                assert forall|id: Seq<char>| self@.contains_key(id) <==> held.contains_key(id) by {
                    if id != universal_id@ {
                        assert(lookup(after, id) == lookup(before, id));
                    }
                }
                assert forall|id: Seq<char>| self@.contains_key(id) implies self@[id] == held.insert(
                    universal_id@,
                    row.bound,
                )[id] by {
                    if id != universal_id@ {
                        assert(lookup(after, id) == lookup(before, id));
                    }
                }
            }
        }
        result
    }

    /// Removes the workspace's engine from the pool and closes it. Without
    /// such an engine nothing changes. Never fails.
    pub fn disconnect(&mut self, universal_id: String) -> (result: Result<(), Error>)
        requires
            old(self).wf(),
        ensures
            final(self).wf(),
            result is Ok,
            final(self)@ == old(self)@.remove(universal_id@),
    {
        let ghost before = views(self.engines@);
        let found = find_key(
            &self.engines,
            &ForWorkspace { id: &universal_id },
            Ghost(universal_id@),
        );
        match found {
            Some(at) => {
                let mut engine = self.engines.remove(at);
                engine.storage.close();
                proof {
                    let after = views(self.engines@);
                    assert(after =~= before.remove(at as int));
                    assert forall|i: int| 0 <= i < after.len() implies #[trigger] after[i]
                        == before[if i < at {
                        i
                    } else {
                        i + 1
                    }] by {}
                    assert(distinct_keys(after)) by {
                        assert forall|i: int, j: int| 0 <= i < j < after.len() implies (
                        #[trigger] after[i]).key() != (#[trigger] after[j]).key() by {
                            let i0 = if i < at {
                                i
                            } else {
                                i + 1
                            };
                            let j0 = if j < at {
                                j
                            } else {
                                j + 1
                            };
                            assert(before[i0].key() != before[j0].key());
                        }
                    }
                    assert(self@ =~= old(self)@.remove(universal_id@)) by {
                        assert forall|id: Seq<char>|
                            self@.contains_key(id) <==> (id != universal_id@ && old(
                                self,
                            )@.contains_key(id)) by {
                            if has_key(after, id) {
                                let p = position(after, id);
                                let p0 = if p < at {
                                    p
                                } else {
                                    p + 1
                                };
                                assert(before[p0].key() == id);
                                lemma_position_is(before, p0);
                                lemma_position_is(before, at as int);
                            }
                            if id != universal_id@ && has_key(before, id) {
                                let q = position(before, id);
                                let q1 = if q < at {
                                    q
                                } else {
                                    q - 1
                                };
                                assert(after[q1].key() == id);
                            }
                        }
                        assert forall|id: Seq<char>| self@.contains_key(id) implies self@[id] == old(
                            self,
                        )@[id] by {
                            let p = position(after, id);
                            let p0 = if p < at {
                                p
                            } else {
                                p + 1
                            };
                            assert(before[p0].key() == id);
                            lemma_position_is(before, p0);
                        }
                    }
                }
            },
            None => {
                proof {
                    assert(self@ =~= old(self)@.remove(universal_id@));
                }
            },
        }
        Ok(())
    }

    /// The workspace's engine. Fails with `InvalidOperation` where the
    /// workspace has no engine in the pool, and only there.
    pub fn get(&self, universal_id: String) -> (result: Result<&SqliteDocStorage, Error>)
        requires
            self.wf(),
        ensures
            match result {
                Ok(storage) => self@.contains_key(universal_id@) && storage.wf() && storage@
                    == self@[universal_id@].state && storage.spec_path()
                    == self@[universal_id@].path,
                Err(error) => !self@.contains_key(universal_id@) && error
                    == Error::InvalidOperation,
            },
    {
        let found = find_key(
            &self.engines,
            &ForWorkspace { id: &universal_id },
            Ghost(universal_id@),
        );
        match found {
            Some(at) => {
                proof {
                    assert(views(self.engines@)[at as int] == self.engines[at as int]@);
                }
                Ok(&self.engines[at].storage)
            },
            None => Err(Error::InvalidOperation),
        }
    }

    /// The workspace's engine, to be written to. What the caller makes of the
    /// engine is what the pool then holds for the workspace. Fails with
    /// `InvalidOperation` where the workspace has no engine in the pool, and
    /// only there.
    pub fn get_mut(&mut self, universal_id: String) -> (result: Result<
        &mut SqliteDocStorage,
        Error,
    >)
        requires
            old(self).wf(),
        ensures
            match result {
                Ok(storage) => old(self)@.contains_key(universal_id@) && storage.wf() && storage@
                    == old(self)@[universal_id@].state && storage.spec_path() == old(
                    self,
                )@[universal_id@].path,
                Err(error) => !old(self)@.contains_key(universal_id@) && error
                    == Error::InvalidOperation && final(self)@ == old(self)@ && final(self).wf(),
            },
            match result {
                Ok(storage) => final(self)@ == old(self)@.insert(
                    universal_id@,
                    Bound { path: final(storage).spec_path(), state: final(storage)@ },
                ),
                Err(_) => true,
            },
            match result {
                Ok(storage) => final(storage).wf() ==> final(self).wf(),
                Err(_) => true,
            },
    {
        let found = find_key(
            &self.engines,
            &ForWorkspace { id: &universal_id },
            Ghost(universal_id@),
        );
        match found {
            Some(at) => {
                let ghost before = self.engines@;
                proof {
                    assert(views(before)[at as int] == before[at as int]@);
                    assert forall|written: Seq<Engine>|
                        written.len() == before.len() && written[at as int].id == before[at as int].id
                            && (forall|i: int|
                            0 <= i < before.len() && i != at ==> #[trigger] written[i]
                                == before[i]) implies #[trigger] held_by(written) == held_by(
                        before,
                    ).insert(universal_id@, written[at as int]@.bound) by {
                        lemma_engine_written(before, at as int, written);
                    }
                    assert forall|written: Seq<Engine>|
                        written.len() == before.len() && written[at as int].id == before[at as int].id
                            && written[at as int].storage.wf() && (forall|i: int|
                            0 <= i < before.len() && i != at ==> #[trigger] written[i]
                                == before[i]) implies #[trigger] all_wf(written) by {
                        lemma_engine_written(before, at as int, written);
                    }
                }
                Ok(&mut self.engines[at].storage)
            },
            None => Err(Error::InvalidOperation),
        }
    }
}

} // verus!
