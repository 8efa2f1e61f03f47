//! A secret store kept in one JSON file: an object from keys to values,
//! read once into a cache and written back whole after every change.
use vstd::prelude::*;
use vstd::string::StringExecFns;
use crate::contracts::errors::{detailed_error, plain_error, AppErrorCode, AppErrorDto};
use crate::json::{json_pretty_object, json_string_map_entries, json_error_text, parse_json_string_map, write_json_string_map};
use crate::text::str_eq;
use crate::pairs::{distinct_keys, lemma_pairs_map_absent, lemma_pairs_map_at, lemma_pairs_map_remove, lemma_pairs_map_update, pairs_map, Pairs};

verus! {

/// The outcome of reading the secret file.
#[derive(Clone, Debug)]
pub enum SecretFileRead {
    /// There is no file yet.
    Missing,
    /// Reading failed; the text of the error.
    Failed(String),
    /// The file's content.
    Content(String),
}

/// The pairs that a read outcome yields, or `None` where loading fails.
pub open spec fn read_pairs(read: SecretFileRead) -> Option<Pairs> {
    match read {
        SecretFileRead::Missing => Some(Seq::empty()),
        SecretFileRead::Failed(_) => None,
        SecretFileRead::Content(text) => json_string_map_entries(text@),
    }
}

/// `e` is the error of a load that failed: reading the file failed (with
/// the text of that error as details), or its content is not a JSON object
/// of strings.
pub open spec fn load_error(read: SecretFileRead, e: AppErrorDto) -> bool {
    match read {
        SecretFileRead::Failed(d) => detailed_error(
            e,
            AppErrorCode::SecretStoreError,
            "Failed to read local secret file"@,
            d@,
            false,
        ),
        _ => e.code == AppErrorCode::SecretStoreError && e.message@ == "Failed to parse local secret file"@
            && e.details is Some && !e.retryable,
    }
}

/// The file text `text`, read back, gives the secrets `m`.
pub open spec fn file_text_holds(text: Seq<char>, m: Map<Seq<char>, Seq<char>>) -> bool {
    json_string_map_entries(text) matches Some(es) && pairs_map(es) == m
}

/// A change to the cached secrets.
#[derive(Clone, Debug)]
pub enum SecretChange {
    Insert(String, String),
    Remove(String),
}

pub open spec fn apply_change(m: Map<Seq<char>, Seq<char>>, change: SecretChange) -> Map<Seq<char>, Seq<char>> {
    match change {
        SecretChange::Insert(k, v) => m.insert(k@, v@),
        SecretChange::Remove(k) => m.remove(k@),
    }
}

/// The file-backed store: where the file is, whether it has been read, and
/// the cached pairs.
pub struct FileSecretStore {
    file_path: String,
    loaded: bool,
    values: Vec<(String, String)>,
}

impl FileSecretStore {
    /// The cached pairs, in the order in which they are written out.
    pub closed spec fn entries(&self) -> Pairs {
        self.values.deep_view()
    }

    /// The cached secrets.
    pub open spec fn cached(&self) -> Map<Seq<char>, Seq<char>> {
        pairs_map(self.entries())
    }

    pub closed spec fn loaded_spec(&self) -> bool {
        self.loaded
    }

    pub closed spec fn path_spec(&self) -> Seq<char> {
        self.file_path@
    }

    /// The cache never holds a key twice.
    pub open spec fn wf(&self) -> bool {
        distinct_keys(self.entries())
    }

    /// The map a load gives, or `None` where it fails: what is cached if the
    /// file was read before, else what the read yields.
    pub open spec fn base_after_load(&self, read: SecretFileRead) -> Option<Map<Seq<char>, Seq<char>>> {
        if self.loaded_spec() {
            Some(self.cached())
        } else {
            match read_pairs(read) {
                Some(es) => Some(pairs_map(es)),
                None => None,
            }
        }
    }

    pub fn new(file_path: String) -> (r: Self)
        ensures
            r.wf(),
            !r.loaded_spec(),
            r.cached() == Map::<Seq<char>, Seq<char>>::empty(),
            r.path_spec() == file_path@,
    {
        FileSecretStore { file_path, loaded: false, values: Vec::new() }
    }

    pub fn file_path(&self) -> (r: &str)
        ensures
            r@ == self.path_spec(),
    {
        self.file_path.as_str()
    }

    pub fn is_loaded(&self) -> (r: bool)
        ensures
            r == self.loaded_spec(),
    {
        self.loaded
    }

    /// The pairs in the file, from the outcome of reading it: none where
    /// there is no file, an error where reading or parsing fails.
    pub fn load_all(read: SecretFileRead) -> (r: Result<Vec<(String, String)>, AppErrorDto>)
        ensures
            match read_pairs(read) {
                Some(es) => r matches Ok(v) && v.deep_view() == es,
                None => r matches Err(e) && load_error(read, e),
            },
    {
        match read {
            SecretFileRead::Missing => {
                let v: Vec<(String, String)> = Vec::new();
                assert(v.deep_view() =~= Seq::<(Seq<char>, Seq<char>)>::empty());
                Ok(v)
            },
            SecretFileRead::Failed(details) => Err(
                AppErrorDto::with_details(
                    AppErrorCode::SecretStoreError,
                    "Failed to read local secret file",
                    details.as_str(),
                    false,
                ),
            ),
            SecretFileRead::Content(text) => match parse_json_string_map(text.as_str()) {
                Ok(entries) => Ok(entries),
                Err(error) => {
                    let details = json_error_text(&error);
                    Err(
                        AppErrorDto::with_details(
                            AppErrorCode::SecretStoreError,
                            "Failed to parse local secret file",
                            details.as_str(),
                            false,
                        ),
                    )
                },
            },
        }
    }

    /// Position of `key` among the cached pairs.
    fn find(&self, key: &str) -> (r: Option<usize>)
        requires
            self.wf(),
        ensures
            match r {
                Some(i) => i < self.entries().len() && self.entries()[i as int].0 == key@,
                None => forall|i: int| 0 <= i < self.entries().len() ==> #[trigger] self.entries()[i].0 != key@,
            },
    {
        let n = self.values.len();
        let mut i: usize = 0;
        while i < n
            invariant
                n == self.values.len(),
                n == self.entries().len(),
                i <= n,
                forall|j: int| 0 <= j < i ==> #[trigger] self.entries()[j].0 != key@,
            decreases n - i,
        {
            assert(self.entries()[i as int].0 == self.values[i as int].0@);
            if str_eq(self.values[i].0.as_str(), key) {
                return Some(i);
            }
            i = i + 1;
        }
        None
    }

    /// Adds `value` under `key`, replacing what was there.
    fn insert_pair(&mut self, key: String, value: String)
        requires
            old(self).wf(),
        ensures
            final(self).wf(),
            final(self).cached() == old(self).cached().insert(key@, value@),
            final(self).loaded_spec() == old(self).loaded_spec(),
            final(self).path_spec() == old(self).path_spec(),
    {
        let ghost old_es = self.entries();
        match self.find(key.as_str()) {
            Some(i) => {
                let ghost k = key@;
                self.values.set(i, (key, value));
                proof {
                    assert(self.entries() =~= old_es.update(i as int, (k, value@)));
                    lemma_pairs_map_update(old_es, i as int, value@);
                }
            },
            None => {
                let ghost k = key@;
                self.values.push((key, value));
                proof {
                    assert(self.entries() =~= old_es.push((k, value@)));
                    assert(self.entries().drop_last() =~= old_es);
                }
            },
        }
    }

    /// Drops the pair of `key`, if any.
    fn remove_pair(&mut self, key: &str)
        requires
            old(self).wf(),
        ensures
            final(self).wf(),
            final(self).cached() == old(self).cached().remove(key@),
            final(self).loaded_spec() == old(self).loaded_spec(),
            final(self).path_spec() == old(self).path_spec(),
    {
        let ghost old_es = self.entries();
        match self.find(key) {
            Some(i) => {
                self.values.remove(i);
                proof {
                    assert(self.entries() =~= old_es.remove(i as int));
                    lemma_pairs_map_remove(old_es, i as int);
                }
            },
            None => {
                proof {
                    lemma_pairs_map_absent(old_es, key@);
                    assert(old_es.len() == 0 || old_es.last().0 != key@);
                    assert(pairs_map(old_es).remove(key@) =~= pairs_map(old_es));
                }
            },
        }
    }

    /// Reads the file into the cache unless that was done before; `read` is
    /// the outcome of reading the file and is consulted only then.  A failed
    /// load leaves the store as it was.
    pub fn ensure_cache_loaded(&mut self, read: SecretFileRead) -> (r: Result<(), AppErrorDto>)
        requires
            old(self).wf(),
        ensures
            final(self).wf(),
            final(self).path_spec() == old(self).path_spec(),
            match old(self).base_after_load(read) {
                Some(m) => r is Ok && final(self).loaded_spec() && final(self).cached() == m,
                None => r matches Err(e) && load_error(read, e) && final(self).loaded_spec() == old(self).loaded_spec()
                    && final(self).cached() == old(self).cached(),
            },
            old(self).loaded_spec() ==> final(self).entries() == old(self).entries(),
    {
        if self.loaded {
            return Ok(());
        }
        let entries = Self::load_all(read)?;
        let ghost es = entries.deep_view();
        self.values = Vec::new();
        assert(self.entries() =~= Seq::<(Seq<char>, Seq<char>)>::empty());
        let n = entries.len();
        let mut i: usize = 0;
        assert(es.subrange(0, 0) =~= Seq::<(Seq<char>, Seq<char>)>::empty());
        while i < n
            invariant
                n == entries.len(),
                es == entries.deep_view(),
                i <= n,
                self.wf(),
                self.cached() == pairs_map(es.subrange(0, i as int)),
                self.path_spec() == old(self).path_spec(),
                !self.loaded_spec(),
            decreases n - i,
        {
            let pair = &entries[i];
            let key = pair.0.clone();
            let value = pair.1.clone();
            self.insert_pair(key, value);
            proof {
                assert(es.subrange(0, i + 1).drop_last() =~= es.subrange(0, i as int));
                assert(es[i as int] == (entries[i as int].0@, entries[i as int].1@));
            }
            i = i + 1;
        }
        assert(es.subrange(0, n as int) =~= es);
        self.loaded = true;
        Ok(())
    }

    /// The cached value of `key`, after loading the file if needed.
    pub fn read_cached_value(&mut self, key: &str, read: SecretFileRead) -> (r: Result<Option<String>, AppErrorDto>)
        requires
            old(self).wf(),
        ensures
            final(self).wf(),
            final(self).path_spec() == old(self).path_spec(),
            match old(self).base_after_load(read) {
                Some(m) => final(self).loaded_spec() && final(self).cached() == m && (r matches Ok(v) && (
                    if m.dom().contains(key@) {
                        v matches Some(s) && s@ == m[key@]
                    } else {
                        v is None
                    })),
                None => r matches Err(e) && load_error(read, e) && final(self).cached() == old(self).cached()
                    && final(self).loaded_spec() == old(self).loaded_spec(),
            },
    {
        self.ensure_cache_loaded(read)?;
        match self.find(key) {
            Some(i) => {
                proof {
                    lemma_pairs_map_at(self.entries(), i as int);
                }
                Ok(Some(self.values[i].1.clone()))
            },
            None => {
                proof {
                    lemma_pairs_map_absent(self.entries(), key@);
                }
                Ok(None)
            },
        }
    }

    /// The text of the file for the cached pairs.
    pub fn serialized(&self) -> (r: Result<String, AppErrorDto>)
        ensures
            r matches Ok(s) && s@ == json_pretty_object(self.entries()) && file_text_holds(s@, self.cached()),
    {
        match write_json_string_map(&self.values) {
            Ok(text) => Ok(text),
            Err(error) => {
                let details = json_error_text(&error);
                Err(
                    AppErrorDto::with_details(
                        AppErrorCode::SecretStoreError,
                        "Failed to serialize local secret file",
                        details.as_str(),
                        false,
                    ),
                )
            },
        }
    }

    /// Applies a change to the cache, after loading the file if needed.  A
    /// failed load is the outer error: nothing changes and nothing is to be
    /// written.  Otherwise the inner result is what to write back: the text
    /// of the file, or the error of serializing it (the cache keeps the
    /// change either way).
    pub fn update_cached_values(&mut self, change: SecretChange, read: SecretFileRead) -> (r: Result<Result<String, AppErrorDto>, AppErrorDto>)
        requires
            old(self).wf(),
        ensures
            final(self).wf(),
            final(self).path_spec() == old(self).path_spec(),
            match old(self).base_after_load(read) {
                Some(m) => final(self).loaded_spec() && final(self).cached() == apply_change(m, change)
                    && (r matches Ok(w) && w matches Ok(s) && s@ == json_pretty_object(final(self).entries())
                    && file_text_holds(s@, final(self).cached())),
                None => r matches Err(e) && load_error(read, e) && final(self).cached() == old(self).cached()
                    && final(self).loaded_spec() == old(self).loaded_spec(),
            },
    {
        self.ensure_cache_loaded(read)?;
        match change {
            SecretChange::Insert(key, value) => self.insert_pair(key, value),
            SecretChange::Remove(key) => self.remove_pair(key.as_str()),
        }
        Ok(self.serialized())
    }

    /// Stores `value` under `key`; see `update_cached_values` for the result.
    pub fn set_secret(&mut self, key: &str, value: &str, read: SecretFileRead) -> (r: Result<Result<String, AppErrorDto>, AppErrorDto>)
        requires
            old(self).wf(),
        ensures
            final(self).wf(),
            final(self).path_spec() == old(self).path_spec(),
            match old(self).base_after_load(read) {
                Some(m) => final(self).loaded_spec() && final(self).cached() == m.insert(key@, value@)
                    && (r matches Ok(w) && w matches Ok(s) && s@ == json_pretty_object(final(self).entries())
                    && file_text_holds(s@, final(self).cached())),
                None => r matches Err(e) && load_error(read, e) && final(self).cached() == old(self).cached()
                    && final(self).loaded_spec() == old(self).loaded_spec(),
            },
    {
        self.update_cached_values(SecretChange::Insert(String::from_str(key), String::from_str(value)), read)
    }

    /// Drops the secret under `key`; see `update_cached_values` for the result.
    pub fn delete_secret(&mut self, key: &str, read: SecretFileRead) -> (r: Result<Result<String, AppErrorDto>, AppErrorDto>)
        requires
            old(self).wf(),
        ensures
            final(self).wf(),
            final(self).path_spec() == old(self).path_spec(),
            match old(self).base_after_load(read) {
                Some(m) => final(self).loaded_spec() && final(self).cached() == m.remove(key@)
                    && (r matches Ok(w) && w matches Ok(s) && s@ == json_pretty_object(final(self).entries())
                    && file_text_holds(s@, final(self).cached())),
                None => r matches Err(e) && load_error(read, e) && final(self).cached() == old(self).cached()
                    && final(self).loaded_spec() == old(self).loaded_spec(),
            },
    {
        self.update_cached_values(SecretChange::Remove(String::from_str(key)), read)
    }

    /// The secret stored under `key`; `SecretNotFound` where there is none.
    pub fn get_secret(&mut self, key: &str, read: SecretFileRead) -> (r: Result<String, AppErrorDto>)
        requires
            old(self).wf(),
        ensures
            final(self).wf(),
            final(self).path_spec() == old(self).path_spec(),
            match old(self).base_after_load(read) {
                Some(m) => final(self).loaded_spec() && final(self).cached() == m && (if m.dom().contains(key@) {
                    r matches Ok(s) && s@ == m[key@]
                } else {
                    r matches Err(e) && plain_error(e, AppErrorCode::SecretNotFound, "Secret not found"@, false)
                }),
                None => r matches Err(e) && load_error(read, e) && final(self).cached() == old(self).cached()
                    && final(self).loaded_spec() == old(self).loaded_spec(),
            },
    {
        match self.read_cached_value(key, read)? {
            Some(value) => Ok(value),
            None => Err(AppErrorDto::new(AppErrorCode::SecretNotFound, "Secret not found", false)),
        }
    }
}

/// Error for a failure to create the directory of the secret file.
pub fn secret_file_prepare_error(details: &str) -> (r: AppErrorDto)
    ensures
        detailed_error(r, AppErrorCode::SecretStoreError, "Failed to prepare local secret file"@, details@, false),
{
    AppErrorDto::with_details(AppErrorCode::SecretStoreError, "Failed to prepare local secret file", details, false)
}

/// Error for a failure to write the secret file.
pub fn secret_file_write_error(details: &str) -> (r: AppErrorDto)
    ensures
        detailed_error(r, AppErrorCode::SecretStoreError, "Failed to write local secret file"@, details@, false),
{
    AppErrorDto::with_details(AppErrorCode::SecretStoreError, "Failed to write local secret file", details, false)
}


/// Once the file has been read, the store answers from its cache, whatever
/// the file holds by then.
pub proof fn law_loaded_store_keeps_cache(store: FileSecretStore, read: SecretFileRead)
    requires
        store.loaded_spec(),
    ensures
        store.base_after_load(read) == Some(store.cached()),
{
}

/// A secret read after it was stored gives back the stored value: after a
/// `set_secret` that loaded the store (the store before, `before`, and
/// after, `after`, as `set_secret` relates them), a `get_secret` of the
/// same key finds the value, whatever the file holds then.
pub proof fn law_read_after_set(
    before: FileSecretStore,
    after: FileSecretStore,
    key: Seq<char>,
    value: Seq<char>,
    set_read: SecretFileRead,
    get_read: SecretFileRead,
)
    requires
        before.base_after_load(set_read) matches Some(m) && after.cached() == m.insert(key, value),
        after.loaded_spec(),
    ensures
        after.base_after_load(get_read) matches Some(m2) && m2.dom().contains(key) && m2[key] == value,
{
}

/// A secret read after it was deleted is not found, whatever the file
/// holds then.
pub proof fn law_read_after_delete(
    before: FileSecretStore,
    after: FileSecretStore,
    key: Seq<char>,
    delete_read: SecretFileRead,
    get_read: SecretFileRead,
)
    requires
        before.base_after_load(delete_read) matches Some(m) && after.cached() == m.remove(key),
        after.loaded_spec(),
    ensures
        after.base_after_load(get_read) matches Some(m2) && !m2.dom().contains(key),
{
}

/// Storing or deleting one secret leaves every other secret as it was.
pub proof fn law_other_secrets_unchanged(m: Map<Seq<char>, Seq<char>>, change: SecretChange, other: Seq<char>)
    requires
        match change {
            SecretChange::Insert(k, _) => k@ != other,
            SecretChange::Remove(k) => k@ != other,
        },
    ensures
        apply_change(m, change).dom().contains(other) == m.dom().contains(other),
        m.dom().contains(other) ==> apply_change(m, change)[other] == m[other],
{
}


/// The file written back is what a store that has not read it yet loads:
/// reading the text that `set_secret` or `delete_secret` handed back gives
/// that store the cache of the store that wrote it.
pub proof fn law_written_file_reloads(writer: FileSecretStore, text: String, fresh: FileSecretStore)
    requires
        file_text_holds(text@, writer.cached()),
        !fresh.loaded_spec(),
    ensures
        fresh.base_after_load(SecretFileRead::Content(text)) == Some(writer.cached()),
{
}

/// A stored secret persists: once the text handed back by a `set_secret`
/// of `key` is in the file, a new store (such as `FileSecretStore::new`
/// gives) finds `value` under `key`.
pub proof fn law_set_secret_persists(
    before: FileSecretStore,
    after: FileSecretStore,
    key: Seq<char>,
    value: Seq<char>,
    set_read: SecretFileRead,
    written: String,
    fresh: FileSecretStore,
)
    requires
        before.base_after_load(set_read) matches Some(m) && after.cached() == m.insert(key, value),
        file_text_holds(written@, after.cached()),
        !fresh.loaded_spec(),
    ensures
        fresh.base_after_load(SecretFileRead::Content(written)) matches Some(m2) && m2.dom().contains(key)
            && m2[key] == value,
{
}

/// A deleted secret stays deleted in the file: a new store that reads the
/// text handed back by a `delete_secret` of `key` does not find it.
pub proof fn law_delete_secret_persists(
    before: FileSecretStore,
    after: FileSecretStore,
    key: Seq<char>,
    delete_read: SecretFileRead,
    written: String,
    fresh: FileSecretStore,
)
    requires
        before.base_after_load(delete_read) matches Some(m) && after.cached() == m.remove(key),
        file_text_holds(written@, after.cached()),
        !fresh.loaded_spec(),
    ensures
        fresh.base_after_load(SecretFileRead::Content(written)) matches Some(m2) && !m2.dom().contains(key),
{
}

} // verus!
