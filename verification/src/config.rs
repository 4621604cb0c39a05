//! Identities and the store that keeps them under their keys.

use vstd::prelude::*;
use vstd::string::*;
use crate::error::{Error, ErrorModel};
use crate::host::{text_of, Reply, ReplyModel, Request, RequestModel, Step, StepModel};
use crate::model::Model;
use crate::path::{child_of, FsPath, PartModel};
use crate::text::same_text;

verus! {

/// An identity: who git says the author is.
#[derive(Debug, PartialEq, Eq)]
pub struct GitProfile {
    pub name: String,
    pub email: String,
    pub signing_key: Option<String>,
}

/// What a [`GitProfile`] stands for.
pub struct ProfileModel {
    pub name: Seq<char>,
    pub email: Seq<char>,
    pub signing_key: Option<Seq<char>>,
}

impl Model for GitProfile {
    type M = ProfileModel;

    open spec fn model(&self) -> ProfileModel {
        ProfileModel {
            name: self.name@,
            email: self.email@,
            signing_key: self.signing_key.model(),
        }
    }
}

impl Clone for GitProfile {
    fn clone(&self) -> (r: Self)
        ensures
            r.model() == self.model(),
    {
        let signing_key = match &self.signing_key {
            Some(k) => Some(k.clone()),
            None => None,
        };
        GitProfile { name: self.name.clone(), email: self.email.clone(), signing_key }
    }
}

/// The mapping that a list of keys and a list of values, taken pair by
/// pair, spell out.
spec fn table(keys: Seq<Seq<char>>, values: Seq<ProfileModel>) -> Map<
    Seq<char>,
    ProfileModel,
> {
    Map::new(|k: Seq<char>| keys.contains(k), |k: Seq<char>| values[keys.index_of(k)])
}

proof fn lemma_table_at(keys: Seq<Seq<char>>, values: Seq<ProfileModel>, i: int)
    requires
        keys.len() == values.len(),
        keys.no_duplicates(),
        0 <= i < keys.len(),
    ensures
        table(keys, values).dom().contains(keys[i]),
        table(keys, values)[keys[i]] == values[i],
{
    assert(keys.contains(keys[i]));
    assert(keys.index_of(keys[i]) == i);
}

proof fn lemma_table_push(
    keys: Seq<Seq<char>>,
    values: Seq<ProfileModel>,
    k: Seq<char>,
    v: ProfileModel,
)
    requires
        keys.len() == values.len(),
        keys.no_duplicates(),
        !keys.contains(k),
    ensures
        keys.push(k).no_duplicates(),
        table(keys.push(k), values.push(v)) == table(keys, values).insert(k, v),
{
    let keys2 = keys.push(k);
    let values2 = values.push(v);
    assert(keys2.no_duplicates()) by {
        assert forall|i: int, j: int|
            0 <= i < keys2.len() && 0 <= j < keys2.len() && i != j implies keys2[i] != keys2[j] by {
            if i < keys.len() && j < keys.len() {
            } else if i < keys.len() {
                assert(keys.contains(keys[i]));
            } else {
                assert(keys.contains(keys[j]));
            }
        }
    }
    let a = table(keys2, values2);
    let b = table(keys, values).insert(k, v);
    assert forall|x: Seq<char>| a.dom().contains(x) == b.dom().contains(x) by {
        if keys2.contains(x) {
            let i = keys2.index_of(x);
            if i < keys.len() {
                assert(keys[i] == x);
            }
        }
        if keys.contains(x) {
            let i = keys.index_of(x);
            assert(keys2[i] == x);
        }
        if x == k {
            assert(keys2[keys.len() as int] == x);
        }
    }
    assert forall|x: Seq<char>| a.dom().contains(x) implies a[x] == b[x] by {
        let i = keys2.index_of(x);
        lemma_table_at(keys2, values2, i);
        if i < keys.len() {
            lemma_table_at(keys, values, i);
            assert(keys[i] == x);
        }
    }
    assert(a =~= b);
}

proof fn lemma_table_remove(keys: Seq<Seq<char>>, values: Seq<ProfileModel>, i: int)
    requires
        keys.len() == values.len(),
        keys.no_duplicates(),
        0 <= i < keys.len(),
    ensures
        keys.remove(i).no_duplicates(),
        !keys.remove(i).contains(keys[i]),
        table(keys.remove(i), values.remove(i)) == table(keys, values).remove(keys[i]),
{
    let keys2 = keys.remove(i);
    let values2 = values.remove(i);
    assert forall|a: int| 0 <= a < keys2.len() implies keys2[a] == keys[if a < i {
        a
    } else {
        a + 1
    }] by {}
    assert(keys2.no_duplicates());
    assert(!keys2.contains(keys[i]));
    let m1 = table(keys2, values2);
    let m2 = table(keys, values).remove(keys[i]);
    assert forall|x: Seq<char>| m1.dom().contains(x) == m2.dom().contains(x) by {
        if keys2.contains(x) {
            let a = keys2.index_of(x);
            assert(keys[if a < i {
                a
            } else {
                a + 1
            }] == x);
        }
        if keys.contains(x) && x != keys[i] {
            let b = keys.index_of(x);
            assert(keys2[if b < i {
                b
            } else {
                b - 1
            }] == x);
        }
    }
    assert forall|x: Seq<char>| m1.dom().contains(x) implies m1[x] == m2[x] by {
        let a = keys2.index_of(x);
        lemma_table_at(keys2, values2, a);
        let b = if a < i {
            a
        } else {
            a + 1
        };
        lemma_table_at(keys, values, b);
    }
    assert(m1 =~= m2);
}

proof fn lemma_table_len(keys: Seq<Seq<char>>, values: Seq<ProfileModel>)
    requires
        keys.len() == values.len(),
        keys.no_duplicates(),
    ensures
        table(keys, values).dom().finite(),
        table(keys, values).dom().len() == keys.len(),
{
    assert(table(keys, values).dom() =~= keys.to_set());
    vstd::seq_lib::seq_to_set_is_finite(keys);
    keys.unique_seq_to_set();
}

/// An identity under its key.
#[derive(Debug)]
struct Entry {
    key: String,
    profile: GitProfile,
}

spec fn keys_in(entries: Seq<Entry>) -> Seq<Seq<char>> {
    Seq::new(entries.len(), |i: int| entries[i].key@)
}

spec fn values_in(entries: Seq<Entry>) -> Seq<ProfileModel> {
    Seq::new(entries.len(), |i: int| entries[i].profile.model())
}

/// Identities, each under a key of its own.
#[derive(Debug)]
pub struct Profiles {
    entries: Vec<Entry>,
}

impl Profiles {
    closed spec fn held_keys(&self) -> Seq<Seq<char>> {
        keys_in(self.entries@)
    }

    closed spec fn held_values(&self) -> Seq<ProfileModel> {
        values_in(self.entries@)
    }

    /// No key is held twice.
    #[verifier::type_invariant]
    closed spec fn unique(&self) -> bool {
        self.held_keys().no_duplicates()
    }

    /// No identities.
    pub fn new() -> (r: Profiles)
        ensures
            r.model() == Map::<Seq<char>, ProfileModel>::empty(),
    {
        let r = Profiles { entries: Vec::new() };
        assert(r.model() =~= Map::<Seq<char>, ProfileModel>::empty());
        r
    }

    /// The number of identities.
    pub fn len(&self) -> (n: usize)
        ensures
            self.model().dom().finite(),
            n == self.model().len(),
    {
        proof {
            use_type_invariant(self);
            lemma_table_len(self.held_keys(), self.held_values());
        }
        self.entries.len()
    }

    /// Whether there is no identity.
    pub fn is_empty(&self) -> (r: bool)
        ensures
            r == forall|key: Seq<char>| !self.model().dom().contains(key),
    {
        proof {
            use_type_invariant(self);
            if self.entries@.len() > 0 {
                lemma_table_at(self.held_keys(), self.held_values(), 0);
                assert(self.model().dom().contains(self.held_keys()[0]));
            } else {
                assert(self.held_keys().len() == 0);
                assert(forall|key: Seq<char>| !self.held_keys().contains(key));
                assert(forall|key: Seq<char>| !self.model().dom().contains(key));
            }
        }
        self.entries.len() == 0
    }

    fn position(&self, key: &str) -> (r: Option<usize>)
        ensures
            match r {
                Some(i) => i < self.held_keys().len() && self.held_keys()[i as int] == key@,
                None => !self.held_keys().contains(key@),
            },
    {
        let n = self.entries.len();
        let mut i: usize = 0;
        while i < n
            invariant
                i <= n,
                n == self.entries.len(),
                forall|k: int| 0 <= k < i ==> self.held_keys()[k] != key@,
            decreases n - i,
        {
            if same_text(self.entries[i].key.as_str(), key) {
                return Some(i);
            }
            i = i + 1;
        }
        None
    }

    /// Whether an identity is kept under `key`.
    pub fn contains_key(&self, key: &str) -> (r: bool)
        ensures
            r == self.model().dom().contains(key@),
    {
        self.position(key).is_some()
    }

    /// The identity kept under `key`, if there is one.
    pub fn get(&self, key: &str) -> (r: Option<&GitProfile>)
        ensures
            r.model() == if self.model().dom().contains(key@) {
                Some(self.model()[key@])
            } else {
                None
            },
    {
        match self.position(key) {
            Some(i) => {
                proof {
                    use_type_invariant(self);
                    lemma_table_at(self.held_keys(), self.held_values(), i as int);
                }
                Some(&self.entries[i].profile)
            },
            None => None,
        }
    }

    /// Keeps `profile` under `key`, in place of what was kept there.
    pub fn insert(&mut self, key: String, profile: GitProfile)
        ensures
            final(self).model() == old(self).model().insert(key@, profile.model()),
    {
        proof {
            use_type_invariant(&*self);
        }
        let ghost keys0 = self.held_keys();
        let ghost values0 = self.held_values();
        let found = self.position(key.as_str());
        let mut entries: Vec<Entry> = Vec::new();
        std::mem::swap(&mut self.entries, &mut entries);
        match found {
            Some(i) => {
                proof {
                    lemma_table_remove(keys0, values0, i as int);
                }
                entries.remove(i);
                assert(keys_in(entries@) =~= keys0.remove(i as int));
                assert(values_in(entries@) =~= values0.remove(i as int));
            },
            None => {},
        }
        let ghost keys1 = keys_in(entries@);
        let ghost values1 = values_in(entries@);
        proof {
            lemma_table_push(keys1, values1, key@, profile.model());
        }
        entries.push(Entry { key, profile });
        assert(keys_in(entries@) =~= keys1.push(key@));
        assert(values_in(entries@) =~= values1.push(profile.model()));
        assert(table(keys0, values0).insert(key@, profile.model()) =~= table(
            keys1,
            values1,
        ).insert(key@, profile.model()));
        std::mem::swap(&mut self.entries, &mut entries);
    }

    /// Drops what is kept under `key`, and says whether anything was.
    pub fn remove(&mut self, key: &str) -> (removed: bool)
        ensures
            removed == old(self).model().dom().contains(key@),
            final(self).model() == old(self).model().remove(key@),
    {
        proof {
            use_type_invariant(&*self);
        }
        let ghost keys0 = self.held_keys();
        let ghost values0 = self.held_values();
        match self.position(key) {
            Some(i) => {
                proof {
                    lemma_table_remove(keys0, values0, i as int);
                    lemma_table_at(keys0, values0, i as int);
                }
                let mut entries: Vec<Entry> = Vec::new();
                std::mem::swap(&mut self.entries, &mut entries);
                entries.remove(i);
                assert(keys_in(entries@) =~= keys0.remove(i as int));
                assert(values_in(entries@) =~= values0.remove(i as int));
                std::mem::swap(&mut self.entries, &mut entries);
                true
            },
            None => {
                assert(table(keys0, values0).remove(key@) =~= table(keys0, values0));
                false
            },
        }
    }

    /// The keys, each once.
    pub fn keys(&self) -> (r: Vec<String>)
        ensures
            r.model().no_duplicates(),
            r.model().to_set() == self.model().dom(),
    {
        proof {
            use_type_invariant(self);
        }
        let mut r: Vec<String> = Vec::new();
        let n = self.entries.len();
        let mut i: usize = 0;
        while i < n
            invariant
                i <= n,
                n == self.entries.len(),
                r.model() == self.held_keys().take(i as int),
            decreases n - i,
        {
            let ghost before = r.model();
            r.push(self.entries[i].key.clone());
            assert(r.model() =~= before.push(self.held_keys()[i as int]));
            assert(self.held_keys().take(i + 1) =~= self.held_keys().take(i as int).push(
                self.held_keys()[i as int],
            ));
            i = i + 1;
        }
        assert(self.held_keys().take(n as int) =~= self.held_keys());
        assert(self.held_keys().to_set() =~= self.model().dom());
        r
    }
}

impl Model for Profiles {
    type M = Map<Seq<char>, ProfileModel>;

    closed spec fn model(&self) -> Map<Seq<char>, ProfileModel> {
        table(self.held_keys(), self.held_values())
    }
}

/// The store: identities under their keys, and the key of the one that was
/// last switched to. That key may name an identity that is no longer kept.
#[derive(Debug)]
pub struct Config {
    pub profiles: Profiles,
    pub current_profile: Option<String>,
}

/// What a [`Config`] stands for.
pub struct ConfigModel {
    pub profiles: Map<Seq<char>, ProfileModel>,
    pub current_profile: Option<Seq<char>>,
}

impl Model for Config {
    type M = ConfigModel;

    open spec fn model(&self) -> ConfigModel {
        ConfigModel {
            profiles: self.profiles.model(),
            current_profile: self.current_profile.model(),
        }
    }
}

impl Default for Config {
    /// A store that keeps nothing and points at nothing.
    fn default() -> (r: Config)
        ensures
            r.model() == (ConfigModel {
                profiles: Map::<Seq<char>, ProfileModel>::empty(),
                current_profile: None,
            }),
    {
        Config { profiles: Profiles::new(), current_profile: None }
    }
}

/// The directory of the store: `gswitch` under the configuration directory
/// if one is named, else under `.config` in the home directory.
pub open spec fn store_dir(
    xdg_config_home: Option<Seq<PartModel>>,
    home: Option<Seq<PartModel>>,
) -> Result<Seq<PartModel>, ErrorModel> {
    match xdg_config_home {
        Some(dir) => Ok(child_of(dir, "gswitch"@)),
        None => match home {
            Some(dir) => Ok(child_of(child_of(dir, ".config"@), "gswitch"@)),
            None => Err(ErrorModel::HomeNotSet),
        },
    }
}

/// Where the store is kept: the file `config.toml` in its directory.
pub open spec fn store_path(
    xdg_config_home: Option<Seq<PartModel>>,
    home: Option<Seq<PartModel>>,
) -> Result<Seq<PartModel>, ErrorModel> {
    match store_dir(xdg_config_home, home) {
        Ok(dir) => Ok(child_of(dir, "config.toml"@)),
        Err(e) => Err(e),
    }
}

/// Reading the text of the store. Where there is no file there is no
/// store yet, which is no failure.
pub open spec fn load_script(
    xdg_config_home: Option<Seq<PartModel>>,
    home: Option<Seq<PartModel>>,
    replies: Seq<ReplyModel>,
) -> StepModel<Result<Option<Seq<char>>, ErrorModel>> {
    match store_path(xdg_config_home, home) {
        Err(e) => StepModel::Done(Err(e)),
        Ok(path) => if replies.len() == 0 {
            StepModel::Ask(RequestModel::Exists { path })
        } else if !replies[0].success {
            StepModel::Done(Ok(None))
        } else if replies.len() == 1 {
            StepModel::Ask(RequestModel::Read { path })
        } else {
            match text_of(replies[1]) {
                Some(text) => StepModel::Done(Ok(Some(text))),
                None => StepModel::Done(
                    Err(ErrorModel::StoreUnreadable { diagnostic: replies[1].diagnostic }),
                ),
            }
        },
    }
}

/// Writing the text of the store: first its directory is made, then the
/// file is written.
pub open spec fn save_script(
    content: Seq<char>,
    xdg_config_home: Option<Seq<PartModel>>,
    home: Option<Seq<PartModel>>,
    replies: Seq<ReplyModel>,
) -> StepModel<Result<(), ErrorModel>> {
    match store_dir(xdg_config_home, home) {
        Err(e) => StepModel::Done(Err(e)),
        Ok(dir) => if replies.len() == 0 {
            StepModel::Ask(RequestModel::CreateDir { path: dir })
        } else if !replies[0].success {
            StepModel::Done(
                Err(ErrorModel::StoreDirNotCreated { diagnostic: replies[0].diagnostic }),
            )
        } else if replies.len() == 1 {
            StepModel::Ask(
                RequestModel::Write { path: child_of(dir, "config.toml"@), content },
            )
        } else if !replies[1].success {
            StepModel::Done(Err(ErrorModel::StoreNotWritten { diagnostic: replies[1].diagnostic }))
        } else {
            StepModel::Done(Ok(()))
        },
    }
}

/// The directory of the store.
fn config_dir(xdg_config_home: Option<&FsPath>, home: Option<&FsPath>) -> (r: Result<FsPath, Error>)
    ensures
        r.model() == store_dir(xdg_config_home.model(), home.model()),
{
    match xdg_config_home {
        Some(dir) => Ok(dir.join("gswitch")),
        None => match home {
            Some(dir) => Ok(dir.join(".config").join("gswitch")),
            None => Err(Error::HomeNotSet),
        },
    }
}

impl Config {
    /// Where the store is kept, given the configuration directory and the
    /// home directory that the environment names.
    pub fn config_path(xdg_config_home: Option<&FsPath>, home: Option<&FsPath>) -> (r: Result<
        FsPath,
        Error,
    >)
        ensures
            r.model() == store_path(xdg_config_home.model(), home.model()),
    {
        match config_dir(xdg_config_home, home) {
            Ok(dir) => Ok(dir.join("config.toml")),
            Err(e) => Err(e),
        }
    }

    /// The text of the store, for the host to read the store from; `None`
    /// where no store has been saved yet.
    pub fn load(
        xdg_config_home: Option<&FsPath>,
        home: Option<&FsPath>,
        replies: &Vec<Reply>,
    ) -> (r: Step<Result<Option<String>, Error>>)
        ensures
            r.model() == load_script(xdg_config_home.model(), home.model(), replies.model()),
    {
        let path = match Config::config_path(xdg_config_home, home) {
            Ok(path) => path,
            Err(e) => {
                return Step::Done(Err(e));
            },
        };
        if replies.len() == 0 {
            Step::Ask(Request::Exists { path })
        } else if !replies[0].success {
            Step::Done(Ok(None))
        } else if replies.len() == 1 {
            Step::Ask(Request::Read { path })
        } else {
            match replies[1].text() {
                Some(text) => Step::Done(Ok(Some(String::from_str(text)))),
                None => Step::Done(
                    Err(Error::StoreUnreadable { diagnostic: replies[1].diagnostic.clone() }),
                ),
            }
        }
    }

    /// Saves the text that the host has made of the store.
    pub fn save(
        content: &str,
        xdg_config_home: Option<&FsPath>,
        home: Option<&FsPath>,
        replies: &Vec<Reply>,
    ) -> (r: Step<Result<(), Error>>)
        ensures
            r.model() == save_script(
                content@,
                xdg_config_home.model(),
                home.model(),
                replies.model(),
            ),
    {
        let dir = match config_dir(xdg_config_home, home) {
            Ok(dir) => dir,
            Err(e) => {
                return Step::Done(Err(e));
            },
        };
        if replies.len() == 0 {
            Step::Ask(Request::CreateDir { path: dir })
        } else if !replies[0].success {
            Step::Done(Err(Error::StoreDirNotCreated { diagnostic: replies[0].diagnostic.clone() }))
        } else if replies.len() == 1 {
            Step::Ask(
                Request::Write { path: dir.join("config.toml"), content: String::from_str(content) },
            )
        } else if !replies[1].success {
            Step::Done(Err(Error::StoreNotWritten { diagnostic: replies[1].diagnostic.clone() }))
        } else {
            Step::Done(Ok(()))
        }
    }

    /// Keeps `profile` under `name`, in place of what was kept there.
    pub fn add_profile(&mut self, name: String, profile: GitProfile)
        ensures
            final(self).model() == (ConfigModel {
                profiles: old(self).model().profiles.insert(name@, profile.model()),
                current_profile: old(self).model().current_profile,
            }),
    {
        self.profiles.insert(name, profile);
    }

    /// Drops the identity kept under `name` and says whether there was one.
    /// The store stops pointing at `name`, kept or not.
    pub fn remove_profile(&mut self, name: &str) -> (removed: bool)
        ensures
            removed == old(self).model().profiles.dom().contains(name@),
            final(self).model() == (ConfigModel {
                profiles: old(self).model().profiles.remove(name@),
                current_profile: if old(self).model().current_profile == Some(name@) {
                    None
                } else {
                    old(self).model().current_profile
                },
            }),
    {
        let points_here = match &self.current_profile {
            Some(current) => same_text(current.as_str(), name),
            None => false,
        };
        if points_here {
            self.current_profile = None;
        }
        self.profiles.remove(name)
    }

    /// The identity kept under `name`, if there is one.
    pub fn get_profile(&self, name: &str) -> (r: Option<&GitProfile>)
        ensures
            r.model() == if self.model().profiles.dom().contains(name@) {
                Some(self.model().profiles[name@])
            } else {
                None
            },
    {
        self.profiles.get(name)
    }

    /// Points the store at `name`.
    pub fn set_current_profile(&mut self, name: String)
        ensures
            final(self).model() == (ConfigModel {
                profiles: old(self).model().profiles,
                current_profile: Some(name@),
            }),
    {
        self.current_profile = Some(name);
    }
}

} // verus!
