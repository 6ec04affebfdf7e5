//! The persistent state: the registry of linked teams and the stored
//! credential, as values with verified transitions.
//!
//! Reading and writing the two records is the caller's business. What is
//! decided here is what a record may hold and how each operation changes it.

use vstd::prelude::*;
use crate::error::{Error, ErrorView};

verus! {

/// What is stored about one linked team.
#[derive(Debug, PartialEq, Eq)]
pub struct TeamConfig {
    pub id: String,
    pub name: String,
}

/// The value of a [`TeamConfig`].
pub struct TeamConfigView {
    pub id: Seq<char>,
    pub name: Seq<char>,
}

impl View for TeamConfig {
    type V = TeamConfigView;

    open spec fn view(&self) -> TeamConfigView {
        TeamConfigView { id: self.id@, name: self.name@ }
    }
}

impl Clone for TeamConfig {
    fn clone(&self) -> (copy: Self)
        ensures
            copy@ == self@,
    {
        TeamConfig { id: self.id.clone(), name: self.name.clone() }
    }
}

/// The text of an optional string.
pub open spec fn opt_text(s: Option<String>) -> Option<Seq<char>> {
    match s {
        Some(t) => Some(t@),
        None => None,
    }
}

/// The text of an optional string slice.
pub open spec fn opt_str_text(s: Option<&str>) -> Option<Seq<char>> {
    match s {
        Some(t) => Some(t@),
        None => None,
    }
}

/// The stored credential: absent until an authentication succeeds.
#[derive(Debug, PartialEq, Eq)]
pub struct Creds {
    pub api_key: Option<String>,
}

impl View for Creds {
    type V = Option<Seq<char>>;

    open spec fn view(&self) -> Option<Seq<char>> {
        opt_text(self.api_key)
    }
}

impl Default for Creds {
    fn default() -> (creds: Self)
        ensures
            creds@ is None,
    {
        Creds { api_key: None }
    }
}

/// The key that `creds` holds, if any.
pub fn get_api_key(creds: &Creds) -> (key: Option<String>)
    ensures
        opt_text(key) == creds@,
{
    match &creds.api_key {
        Some(k) => Some(k.clone()),
        None => None,
    }
}

/// Replaces whatever key `creds` held by `key`.
pub fn set_api_key(creds: &mut Creds, key: &str)
    ensures
        final(creds)@ == Some(key@),
{
    creds.api_key = Some(key.to_owned());
}

/// What was found where a record is kept: nothing, something that could not
/// be read as a record, or the record's content.
#[derive(Debug, PartialEq, Eq)]
pub enum Stored<T> {
    Missing,
    Unreadable { reason: String },
    Found(T),
}

/// The credential that the stored record stands for. A missing record is no
/// failure: it is the state before the first authentication.
pub fn load_creds(stored: Stored<Option<String>>) -> (loaded: Result<Creds, Error>)
    ensures
        match stored {
            Stored::Missing => loaded matches Ok(creds) && creds@ is None,
            Stored::Unreadable { reason } => loaded matches Err(e) && e@ == (
            ErrorView::CorruptState { reason: reason@ }),
            Stored::Found(key) => loaded matches Ok(creds) && creds.api_key == key,
        },
{
    match stored {
        Stored::Missing => Ok(Creds { api_key: None }),
        Stored::Unreadable { reason } => Err(Error::CorruptState { reason }),
        Stored::Found(key) => Ok(Creds { api_key: key }),
    }
}

/// The value of a [`Config`]: which alias is the default, the aliases in the
/// order they are listed, and what each alias is linked to.
pub struct RegistryState {
    pub default_alias: Option<Seq<char>>,
    pub order: Seq<Seq<char>>,
    pub links: Map<Seq<char>, TeamConfigView>,
}

impl RegistryState {
    /// The state of a fresh installation.
    pub open spec fn empty() -> RegistryState {
        RegistryState { default_alias: None, order: Seq::empty(), links: Map::empty() }
    }

    /// No alias is listed twice, the listed aliases are the linked ones, and
    /// a default, if set, is linked.
    pub open spec fn valid(self) -> bool {
        &&& self.order.no_duplicates()
        &&& forall|a: Seq<char>| self.links.contains_key(a) <==> self.order.contains(a)
        &&& (self.default_alias matches Some(a) ==> self.links.contains_key(a))
    }

    /// The state after `alias` is linked to `team`. A new alias goes to the
    /// end of the list, a known one keeps its place; the default is set only
    /// where there was none.
    pub open spec fn add(self, alias: Seq<char>, team: TeamConfigView) -> RegistryState {
        RegistryState {
            default_alias: if self.default_alias is None {
                Some(alias)
            } else {
                self.default_alias
            },
            order: if self.links.contains_key(alias) {
                self.order
            } else {
                self.order.push(alias)
            },
            links: self.links.insert(alias, team),
        }
    }

    /// The state after `alias` is unlinked. Where `alias` was the default,
    /// the first alias still listed takes over, or none if none is left.
    pub open spec fn remove(self, alias: Seq<char>) -> RegistryState {
        if self.links.contains_key(alias) {
            let order = self.order.remove(self.order.index_of(alias));
            RegistryState {
                default_alias: if self.default_alias == Some(alias) {
                    if order.len() == 0 {
                        None
                    } else {
                        Some(order[0])
                    }
                } else {
                    self.default_alias
                },
                order,
                links: self.links.remove(alias),
            }
        } else {
            self
        }
    }

    /// The alias a lookup is about: the one given or else the default.
    pub open spec fn wanted(self, alias: Option<Seq<char>>) -> Option<Seq<char>> {
        if alias is Some {
            alias
        } else {
            self.default_alias
        }
    }
}

/// One change to the registry.
pub enum Change {
    Add { alias: Seq<char>, team: TeamConfigView },
    Remove { alias: Seq<char> },
}

impl RegistryState {
    /// The state after one change.
    pub open spec fn apply(self, change: Change) -> RegistryState {
        match change {
            Change::Add { alias, team } => self.add(alias, team),
            Change::Remove { alias } => self.remove(alias),
        }
    }

    /// The state after a run of changes, the first of them first.
    pub open spec fn apply_all(self, changes: Seq<Change>) -> RegistryState
        decreases changes.len(),
    {
        if changes.len() == 0 {
            self
        } else {
            self.apply_all(changes.drop_last()).apply(changes.last())
        }
    }

    /// Linking a team keeps a valid state valid.
    pub proof fn lemma_add_keeps_valid(self, alias: Seq<char>, team: TeamConfigView)
        requires
            self.valid(),
        ensures
            self.add(alias, team).valid(),
    {
        let after = self.add(alias, team);
        assert forall|a: Seq<char>| after.order.contains(a) <==> (a == alias
            || self.order.contains(a)) by {
            if self.order.contains(a) {
                assert(after.order[self.order.index_of(a)] == a);
            }
            if a == alias && !self.links.contains_key(alias) {
                assert(after.order[self.order.len() as int] == a);
            }
        }
        assert forall|a: Seq<char>| after.links.contains_key(a) <==> after.order.contains(a) by {
            assert(after.links.contains_key(a) <==> (a == alias || self.links.contains_key(a)));
        }
        assert forall|i: int, j: int|
            0 <= i < after.order.len() && 0 <= j < after.order.len() && i != j implies after.order[i]
            != after.order[j] by {
            if i < self.order.len() {
                assert(self.order.contains(self.order[i]));
            }
            if j < self.order.len() {
                assert(self.order.contains(self.order[j]));
            }
        }
    }

    /// Unlinking a team keeps a valid state valid.
    pub proof fn lemma_remove_keeps_valid(self, alias: Seq<char>)
        requires
            self.valid(),
        ensures
            self.remove(alias).valid(),
    {
        if self.links.contains_key(alias) {
            let i = self.order.index_of(alias);
            assert(self.order.contains(alias));
            lemma_remove_distinct(self.order, i);
            let after = self.remove(alias);
            assert(self.order[i] == alias);
            assert forall|a: Seq<char>| after.links.contains_key(a) <==> after.order.contains(
                a,
            ) by {
                assert(after.order.contains(a) <==> (a != alias && self.order.contains(a)));
                assert(self.links.contains_key(a) <==> self.order.contains(a));
            }
            if after.order.len() > 0 {
                assert(after.order.contains(after.order[0]));
            }
        }
    }

    /// Whatever teams are linked and unlinked, in whatever order, the default
    /// is never an alias that is not linked: a valid state stays valid.
    pub proof fn lemma_changes_keep_valid(self, changes: Seq<Change>)
        requires
            self.valid(),
        ensures
            self.apply_all(changes).valid(),
        decreases changes.len(),
    {
        if changes.len() > 0 {
            self.lemma_changes_keep_valid(changes.drop_last());
            let before = self.apply_all(changes.drop_last());
            match changes.last() {
                Change::Add { alias, team } => before.lemma_add_keeps_valid(alias, team),
                Change::Remove { alias } => before.lemma_remove_keeps_valid(alias),
            }
        }
    }

    /// From a fresh installation on, every state that linking and unlinking
    /// lead to is valid.
    pub proof fn lemma_fresh_state_stays_valid(changes: Seq<Change>)
        ensures
            RegistryState::empty().apply_all(changes).valid(),
    {
        RegistryState::empty().lemma_changes_keep_valid(changes);
    }

    /// The first team linked becomes the default.
    pub proof fn lemma_first_link_becomes_default(self, alias: Seq<char>, team: TeamConfigView)
        requires
            self.valid(),
            forall|a: Seq<char>| !self.links.contains_key(a),
        ensures
            self.add(alias, team).default_alias == Some(alias),
    {
    }

    /// Linking a team never changes a default that is set.
    pub proof fn lemma_add_keeps_default(self, alias: Seq<char>, team: TeamConfigView)
        requires
            self.default_alias is Some,
        ensures
            self.add(alias, team).default_alias == self.default_alias,
    {
    }

    /// Unlinking the default team hands the default to a team that is still
    /// linked, and leaves none only where no team is left.
    pub proof fn lemma_remove_default_reassigns(self, alias: Seq<char>)
        requires
            self.valid(),
            self.default_alias == Some(alias),
        ensures
            match self.remove(alias).default_alias {
                Some(next) => next != alias && self.links.contains_key(next) && self.remove(
                    alias,
                ).links.contains_key(next),
                None => forall|a: Seq<char>| !self.remove(alias).links.contains_key(a),
            },
    {
        self.lemma_remove_keeps_valid(alias);
        let i = self.order.index_of(alias);
        assert(self.order.contains(alias));
        lemma_remove_distinct(self.order, i);
        let after = self.remove(alias);
        if after.order.len() > 0 {
            assert(after.order.contains(after.order[0]));
        } else {
            assert forall|a: Seq<char>| !after.links.contains_key(a) by {
                assert(!after.order.contains(a));
            }
        }
    }

    /// Unlinking a team that is not the default never changes the default.
    pub proof fn lemma_remove_other_keeps_default(self, alias: Seq<char>)
        requires
            self.default_alias != Some(alias),
        ensures
            self.remove(alias).default_alias == self.default_alias,
    {
    }

    /// Unlinking an alias that is not linked changes nothing.
    pub proof fn lemma_remove_missing_is_noop(self, alias: Seq<char>)
        requires
            !self.links.contains_key(alias),
        ensures
            self.remove(alias) == self,
    {
    }
}

/// The aliases of a list of entries, in order.
pub open spec fn entries_order(entries: Seq<(String, TeamConfig)>) -> Seq<Seq<char>> {
    Seq::new(entries.len(), |i: int| entries[i].0@)
}

/// What each alias of a list of entries is linked to: the team of the first
/// entry that carries it.
pub open spec fn entries_links(entries: Seq<(String, TeamConfig)>) -> Map<
    Seq<char>,
    TeamConfigView,
> {
    Map::new(
        |a: Seq<char>| entries_order(entries).contains(a),
        |a: Seq<char>| entries[entries_order(entries).index_of(a)].1@,
    )
}

/// The state that a default and a list of entries describe.
pub open spec fn entries_state(
    default_team: Option<String>,
    entries: Seq<(String, TeamConfig)>,
) -> RegistryState {
    RegistryState {
        default_alias: opt_text(default_team),
        order: entries_order(entries),
        links: entries_links(entries),
    }
}

/// In a list without duplicates, an element is found where it stands.
proof fn lemma_index_of_unique(order: Seq<Seq<char>>, i: int)
    requires
        order.no_duplicates(),
        0 <= i < order.len(),
    ensures
        order.index_of(order[i]) == i,
        order.contains(order[i]),
{
    let j = order.index_of(order[i]);
    assert(order.contains(order[i]));
    assert(0 <= j < order.len() && order[j] == order[i]);
}

/// What appending an entry with a new alias does to the state.
proof fn lemma_entries_push(entries: Seq<(String, TeamConfig)>, entry: (String, TeamConfig))
    requires
        entries_order(entries).no_duplicates(),
        !entries_order(entries).contains(entry.0@),
    ensures
        entries_order(entries.push(entry)) == entries_order(entries).push(entry.0@),
        entries_order(entries.push(entry)).no_duplicates(),
        entries_links(entries.push(entry)) == entries_links(entries).insert(entry.0@, entry.1@),
{
    let before = entries_order(entries);
    let after = entries_order(entries.push(entry));
    assert(after =~= before.push(entry.0@));
    assert forall|a: Seq<char>| #[trigger] after.contains(a) implies entries_links(
        entries.push(entry),
    )[a] == entries_links(entries).insert(entry.0@, entry.1@)[a] by {
        let j = after.index_of(a);
        lemma_index_of_unique(after, j);
        if a != entry.0@ {
            lemma_index_of_unique(before, j);
        }
    }
    assert forall|a: Seq<char>| after.contains(a) <==> (a == entry.0@ || before.contains(a)) by {
        if before.contains(a) {
            let j = before.index_of(a);
            assert(after[j] == a);
        }
        if a == entry.0@ {
            assert(after[before.len() as int] == a);
        }
    }
    assert(entries_links(entries.push(entry)) =~= entries_links(entries).insert(
        entry.0@,
        entry.1@,
    ));
}

/// What replacing an entry by one with the same alias does to the state.
proof fn lemma_entries_update(
    entries: Seq<(String, TeamConfig)>,
    i: int,
    entry: (String, TeamConfig),
)
    requires
        entries_order(entries).no_duplicates(),
        0 <= i < entries.len(),
        entries[i].0@ == entry.0@,
    ensures
        entries_order(entries.update(i, entry)) == entries_order(entries),
        entries_links(entries.update(i, entry)) == entries_links(entries).insert(
            entry.0@,
            entry.1@,
        ),
{
    let order = entries_order(entries);
    let after = entries_order(entries.update(i, entry));
    assert(after =~= order);
    assert(order[i] == entry.0@);
    lemma_index_of_unique(order, i);
    assert forall|a: Seq<char>| #[trigger] order.contains(a) implies entries_links(
        entries.update(i, entry),
    )[a] == entries_links(entries).insert(entry.0@, entry.1@)[a] by {
        let j = order.index_of(a);
        lemma_index_of_unique(order, j);
    }
    assert(entries_links(entries.update(i, entry)) =~= entries_links(entries).insert(
        entry.0@,
        entry.1@,
    ));
}

/// Taking one element out of a list without duplicates leaves a list without
/// duplicates that holds the other elements and no more.
proof fn lemma_remove_distinct(order: Seq<Seq<char>>, i: int)
    requires
        order.no_duplicates(),
        0 <= i < order.len(),
    ensures
        order.remove(i).no_duplicates(),
        forall|a: Seq<char>| order.remove(i).contains(a) <==> (a != order[i] && order.contains(a)),
{
    let after = order.remove(i);
    assert forall|a: Seq<char>| after.contains(a) <==> (a != order[i] && order.contains(a)) by {
        if after.contains(a) {
            let j = after.index_of(a);
            if j < i {
                assert(order[j] == a);
            } else {
                assert(order[j + 1] == a);
            }
        }
        if a != order[i] && order.contains(a) {
            let j = order.index_of(a);
            if j < i {
                assert(after[j] == a);
            } else {
                assert(after[j - 1] == a);
            }
        }
    }
}

/// What taking an entry out does to the state.
proof fn lemma_entries_remove(entries: Seq<(String, TeamConfig)>, i: int)
    requires
        entries_order(entries).no_duplicates(),
        0 <= i < entries.len(),
    ensures
        entries_order(entries).index_of(entries[i].0@) == i,
        entries_order(entries.remove(i)) == entries_order(entries).remove(i),
        entries_order(entries.remove(i)).no_duplicates(),
        entries_links(entries.remove(i)) == entries_links(entries).remove(entries[i].0@),
{
    let order = entries_order(entries);
    let after = entries_order(entries.remove(i));
    let gone = entries[i].0@;
    assert(order[i] == gone);
    lemma_index_of_unique(order, i);
    assert(after =~= order.remove(i));
    lemma_remove_distinct(order, i);
    assert forall|a: Seq<char>| #[trigger] after.contains(a) implies entries_links(
        entries.remove(i),
    )[a] == entries_links(entries)[a] by {
        let j = after.index_of(a);
        lemma_index_of_unique(after, j);
        if j < i {
            assert(order[j] == a);
            lemma_index_of_unique(order, j);
        } else {
            assert(order[j + 1] == a);
            lemma_index_of_unique(order, j + 1);
        }
    }
    assert(entries_links(entries.remove(i)) =~= entries_links(entries).remove(gone));
}

/// The registry: the linked teams in listing order and the default team.
/// Its fields are private so that every value is a valid state.
#[derive(Debug, PartialEq, Eq)]
pub struct Config {
    default_team: Option<String>,
    teams: Vec<(String, TeamConfig)>,
}

impl View for Config {
    type V = RegistryState;

    closed spec fn view(&self) -> RegistryState {
        entries_state(self.default_team, self.teams@)
    }
}

impl Config {
    /// What every registry satisfies.
    pub open spec fn wf(&self) -> bool {
        self@.valid()
    }

    /// The registry of a fresh installation.
    pub fn new() -> (config: Config)
        ensures
            config.wf(),
            config@ == RegistryState::empty(),
    {
        let config = Config { default_team: None, teams: Vec::new() };
        proof {
            assert(entries_order(config.teams@) =~= Seq::<Seq<char>>::empty());
            assert(entries_links(config.teams@) =~= Map::<Seq<char>, TeamConfigView>::empty());
        }
        config
    }

    /// The registry that a stored record describes. A record that lists an
    /// alias twice, or names a default that it does not list, is refused.
    pub fn from_parts(default_team: Option<String>, teams: Vec<(String, TeamConfig)>) -> (loaded:
        Result<Config, Error>)
        ensures
            match loaded {
                Ok(config) => entries_state(default_team, teams@).valid() && config@
                    == entries_state(default_team, teams@),
                Err(e) => !entries_state(default_team, teams@).valid() && e@
                    == (ErrorView::CorruptState {
                    reason: if entries_order(teams@).no_duplicates() {
                        "the default team is not among the linked teams"@
                    } else {
                        "an alias is linked twice"@
                    },
                }),
            },
    {
        let ghost order = entries_order(teams@);
        let mut i: usize = 0;
        while i < teams.len()
            invariant
                i <= teams@.len(),
                order == entries_order(teams@),
                forall|a: int, b: int| 0 <= a < b < i ==> order[a] != order[b],
            decreases teams@.len() - i,
        {
            match find_alias(&teams, &teams[i].0, i) {
                Some(j) => {
                    proof {
                        assert(order[j as int] == order[i as int]);
                    }
                    return Err(
                        Error::CorruptState { reason: "an alias is linked twice".to_owned() },
                    );
                },
                None => {},
            }
            i += 1;
        }
        let listed = match &default_team {
            Some(d) => {
                let at = find_alias(&teams, d, teams.len());
                proof {
                    if at is Some {
                        assert(order[at->Some_0 as int] == d@);
                    }
                }
                at.is_some()
            },
            None => true,
        };
        if listed {
            Ok(Config { default_team, teams })
        } else {
            Err(
                Error::CorruptState {
                    reason: "the default team is not among the linked teams".to_owned(),
                },
            )
        }
    }

    /// The alias of the default team, if one is set.
    pub fn default_team(&self) -> (alias: Option<String>)
        ensures
            opt_text(alias) == self@.default_alias,
    {
        match &self.default_team {
            Some(d) => Some(d.clone()),
            None => None,
        }
    }

    /// Whether `alias` is the default team.
    pub fn is_default(&self, alias: &str) -> (yes: bool)
        ensures
            yes == (self@.default_alias == Some(alias@)),
    {
        match &self.default_team {
            Some(d) => *d == alias.to_owned(),
            None => false,
        }
    }

    /// Where the entry with this alias stands, if there is one.
    fn position(&self, alias: &String) -> (at: Option<usize>)
        ensures
            match at {
                Some(i) => i < self.teams@.len() && self.teams@[i as int].0@ == alias@,
                None => !entries_order(self.teams@).contains(alias@),
            },
    {
        find_alias(&self.teams, alias, self.teams.len())
    }
}

impl Default for Config {
    fn default() -> (config: Self)
        ensures
            config.wf(),
            config@ == RegistryState::empty(),
    {
        Config::new()
    }
}

/// Where an entry with this alias stands among the first `end` entries.
fn find_alias(teams: &Vec<(String, TeamConfig)>, alias: &String, end: usize) -> (at: Option<usize>)
    requires
        end <= teams@.len(),
    ensures
        match at {
            Some(i) => i < end && teams@[i as int].0@ == alias@,
            None => forall|j: int| 0 <= j < end ==> teams@[j].0@ != alias@,
        },
{
    let mut i: usize = 0;
    while i < end
        invariant
            i <= end <= teams@.len(),
            forall|j: int| 0 <= j < i ==> teams@[j].0@ != alias@,
        decreases end - i,
    {
        if teams[i].0 == *alias {
            return Some(i);
        }
        i += 1;
    }
    None
}

/// The registry that the stored record stands for. A missing record is no
/// failure: it is the registry of a fresh installation. A record that could
/// not be read, or that [`Config::from_parts`] refuses, is corrupt.
pub fn load_config(stored: Stored<(Option<String>, Vec<(String, TeamConfig)>)>) -> (loaded: Result<
    Config,
    Error,
>)
    ensures
        loaded matches Ok(config) ==> config.wf(),
        match stored {
            Stored::Missing => loaded matches Ok(config) && config@ == RegistryState::empty(),
            Stored::Unreadable { reason } => loaded matches Err(e) && e@ == (
            ErrorView::CorruptState { reason: reason@ }),
            Stored::Found(record) => if entries_state(record.0, record.1@).valid() {
                loaded matches Ok(config) && config@ == entries_state(record.0, record.1@)
            } else {
                loaded matches Err(e) && e@ is CorruptState
            },
        },
{
    match stored {
        Stored::Missing => Ok(Config::new()),
        Stored::Unreadable { reason } => Err(Error::CorruptState { reason }),
        Stored::Found(record) => Config::from_parts(record.0, record.1),
    }
}

/// Links `alias` to the team `id`, named `name`, replacing what the alias was
/// linked to. Where no default was set, the alias becomes the default.
pub fn add_team(config: &mut Config, alias: &str, id: &str, name: &str)
    requires
        old(config).wf(),
    ensures
        final(config).wf(),
        final(config)@ == old(config)@.add(alias@, TeamConfigView { id: id@, name: name@ }),
{
    let key = alias.to_owned();
    let team = TeamConfig { id: id.to_owned(), name: name.to_owned() };
    let ghost before = config.teams@;
    match config.position(&key) {
        Some(i) => {
            proof {
                assert(entries_order(before)[i as int] == alias@);
                lemma_entries_update(before, i as int, (key, team));
            }
            config.teams.set(i, (key, team));
        },
        None => {
            proof {
                lemma_entries_push(before, (key, team));
            }
            config.teams.push((key, team));
        },
    }
    if config.default_team.is_none() {
        config.default_team = Some(alias.to_owned());
    }
}



/// Unlinks `alias` and says whether there was anything to unlink. Where the
/// alias was the default, the first team still listed becomes the default.
pub fn remove_team(config: &mut Config, alias: &str) -> (removed: bool)
    requires
        old(config).wf(),
    ensures
        final(config).wf(),
        removed == old(config)@.links.contains_key(alias@),
        final(config)@ == old(config)@.remove(alias@),
{
    let key = alias.to_owned();
    let ghost before = config.teams@;
    match config.position(&key) {
        None => false,
        Some(i) => {
            proof {
                assert(entries_order(before)[i as int] == alias@);
                lemma_entries_remove(before, i as int);
            }
            config.teams.remove(i);
            let was_default = match &config.default_team {
                Some(d) => *d == key,
                None => false,
            };
            if was_default {
                if config.teams.len() == 0 {
                    config.default_team = None;
                } else {
                    config.default_team = Some(config.teams[0].0.clone());
                }
            }
            proof {
                if config.teams@.len() > 0 {
                    assert(config@.order.contains(config@.order[0]));
                }
            }
            true
        },
    }
}

/// Looks up the team that `alias` names or, where none is given, the default
/// team. Fails exactly when there is neither an alias nor a default; an
/// alias that is not linked gives `None`.
pub fn get_team(config: &Config, alias: Option<&str>) -> (found: Result<
    Option<(String, TeamConfig)>,
    Error,
>)
    requires
        config.wf(),
    ensures
        alias is None ==> (found is Err <==> config@.default_alias is None),
        match config@.wanted(opt_str_text(alias)) {
            None => found matches Err(e) && e@ == ErrorView::NoDefaultTeam,
            Some(wanted) => found matches Ok(entry) && if config@.links.contains_key(wanted) {
                entry matches Some(pair) && pair.0@ == wanted && pair.1@ == config@.links[wanted]
            } else {
                entry is None
            },
        },
{
    let wanted = match alias {
        Some(a) => a.to_owned(),
        None => match &config.default_team {
            Some(d) => d.clone(),
            None => {
                return Err(Error::NoDefaultTeam);
            },
        },
    };
    match config.position(&wanted) {
        Some(i) => {
            proof {
                assert(entries_order(config.teams@)[i as int] == wanted@);
                lemma_index_of_unique(entries_order(config.teams@), i as int);
            }
            Ok(Some((wanted, config.teams[i].1.clone())))
        },
        None => Ok(None),
    }
}

/// All linked teams, in listing order.
pub fn list_teams(config: &Config) -> (all: Vec<(String, TeamConfig)>)
    requires
        config.wf(),
    ensures
        all@.len() == config@.order.len(),
        forall|i: int|
            0 <= i < all@.len() ==> (#[trigger] all@[i]).0@ == config@.order[i] && all@[i].1@
                == config@.links[config@.order[i]],
{
    let mut all: Vec<(String, TeamConfig)> = Vec::new();
    let mut i: usize = 0;
    while i < config.teams.len()
        invariant
            config.wf(),
            i <= config.teams@.len(),
            all@.len() == i,
            forall|j: int|
                0 <= j < i ==> (#[trigger] all@[j]).0@ == config@.order[j] && all@[j].1@
                    == config@.links[config@.order[j]],
        decreases config.teams@.len() - i,
    {
        proof {
            lemma_index_of_unique(entries_order(config.teams@), i as int);
        }
        all.push((config.teams[i].0.clone(), config.teams[i].1.clone()));
        i += 1;
    }
    all
}

} // verus!
