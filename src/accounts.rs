//! The account registry: which accounts exist, where their data lives and
//! which one is selected.

#[allow(unused_imports)]
use vstd::prelude::*;

use vstd::string::{StrSliceExecFns, StringExecFns};

verus! {

/// Name of the registry file in the accounts directory.
pub const CONFIG_NAME: &'static str = "accounts.toml";

/// Name of an account's database file in its directory.
pub const DB_NAME: &'static str = "dc.db";

/// `dir` and `name` joined by one `/`.
pub open spec fn path_join(dir: Seq<char>, name: Seq<char>) -> Seq<char> {
    if dir.len() > 0 && dir.last() == '/' {
        dir + name
    } else {
        dir + "/"@ + name
    }
}

/// Joins a directory and a name within it.
pub fn join_path(dir: &str, name: &str) -> (r: String)
    ensures
        r@ == path_join(dir@, name@),
{
    let mut r = dir.to_owned();
    let n = dir.unicode_len();
    if n > 0 && dir.get_char(n - 1) == '/' {
        r.append(name);
    } else {
        r.append("/");
        r.append(name);
    }
    r
}

/// Relies on `uuid::Uuid::new_v4` and its simple form: a random
/// identifier written as 32 lowercase hexadecimal digits.
#[verifier::external_body]
fn new_uuid_text() -> (r: String)
    ensures
        r@.len() == 32,
        forall|i: int| 0 <= i < 32 ==> is_lower_hex(#[trigger] r@[i]),
{
    uuid::Uuid::new_v4().to_simple_ref().to_string()
}

pub open spec fn is_lower_hex(c: char) -> bool {
    ('0' <= c && c <= '9') || ('a' <= c && c <= 'f')
}

/// An account of the registry.
#[derive(Debug)]
pub struct AccountConfig {
    /// Unique id.
    pub id: u32,
    /// Root directory for all data of this account.
    pub dir: String,
    pub uuid: String,
}

impl View for AccountConfig {
    type V = (u32, Seq<char>, Seq<char>);

    open spec fn view(&self) -> (u32, Seq<char>, Seq<char>) {
        (self.id, self.dir@, self.uuid@)
    }
}

impl AccountConfig {
    /// The canonical database file of this account.
    pub fn dbfile(&self) -> (r: String)
        ensures
            r@ == path_join(self.dir@, DB_NAME@),
    {
        join_path(self.dir.as_str(), DB_NAME)
    }

    pub fn clone(&self) -> (r: AccountConfig)
        ensures
            r@ == self@,
    {
        AccountConfig { id: self.id, dir: self.dir.clone(), uuid: self.uuid.clone() }
    }
}

/// The registry's contents as stored in its file.
#[derive(Debug)]
pub struct InnerConfig {
    pub os_name: String,
    /// The selected account, 0 when there is none.
    pub selected_account: u32,
    pub next_id: u32,
    pub accounts: Vec<AccountConfig>,
}

/// The accounts' views, in order.
pub open spec fn account_views(accounts: Seq<AccountConfig>) -> Seq<(u32, Seq<char>, Seq<char>)> {
    accounts.map_values(|a: AccountConfig| a@)
}

/// The accounts' ids, in order.
pub open spec fn ids_of(accounts: Seq<AccountConfig>) -> Seq<u32> {
    accounts.map_values(|a: AccountConfig| a.id)
}

/// `id` is the id of some account.
pub open spec fn has_id(accounts: Seq<AccountConfig>, id: u32) -> bool {
    exists|i: int| 0 <= i < accounts.len() && (#[trigger] accounts[i]).id == id
}

/// `id` is the smallest id of the accounts.
pub open spec fn is_smallest_id(accounts: Seq<AccountConfig>, id: u32) -> bool {
    has_id(accounts, id) && forall|i: int| 0 <= i < accounts.len() ==> id <= (#[trigger] accounts[i]).id
}

/// A consistent registry: `next_id` positive, ids positive, strictly increasing and below
/// `next_id`; the selection is 0 exactly when there is no account, and an
/// account otherwise.
pub open spec fn inner_wf(c: InnerConfig) -> bool {
    let a = c.accounts@;
    &&& c.next_id > 0
    &&& forall|i: int| 0 <= i < a.len() ==> 0 < (#[trigger] a[i]).id && a[i].id < c.next_id
    &&& forall|i: int, j: int| 0 <= i < j < a.len() ==> (#[trigger] a[i]).id < (#[trigger] a[j]).id
    &&& if a.len() == 0 {
        c.selected_account == 0
    } else {
        has_id(a, c.selected_account)
    }
}

/// Why a registry operation was refused.
#[derive(Debug, PartialEq, Eq, Structural, Copy, Clone)]
pub enum ConfigError {
    /// No account has this id.
    InvalidAccountId { id: u32 },
    /// Every 32-bit id has been handed out.
    IdsExhausted,
    /// A loaded registry breaks its invariant.
    Inconsistent,
    /// The new account's data could not be set up.
    OpenFailed,
}

/// The account registry of an accounts directory, and the file that holds
/// it. Each change is to be written back to `file` by the caller.
#[derive(Debug)]
pub struct Config {
    pub file: String,
    pub inner: InnerConfig,
}

impl Config {
    pub open spec fn wf(&self) -> bool {
        inner_wf(self.inner)
    }

    pub open spec fn accounts(&self) -> Seq<AccountConfig> {
        self.inner.accounts@
    }

    /// A registry with no account, kept in `dir`.
    pub fn new(os_name: String, dir: &str) -> (r: Config)
        ensures
            r.wf(),
            r.file@ == path_join(dir@, CONFIG_NAME@),
            r.inner.os_name@ == os_name@,
            r.inner.selected_account == 0,
            r.inner.next_id == 1,
            r.accounts().len() == 0,
    {
        Config {
            file: join_path(dir, CONFIG_NAME),
            inner: InnerConfig { os_name, selected_account: 0, next_id: 1, accounts: Vec::new() },
        }
    }

    pub fn os_name(&self) -> (r: String)
        ensures
            r@ == self.inner.os_name@,
    {
        self.inner.os_name.clone()
    }

    /// The registry read from `file`, whose contents are `inner`; refused
    /// when it is not consistent.
    pub fn from_file(file: String, inner: InnerConfig) -> (r: Result<Config, ConfigError>)
        ensures
            inner_wf(inner) ==> (r matches Ok(c) && c.file == file && c.inner == inner),
            !inner_wf(inner) ==> r == Err::<Config, ConfigError>(ConfigError::Inconsistent),
    {
        let n = inner.accounts.len();
        let mut i: usize = 0;
        let mut found_selected = false;
        while i < n
            invariant
                n == inner.accounts@.len(),
                0 <= i <= n,
                forall|k: int|
                    0 <= k < i ==> 0 < (#[trigger] inner.accounts@[k]).id
                        && inner.accounts@[k].id < inner.next_id,
                forall|k: int, l: int|
                    0 <= k < l < i ==> (#[trigger] inner.accounts@[k]).id
                        < (#[trigger] inner.accounts@[l]).id,
                found_selected == exists|k: int|
                    0 <= k < i && (#[trigger] inner.accounts@[k]).id == inner.selected_account,
            decreases n - i,
        {
            let id = inner.accounts[i].id;
            if id == 0 || id >= inner.next_id {
                return Err(ConfigError::Inconsistent);
            }
            if i > 0 && inner.accounts[i - 1].id >= id {
                return Err(ConfigError::Inconsistent);
            }
            if id == inner.selected_account {
                found_selected = true;
            }
            proof {
                assert forall|k: int, l: int|
                    0 <= k < l < i + 1 implies (#[trigger] inner.accounts@[k]).id
                    < (#[trigger] inner.accounts@[l]).id by {
                    if l == i && k < i - 1 {
                        assert(inner.accounts@[k].id < inner.accounts@[i - 1].id);
                    }
                }
            }
            i = i + 1;
        }
        let ok = inner.next_id > 0 && if n == 0 {
            inner.selected_account == 0
        } else {
            found_selected
        };
        assert(ok == inner_wf(inner));
        if ok {
            Ok(Config { file, inner })
        } else {
            Err(ConfigError::Inconsistent)
        }
    }
}

/// `b` is `a` with one more account, of id `id`: the next id, selected.
pub open spec fn id_added(a: Config, b: Config, id: u32) -> bool {
    &&& id == a.inner.next_id
    &&& b.inner.next_id == a.inner.next_id + 1
    &&& ids_of(b.accounts()) == ids_of(a.accounts()).push(id)
    &&& b.inner.selected_account == id
}

/// `b` is `a` with one more account `acc`: the next id, selected.
pub open spec fn account_added(a: Config, b: Config, acc: (u32, Seq<char>, Seq<char>)) -> bool {
    &&& id_added(a, b, acc.0)
    &&& account_views(b.accounts()) == account_views(a.accounts()).push(acc)
    &&& b.inner.os_name@ == a.inner.os_name@
    &&& b.file@ == a.file@
}

/// `b` is `a` without the account `id`, with a new selection where `id`
/// was selected: the smallest remaining id, or 0.
pub open spec fn account_removed(a: Config, b: Config, id: u32) -> bool {
    &&& if has_id(a.accounts(), id) {
        exists|i: int|
            0 <= i < a.accounts().len() && (#[trigger] a.accounts()[i]).id == id && account_views(
                b.accounts(),
            ) == account_views(a.accounts().remove(i)) && ids_of(b.accounts()) == ids_of(
                a.accounts(),
            ).remove(i)
    } else {
        account_views(b.accounts()) == account_views(a.accounts()) && ids_of(b.accounts())
            == ids_of(a.accounts())
    }
    &&& !has_id(b.accounts(), id)
    &&& b.inner.next_id == a.inner.next_id
    &&& b.inner.os_name@ == a.inner.os_name@
    &&& b.file@ == a.file@
    &&& if a.inner.selected_account == id {
        if b.accounts().len() == 0 {
            b.inner.selected_account == 0
        } else {
            is_smallest_id(b.accounts(), b.inner.selected_account)
        }
    } else {
        b.inner.selected_account == a.inner.selected_account
    }
}

impl Config {
    pub fn get_selected_account(&self) -> (r: u32)
        ensures
            r == self.inner.selected_account,
    {
        self.inner.selected_account
    }

    /// The account with id `id`.
    pub fn get_account(&self, id: u32) -> (r: Option<AccountConfig>)
        ensures
            match r {
                Some(a) => exists|i: int|
                    0 <= i < self.accounts().len() && (#[trigger] self.accounts()[i]).id == id
                        && a@ == self.accounts()[i]@,
                None => !has_id(self.accounts(), id),
            },
    {
        let mut i: usize = 0;
        while i < self.inner.accounts.len()
            invariant
                0 <= i <= self.accounts().len(),
                forall|k: int| 0 <= k < i ==> (#[trigger] self.accounts()[k]).id != id,
            decreases self.accounts().len() - i,
        {
            if self.inner.accounts[i].id == id {
                return Some(self.inner.accounts[i].clone());
            }
            i = i + 1;
        }
        None
    }

    /// Whether an account has id `id`.
    pub fn contains(&self, id: u32) -> (r: bool)
        ensures
            r == has_id(self.accounts(), id),
    {
        let mut i: usize = 0;
        while i < self.inner.accounts.len()
            invariant
                0 <= i <= self.accounts().len(),
                forall|k: int| 0 <= k < i ==> (#[trigger] self.accounts()[k]).id != id,
            decreases self.accounts().len() - i,
        {
            if self.inner.accounts[i].id == id {
                return true;
            }
            i = i + 1;
        }
        false
    }

    /// Selects account `id`, which must exist.
    pub fn select_account(&mut self, id: u32) -> (r: Result<(), ConfigError>)
        requires
            old(self).wf(),
        ensures
            final(self).wf(),
            has_id(old(self).accounts(), id) ==> r is Ok && final(self).inner.selected_account
                == id,
            !has_id(old(self).accounts(), id) ==> r == Err::<(), ConfigError>(
                ConfigError::InvalidAccountId { id },
            ) && final(self).inner.selected_account == old(self).inner.selected_account,
            final(self).accounts() == old(self).accounts(),
            final(self).inner.next_id == old(self).inner.next_id,
            final(self).inner.os_name == old(self).inner.os_name,
            final(self).file == old(self).file,
    {
        if !self.contains(id) {
            return Err(ConfigError::InvalidAccountId { id });
        }
        self.inner.selected_account = id;
        Ok(())
    }

    /// Adds an account kept in directory `dir` under the name `uuid`, with
    /// the next id, and selects it.
    pub fn new_account_with_uuid(&mut self, dir: &str, uuid: String) -> (r: Result<
        AccountConfig,
        ConfigError,
    >)
        requires
            old(self).wf(),
        ensures
            final(self).wf(),
            old(self).inner.next_id == u32::MAX ==> r == Err::<AccountConfig, ConfigError>(
                ConfigError::IdsExhausted,
            ) && *final(self) == *old(self),
            old(self).inner.next_id < u32::MAX ==> (r matches Ok(a) && a.id == old(
                self,
            ).inner.next_id && a.dir@ == path_join(dir@, uuid@) && a.uuid@ == uuid@
                && account_added(*old(self), *final(self), a@)),
    {
        if self.inner.next_id == u32::MAX {
            return Err(ConfigError::IdsExhausted);
        }
        let id = self.inner.next_id;
        let target_dir = join_path(dir, uuid.as_str());
        let acc = AccountConfig { id, dir: target_dir, uuid };
        let r = acc.clone();
        let ghost before = self.inner.accounts@;
        self.inner.accounts.push(acc);
        self.inner.next_id = id + 1;
        self.inner.selected_account = id;
        proof {
            let after = self.inner.accounts@;
            assert(account_views(after) =~= account_views(before).push(r@));
            assert(ids_of(after) =~= ids_of(before).push(id));
            assert(has_id(after, id)) by {
                assert(after[before.len() as int].id == id);
            }
            assert forall|k: int, l: int| 0 <= k < l < after.len() implies (#[trigger] after[k]).id
                < (#[trigger] after[l]).id by {
                if l == before.len() {
                    assert(after[k] == before[k]);
                } else {
                    assert(after[k] == before[k]);
                    assert(after[l] == before[l]);
                }
            }
            assert forall|k: int| 0 <= k < after.len() implies 0 < (#[trigger] after[k]).id
                && after[k].id < id + 1 by {
                if k < before.len() {
                    assert(after[k] == before[k]);
                }
            }
        }
        Ok(r)
    }

    /// Adds an account with the next id and a new random uuid, kept in the
    /// directory named by the uuid under `dir`, and selects it.
    pub fn new_account(&mut self, dir: &str) -> (r: Result<AccountConfig, ConfigError>)
        requires
            old(self).wf(),
        ensures
            final(self).wf(),
            old(self).inner.next_id == u32::MAX ==> r == Err::<AccountConfig, ConfigError>(
                ConfigError::IdsExhausted,
            ) && *final(self) == *old(self),
            old(self).inner.next_id < u32::MAX ==> (r matches Ok(a) && a.id == old(
                self,
            ).inner.next_id && a.dir@ == path_join(dir@, a.uuid@) && a.uuid@.len() == 32
                && account_added(*old(self), *final(self), a@)),
    {
        let uuid = new_uuid_text();
        self.new_account_with_uuid(dir, uuid)
    }

    /// Removes account `id` from the registry. Where it was selected, the
    /// smallest remaining id is selected, or 0 when none remains.
    pub fn remove_account(&mut self, id: u32)
        requires
            old(self).wf(),
        ensures
            final(self).wf(),
            account_removed(*old(self), *final(self), id),
    {
        let ghost before = self.inner.accounts@;
        let mut i: usize = 0;
        while i < self.inner.accounts.len()
            invariant
                self.inner.accounts@ == before,
                0 <= i <= before.len(),
                forall|k: int| 0 <= k < i ==> (#[trigger] before[k]).id != id,
            ensures
                self.inner.accounts@ == before,
                0 <= i <= before.len(),
                forall|k: int| 0 <= k < i ==> (#[trigger] before[k]).id != id,
                i < before.len() ==> before[i as int].id == id,
            decreases before.len() - i,
        {
            if self.inner.accounts[i].id == id {
                break;
            }
            i = i + 1;
        }
        if i < self.inner.accounts.len() {
            let _ = self.inner.accounts.remove(i);
            proof {
                lemma_remove_keeps_order(before, i as int, self.inner.next_id);
                assert(has_id(before, id));
                assert(account_views(self.inner.accounts@) =~= account_views(before.remove(i as int)));
                assert(ids_of(self.inner.accounts@) =~= ids_of(before).remove(i as int));
            }
        } else {
            assert(!has_id(before, id));
        }
        if self.inner.selected_account == id {
            if self.inner.accounts.len() > 0 {
                self.inner.selected_account = self.inner.accounts[0].id;
                proof {
                    let a = self.inner.accounts@;
                    assert(has_id(a, a[0].id));
                    assert forall|k: int| 0 <= k < a.len() implies a[0].id <= (#[trigger] a[k]).id by {
                        if k > 0 {
                            assert(a[0].id < a[k].id);
                        }
                    }
                }
            } else {
                self.inner.selected_account = 0;
            }
        } else {
            proof {
                if before.len() > 0 {
                    assert(has_id(before, self.inner.selected_account));
                }
            }
        }
    }

    /// The accounts to open, in order: each id with its database file.
    pub fn load_accounts(&self) -> (r: Vec<(u32, String)>)
        ensures
            r@.len() == self.accounts().len(),
            forall|i: int|
                0 <= i < r@.len() ==> (#[trigger] r@[i]).0 == self.accounts()[i].id && r@[i].1@
                    == path_join(self.accounts()[i].dir@, DB_NAME@),
    {
        let mut r: Vec<(u32, String)> = Vec::new();
        let mut i: usize = 0;
        while i < self.inner.accounts.len()
            invariant
                0 <= i <= self.accounts().len(),
                r@.len() == i,
                forall|k: int|
                    0 <= k < i ==> (#[trigger] r@[k]).0 == self.accounts()[k].id && r@[k].1@
                        == path_join(self.accounts()[k].dir@, DB_NAME@),
            decreases self.accounts().len() - i,
        {
            let a = &self.inner.accounts[i];
            r.push((a.id, a.dbfile()));
            i = i + 1;
        }
        r
    }
}

/// Removing the row at `i` keeps a registry's ids positive, increasing and
/// below `next_id`, and drops exactly that row's id.
proof fn lemma_remove_keeps_order(before: Seq<AccountConfig>, i: int, next_id: u32)
    requires
        0 <= i < before.len(),
        forall|k: int| 0 <= k < before.len() ==> 0 < (#[trigger] before[k]).id && before[k].id < next_id,
        forall|k: int, l: int|
            0 <= k < l < before.len() ==> (#[trigger] before[k]).id < (#[trigger] before[l]).id,
    ensures
        forall|k: int|
            0 <= k < before.remove(i).len() ==> 0 < (#[trigger] before.remove(i)[k]).id
                && before.remove(i)[k].id < next_id,
        forall|k: int, l: int|
            0 <= k < l < before.remove(i).len() ==> (#[trigger] before.remove(i)[k]).id < (
            #[trigger] before.remove(i)[l]).id,
        !has_id(before.remove(i), before[i].id),
        forall|x: u32| x != before[i].id && has_id(before, x) ==> has_id(before.remove(i), x),
{
    let after = before.remove(i);
    assert forall|k: int| 0 <= k < after.len() implies 0 < (#[trigger] after[k]).id && after[k].id
        < next_id by {
        if k < i {
            assert(after[k] == before[k]);
        } else {
            assert(after[k] == before[k + 1]);
        }
    }
    assert forall|k: int, l: int| 0 <= k < l < after.len() implies (#[trigger] after[k]).id < (
    #[trigger] after[l]).id by {
        let k2 = if k < i { k } else { k + 1 };
        let l2 = if l < i { l } else { l + 1 };
        assert(after[k] == before[k2]);
        assert(after[l] == before[l2]);
    }
    if has_id(after, before[i].id) {
        let k = choose|k: int| 0 <= k < after.len() && (#[trigger] after[k]).id == before[i].id;
        if k < i {
            assert(after[k] == before[k]);
        } else {
            assert(after[k] == before[k + 1]);
        }
    }
    assert forall|x: u32| x != before[i].id && has_id(before, x) implies has_id(after, x) by {
        let k = choose|k: int| 0 <= k < before.len() && (#[trigger] before[k]).id == x;
        if k < i {
            assert(after[k] == before[k]);
        } else {
            assert(k != i);
            assert(after[k - 1] == before[k]);
        }
    }
}

/// The ids `1..=n`, in order.
pub open spec fn first_ids(n: nat) -> Seq<u32> {
    Seq::new(n, |i: int| (i + 1) as u32)
}

/// A run of additions: `states[k + 1]` is `states[k]` with account
/// `added[k]` added.
pub open spec fn additions(states: Seq<Config>, added: Seq<u32>) -> bool {
    &&& states.len() == added.len() + 1
    &&& forall|k: int| 0 <= k < added.len() ==> id_added(#[trigger] states[k], states[k + 1], added[k])
}

/// After `n` additions (`Config::new_account` or `Accounts::add_account`)
/// to a registry created empty, the accounts are `n`, their ids are `1..=n`
/// in increasing order and the next id is `n + 1`.
pub proof fn lemma_fresh_registry_ids(states: Seq<Config>, added: Seq<u32>)
    requires
        additions(states, added),
        states[0].accounts().len() == 0,
        states[0].inner.next_id == 1,
    ensures
        states.last().accounts().len() == added.len(),
        ids_of(states.last().accounts()) == first_ids(added.len()),
        states.last().inner.next_id == added.len() + 1,
        forall|i: int, j: int|
            0 <= i < j < added.len() ==> (#[trigger] ids_of(states.last().accounts())[i]) < (
            #[trigger] ids_of(states.last().accounts())[j]),
    decreases added.len(),
{
    let n = added.len() as int;
    if n == 0 {
        assert(ids_of(states[0].accounts()) =~= first_ids(0));
    } else {
        let s0 = states.drop_last();
        let a0 = added.drop_last();
        assert forall|k: int| 0 <= k < a0.len() implies id_added(#[trigger] s0[k], s0[k + 1], a0[k]) by {
            assert(id_added(states[k], states[k + 1], added[k]));
        }
        lemma_fresh_registry_ids(s0, a0);
        let prev = states[n - 1];
        assert(prev == s0.last());
        assert(id_added(states[n - 1], states[n], added[n - 1]));
        assert(ids_of(states.last().accounts()) =~= first_ids(n as nat));
    }
}

/// Account manager: the registry of an accounts directory and an open
/// account of type `C` for each account in it, in the same order.
#[derive(Debug)]
pub struct Accounts<C> {
    pub dir: String,
    pub config: Config,
    pub accounts: Vec<(u32, C)>,
}

impl<C> Accounts<C> {
    pub open spec fn wf(&self) -> bool {
        &&& self.config.wf()
        &&& self.accounts@.len() == self.config.accounts().len()
        &&& forall|i: int|
            0 <= i < self.accounts@.len() ==> (#[trigger] self.accounts@[i]).0
                == self.config.accounts()[i].id
    }

    /// The open accounts of the registry `config` of directory `dir`:
    /// `opened[i]` is the account `config.load_accounts()[i]`.
    pub fn open(dir: String, config: Config, opened: Vec<C>) -> (r: Result<Accounts<C>, ConfigError>)
        requires
            config.wf(),
        ensures
            opened@.len() == config.accounts().len() ==> (r matches Ok(a) && a.wf() && a.dir == dir
                && a.config == config && forall|i: int|
                0 <= i < opened@.len() ==> (#[trigger] a.accounts@[i]).1 == opened@[i]),
            opened@.len() != config.accounts().len() ==> r == Err::<Accounts<C>, ConfigError>(
                ConfigError::Inconsistent,
            ),
    {
        if opened.len() != config.inner.accounts.len() {
            return Err(ConfigError::Inconsistent);
        }
        let mut accounts: Vec<(u32, C)> = Vec::new();
        let mut rest = opened;
        let ghost all = rest@;
        let n = rest.len();
        let mut i: usize = 0;
        while i < n
            invariant
                n == all.len() == config.accounts().len(),
                0 <= i <= n,
                rest@ == all.subrange(i as int, n as int),
                accounts@.len() == i,
                forall|k: int|
                    0 <= k < i ==> (#[trigger] accounts@[k]).0 == config.accounts()[k].id
                        && accounts@[k].1 == all[k],
            decreases n - i,
        {
            let c = rest.remove(0);
            accounts.push((config.inner.accounts[i].id, c));
            proof {
                assert(rest@ =~= all.subrange(i + 1, n as int));
            }
            i = i + 1;
        }
        Ok(Accounts { dir, config, accounts })
    }

    /// The open account `id`.
    pub fn get_account(&self, id: u32) -> (r: Option<&C>)
        requires
            self.wf(),
        ensures
            match r {
                Some(c) => exists|i: int|
                    0 <= i < self.accounts@.len() && (#[trigger] self.accounts@[i]).0 == id && *c
                        == self.accounts@[i].1,
                None => !has_id(self.config.accounts(), id),
            },
    {
        let mut i: usize = 0;
        while i < self.accounts.len()
            invariant
                self.wf(),
                0 <= i <= self.accounts@.len(),
                forall|k: int| 0 <= k < i ==> (#[trigger] self.accounts@[k]).0 != id,
            decreases self.accounts@.len() - i,
        {
            if self.accounts[i].0 == id {
                return Some(&self.accounts[i].1);
            }
            i = i + 1;
        }
        proof {
            if has_id(self.config.accounts(), id) {
                let k = choose|k: int|
                    0 <= k < self.config.accounts().len() && (#[trigger] self.config.accounts()[k]).id
                        == id;
                assert(self.accounts@[k].0 == id);
            }
        }
        None
    }

    /// The selected account; there is one whenever there is any account.
    pub fn get_selected_account(&self) -> (r: &C)
        requires
            self.wf(),
            self.accounts@.len() > 0,
        ensures
            exists|i: int|
                0 <= i < self.accounts@.len() && (#[trigger] self.accounts@[i]).0
                    == self.config.inner.selected_account && *r == self.accounts@[i].1,
    {
        let id = self.config.get_selected_account();
        match self.get_account(id) {
            Some(c) => c,
            None => {
                proof {
                    assert(has_id(self.config.accounts(), id));
                }
                &self.accounts[0].1
            },
        }
    }

    /// Selects account `id`, which must exist.
    pub fn select_account(&mut self, id: u32) -> (r: Result<(), ConfigError>)
        requires
            old(self).wf(),
        ensures
            final(self).wf(),
            has_id(old(self).config.accounts(), id) ==> r is Ok
                && final(self).config.inner.selected_account == id,
            !has_id(old(self).config.accounts(), id) ==> r == Err::<(), ConfigError>(
                ConfigError::InvalidAccountId { id },
            ) && final(self).config.inner.selected_account
                == old(self).config.inner.selected_account,
            final(self).config.accounts() == old(self).config.accounts(),
            final(self).accounts@ == old(self).accounts@,
    {
        self.config.select_account(id)
    }

    /// The ids of all accounts, in increasing order.
    pub fn get_all(&self) -> (r: Vec<u32>)
        requires
            self.wf(),
        ensures
            r@ == ids_of(self.config.accounts()),
            forall|i: int, j: int| 0 <= i < j < r@.len() ==> (#[trigger] r@[i]) < (#[trigger] r@[j]),
    {
        let mut r: Vec<u32> = Vec::new();
        let mut i: usize = 0;
        while i < self.accounts.len()
            invariant
                self.wf(),
                0 <= i <= self.accounts@.len(),
                r@ == ids_of(self.config.accounts()).take(i as int),
            decreases self.accounts@.len() - i,
        {
            r.push(self.accounts[i].0);
            proof {
                assert(r@ =~= ids_of(self.config.accounts()).take(i + 1));
            }
            i = i + 1;
        }
        proof {
            assert(r@ =~= ids_of(self.config.accounts()));
        }
        r
    }

    /// Adds an account and selects it. `open` sets up its data from the new
    /// registry entry and opens it, or gives `None`; the entry is then taken
    /// out again and the earlier selection restored.
    pub fn add_account<F: FnOnce(&AccountConfig) -> Option<C>>(&mut self, open: F) -> (r: Result<
        u32,
        ConfigError,
    >)
        requires
            old(self).wf(),
            forall|a: &AccountConfig| call_requires(open, (a,)),
        ensures
            final(self).wf(),
            old(self).config.inner.next_id == u32::MAX ==> r == Err::<u32, ConfigError>(
                ConfigError::IdsExhausted,
            ),
            old(self).config.inner.next_id < u32::MAX ==> r is Ok || r == Err::<u32, ConfigError>(
                ConfigError::OpenFailed,
            ),
            r is Ok ==> id_added(old(self).config, final(self).config, r->Ok_0) && exists|
                a: &AccountConfig,
                c: C,
            |
                a.id == r->Ok_0 && #[trigger] call_ensures(open, (a,), Some(c))
                    && final(self).accounts@ == old(self).accounts@.push((r->Ok_0, c)),
            r == Err::<u32, ConfigError>(ConfigError::OpenFailed) ==> exists|a: &AccountConfig|
                a.id == old(self).config.inner.next_id && #[trigger] call_ensures(
                    open,
                    (a,),
                    None,
                ),
            r is Err ==> ids_of(final(self).config.accounts()) == ids_of(
                old(self).config.accounts(),
            ) && final(self).config.inner.selected_account
                == old(self).config.inner.selected_account,
    {
        let old_id = self.config.get_selected_account();
        let ghost before = self.config.accounts();
        let acc = match self.config.new_account(self.dir.as_str()) {
            Ok(acc) => acc,
            Err(e) => {
                return Err(e);
            },
        };
        let id = acc.id;
        let ghost mid = self.config.accounts();
        let ghost accs = self.accounts@;
        let opened = open(&acc);
        match opened {
            Some(ctx) => {
                self.accounts.push((id, ctx));
                proof {
                    let cur = self.config.accounts();
                    assert(ids_of(cur).len() == cur.len());
                    assert(ids_of(before).len() == before.len());
                    assert(ids_of(cur)[before.len() as int] == id);
                    assert forall|k: int| 0 <= k < self.accounts@.len() implies (
                    #[trigger] self.accounts@[k]).0 == self.config.accounts()[k].id by {
                        assert(ids_of(cur)[k] == cur[k].id);
                        if k < before.len() {
                            assert(ids_of(before)[k] == before[k].id);
                            assert(self.accounts@[k] == accs[k]);
                        }
                    }
                }
                Ok(id)
            },
            None => {
                self.config.remove_account(id);
                proof {
                    lemma_undo_added(before, mid, self.config.accounts(), id);
                    lemma_views_ids(self.config.accounts(), before);
                    if before.len() > 0 {
                        let k = choose|k: int| 0 <= k < before.len() && (#[trigger] before[k]).id == old_id;
                        assert(self.config.accounts()[k].id == old_id);
                    }
                }
                if old_id != 0 {
                    let _ = self.config.select_account(old_id);
                }
                proof {
                    assert forall|k: int| 0 <= k < self.accounts@.len() implies (
                    #[trigger] self.accounts@[k]).0 == self.config.accounts()[k].id by {
                        assert(self.config.accounts()[k].id == before[k].id);
                    }
                }
                Err(ConfigError::OpenFailed)
            },
        }
    }

    /// Takes account `id` out of the manager and the registry and hands it
    /// back, with its entry, so that the caller stops it and removes its
    /// directory. Where it was selected, the smallest remaining id is
    /// selected, or 0 when none remains.
    pub fn remove_account(&mut self, id: u32) -> (r: Result<(C, AccountConfig), ConfigError>)
        requires
            old(self).wf(),
        ensures
            final(self).wf(),
            !has_id(old(self).config.accounts(), id) ==> r is Err && r->Err_0 == (
            ConfigError::InvalidAccountId { id }) && final(self).config == old(self).config,
            has_id(old(self).config.accounts(), id) ==> (r matches Ok(p) && account_removed(
                old(self).config,
                final(self).config,
                id,
            ) && exists|i: int|
                0 <= i < old(self).accounts@.len() && (#[trigger] old(self).accounts@[i]).0 == id
                    && p.0 == old(self).accounts@[i].1 && p.1@ == old(self).config.accounts()[i]@
                    && final(self).accounts@ == old(self).accounts@.remove(i)),
    {
        let mut i: usize = 0;
        while i < self.accounts.len()
            invariant
                self.wf(),
                0 <= i <= self.accounts@.len(),
                forall|k: int| 0 <= k < i ==> (#[trigger] self.accounts@[k]).0 != id,
            ensures
                self.wf(),
                0 <= i <= self.accounts@.len(),
                forall|k: int| 0 <= k < i ==> (#[trigger] self.accounts@[k]).0 != id,
                i < self.accounts@.len() ==> self.accounts@[i as int].0 == id,
            decreases self.accounts@.len() - i,
        {
            if self.accounts[i].0 == id {
                break;
            }
            i = i + 1;
        }
        if i == self.accounts.len() {
            proof {
                if has_id(self.config.accounts(), id) {
                    let k = choose|k: int|
                        0 <= k < self.config.accounts().len()
                            && (#[trigger] self.config.accounts()[k]).id == id;
                    assert(self.accounts@[k].0 == id);
                }
            }
            return Err(ConfigError::InvalidAccountId { id });
        }
        let ghost before = self.config.accounts();
        let ghost accs = self.accounts@;
        let entry = self.config.inner.accounts[i].clone();
        let (_, ctx) = self.accounts.remove(i);
        self.config.remove_account(id);
        proof {
            assert(accs[i as int].0 == id);
            assert(before[i as int].id == id);
            let w = choose|w: int|
                0 <= w < before.len() && (#[trigger] before[w]).id == id && account_views(
                    self.config.accounts(),
                ) == account_views(before.remove(w));
            assert(w == i) by {
                if w < i {
                    assert(before[w].id < before[i as int].id);
                } else if w > i {
                    assert(before[i as int].id < before[w].id);
                }
            }
            lemma_views_ids(self.config.accounts(), before.remove(i as int));
            assert forall|k: int| 0 <= k < self.accounts@.len() implies (
            #[trigger] self.accounts@[k]).0 == self.config.accounts()[k].id by {
                if k < i {
                    assert(self.accounts@[k] == accs[k]);
                    assert(before.remove(i as int)[k] == before[k]);
                } else {
                    assert(self.accounts@[k] == accs[k + 1]);
                    assert(before.remove(i as int)[k] == before[k + 1]);
                }
            }
        }
        Ok((ctx, entry))
    }
}

/// Accounts with the same views have the same ids.
proof fn lemma_views_ids(a: Seq<AccountConfig>, b: Seq<AccountConfig>)
    requires
        account_views(a) == account_views(b),
    ensures
        a.len() == b.len(),
        forall|k: int| 0 <= k < a.len() ==> (#[trigger] a[k]).id == b[k].id,
{
    assert(account_views(a).len() == a.len());
    assert(account_views(b).len() == b.len());
    assert forall|k: int| 0 <= k < a.len() implies (#[trigger] a[k]).id == b[k].id by {
        assert(account_views(a)[k] == account_views(b)[k]);
    }
}

/// Removing the account just added gives the accounts back as they were.
proof fn lemma_undo_added(before: Seq<AccountConfig>, mid: Seq<AccountConfig>, after: Seq<AccountConfig>, id: u32)
    requires
        ids_of(mid) == ids_of(before).push(id),
        exists|v: (u32, Seq<char>, Seq<char>)| account_views(mid) == account_views(before).push(v),
        forall|k: int, l: int| 0 <= k < l < mid.len() ==> (#[trigger] mid[k]).id < (#[trigger] mid[l]).id,
        exists|w: int|
            0 <= w < mid.len() && (#[trigger] mid[w]).id == id && account_views(after) == account_views(
                mid.remove(w),
            ),
    ensures
        ids_of(after) == ids_of(before),
        account_views(after) == account_views(before),
{
    let n = before.len() as int;
    assert(ids_of(mid).len() == n + 1);
    assert(mid[n].id == ids_of(mid)[n]);
    let w = choose|w: int|
        0 <= w < mid.len() && (#[trigger] mid[w]).id == id && account_views(after) == account_views(
            mid.remove(w),
        );
    if w < n {
        assert(mid[w].id < mid[n].id);
    }
    assert(w == n);
    assert(mid.remove(n) =~= mid.drop_last());
    let v = choose|v: (u32, Seq<char>, Seq<char>)| account_views(mid) == account_views(before).push(v);
    assert(account_views(mid.drop_last()) =~= account_views(mid).drop_last());
    assert(account_views(mid).drop_last() =~= account_views(before));
    lemma_views_ids(after, before);
    assert(ids_of(after) =~= ids_of(before));
}

} // verus!
