//! The database of shutter profiles, one for each display and refresh rate.
//!
//! A profile is keyed `VENDOR_PRODUCT_REFRESH`, such as `ACI_23F7_120`.  What a
//! profile holds is up to the user of the database.

use crate::text;
use vstd::prelude::*;

verus! {

/// Name of the database file.
pub const DEFAULT_PATH: &'static str = "monitor_timings.json";

/// Name of the setting that overrides the path of the database.
pub const ENV_PATH: &'static str = "NVSTUSB_TIMINGS_JSON";

// ---------------------------------------------------------------------------
// Where the database is
// ---------------------------------------------------------------------------

/// A path with one more component.
pub open spec fn beneath(dir: Seq<char>, name: Seq<char>) -> Seq<char> {
    if dir.len() > 0 && dir.last() != '/' {
        dir + "/"@ + name
    } else {
        dir + name
    }
}

fn join(dir: &str, name: &str) -> (p: String)
    ensures
        p@ == beneath(dir@, name@),
{
    let chars: Vec<char> = text::chars_of(dir);
    let mut p: String = dir.to_owned();
    if chars.len() > 0 && chars[chars.len() - 1] != '/' {
        p.append("/");
    }
    p.append(name);
    p
}

/// The directory of the user's settings: that of the desktop's settings, else
/// `.config` in the home directory.
pub open spec fn settings_base(xdg: Option<Seq<char>>, home: Option<Seq<char>>) -> Option<
    Seq<char>,
> {
    if xdg matches Some(x) && x.len() > 0 {
        xdg
    } else if home matches Some(h) && h.len() > 0 {
        Some(beneath(home->0, ".config"@))
    } else {
        None
    }
}

/// The directory of this program's settings.
pub open spec fn settings_dir(xdg: Option<Seq<char>>, home: Option<Seq<char>>) -> Option<
    Seq<char>,
> {
    match settings_base(xdg, home) {
        Some(b) => Some(beneath(b, "nvstereo3d"@)),
        None => None,
    }
}

fn given(s: Option<&str>) -> (g: Option<&str>)
    ensures
        match s {
            Some(x) => if x@.len() > 0 {
                g == Some(x)
            } else {
                g is None
            },
            None => g is None,
        },
{
    match s {
        Some(x) => if text::chars_of(x).len() > 0 {
            Some(x)
        } else {
            None
        },
        None => None,
    }
}

/// The directory of this program's settings, from the user's two variables.
/// One that is empty counts as not set.
pub fn config_dir(xdg: Option<&str>, home: Option<&str>) -> (dir: Option<String>)
    ensures
        match dir {
            Some(d) => settings_dir(text::chars_if_any(xdg), text::chars_if_any(home)) == Some(d@),
            None => settings_dir(text::chars_if_any(xdg), text::chars_if_any(home)) is None,
        },
{
    match given(xdg) {
        Some(x) => Some(join(x, "nvstereo3d")),
        None => match given(home) {
            Some(h) => {
                let base: String = join(h, ".config");
                Some(join(base.as_str(), "nvstereo3d"))
            },
            None => None,
        },
    }
}

/// The path of the database: the one that was asked for, else the file in the
/// working directory where there is one, else the one in the user's settings.
pub fn db_path(
    asked: Option<&str>,
    local_exists: bool,
    xdg: Option<&str>,
    home: Option<&str>,
) -> (path: String)
    ensures
        path@ == (match text::chars_if_any(asked) {
            Some(p) => p,
            None => if local_exists {
                DEFAULT_PATH@
            } else {
                match settings_dir(text::chars_if_any(xdg), text::chars_if_any(home)) {
                    Some(d) => beneath(d, DEFAULT_PATH@),
                    None => DEFAULT_PATH@,
                }
            },
        }),
{
    if let Some(p) = asked {
        return p.to_owned();
    }
    if local_exists {
        return DEFAULT_PATH.to_owned();
    }
    match config_dir(xdg, home) {
        Some(d) => join(d.as_str(), DEFAULT_PATH),
        None => DEFAULT_PATH.to_owned(),
    }
}

// ---------------------------------------------------------------------------
// Keys
// ---------------------------------------------------------------------------

/// The key of a display at a refresh rate.
pub open spec fn key_of(base: Seq<char>, refresh: int) -> Seq<char> {
    base + "_"@ + text::signed_decimal(refresh)
}

/// The key of a display at a refresh rate.
pub fn key_for(base: &str, refresh: i64) -> (k: String)
    ensures
        k@ == key_of(base@, refresh as int),
{
    let mut k: String = base.to_owned();
    k.append("_");
    text::push_signed(&mut k, refresh);
    k
}

/// The refresh rate in a key of the display `base`.
pub open spec fn rate_in(key: Seq<char>, base: Seq<char>) -> Option<int> {
    let prefix = base + "_"@;
    if text::has_prefix(key, prefix) && text::all_digits(key.skip(prefix.len() as int))
        && text::digits_value(key.skip(prefix.len() as int)) <= i64::MAX {
        Some(text::digits_value(key.skip(prefix.len() as int)))
    } else {
        None
    }
}

fn rate_of(key: &Vec<char>, prefix: &Vec<char>, base: &str) -> (r: Option<u64>)
    requires
        prefix@ == base@ + "_"@,
    ensures
        match r {
            Some(n) => rate_in(key@, base@) == Some(n as int),
            None => rate_in(key@, base@) is None,
        },
{
    assert(key@.skip(0) =~= key@);
    if !text::matches_at(key, 0, prefix) {
        return None;
    }
    text::read_digits(key, prefix.len(), i64::MAX as u64)
}

/// The key of a rate holds that rate.
pub proof fn a_key_holds_its_rate(base: Seq<char>, refresh: int)
    requires
        0 <= refresh <= i64::MAX,
    ensures
        rate_in(key_of(base, refresh), base) == Some(refresh),
{
    let prefix = base + "_"@;
    let key = key_of(base, refresh);
    text::decimal_reads_back(refresh as nat);
    assert(key.take(prefix.len() as int) =~= prefix);
    assert(key.skip(prefix.len() as int) =~= text::decimal(refresh as nat));
}

// ---------------------------------------------------------------------------
// Order of keys
// ---------------------------------------------------------------------------

/// `a` comes before `b`: at the first difference it has the smaller character,
/// or it ends there.
pub open spec fn before(a: Seq<char>, b: Seq<char>) -> bool
    decreases a.len(),
{
    b.len() > 0 && (a.len() == 0 || a[0] < b[0] || (a[0] == b[0] && before(a.skip(1), b.skip(1))))
}

proof fn lemma_before_irreflexive(a: Seq<char>)
    ensures
        !before(a, a),
    decreases a.len(),
{
    if a.len() > 0 {
        lemma_before_irreflexive(a.skip(1));
    }
}

proof fn lemma_before_transitive(a: Seq<char>, b: Seq<char>, c: Seq<char>)
    requires
        before(a, b),
        before(b, c),
    ensures
        before(a, c),
    decreases a.len(),
{
    if a.len() > 0 && a[0] == b[0] && b[0] == c[0] {
        lemma_before_transitive(a.skip(1), b.skip(1), c.skip(1));
    }
}

proof fn lemma_before_total(a: Seq<char>, b: Seq<char>)
    ensures
        before(a, b) || a == b || before(b, a),
    decreases a.len(),
{
    if a.len() == 0 {
        if b.len() == 0 {
            assert(a =~= b);
        }
    } else if b.len() > 0 && a[0] == b[0] {
        lemma_before_total(a.skip(1), b.skip(1));
        if a.skip(1) == b.skip(1) {
            assert(a =~= seq![a[0]] + a.skip(1));
            assert(b =~= seq![b[0]] + b.skip(1));
        }
    }
}

fn comes_before(a: &Vec<char>, b: &Vec<char>) -> (r: bool)
    ensures
        r == before(a@, b@),
{
    let mut i: usize = 0;
    assert(a@.skip(0) =~= a@);
    assert(b@.skip(0) =~= b@);
    while i < a.len() && i < b.len()
        invariant
            i <= a@.len(),
            i <= b@.len(),
            before(a@, b@) == before(a@.skip(i as int), b@.skip(i as int)),
        decreases a@.len() - i,
    {
        proof {
            assert(a@.skip(i as int)[0] == a@[i as int]);
            assert(b@.skip(i as int)[0] == b@[i as int]);
            assert(a@.skip(i as int).skip(1) =~= a@.skip(i + 1));
            assert(b@.skip(i as int).skip(1) =~= b@.skip(i + 1));
        }
        if a[i] < b[i] {
            return true;
        }
        if b[i] < a[i] {
            return false;
        }
        i += 1;
    }
    i < b.len()
}

// ---------------------------------------------------------------------------
// The database
// ---------------------------------------------------------------------------

/// A profile with its key.
#[derive(Debug)]
pub struct DbEntry<E> {
    pub key: String,
    pub profile: E,
}

/// Profiles in the order of their keys.
#[derive(Debug)]
pub struct TimingsDb<E> {
    pub entries: Vec<DbEntry<E>>,
}

impl<E> TimingsDb<E> {
    /// The keys ascend.
    pub open spec fn wf(&self) -> bool {
        forall|i: int, j: int|
            0 <= i < j < self.entries@.len() ==> before(
                (#[trigger] self.entries@[i]).key@,
                (#[trigger] self.entries@[j]).key@,
            )
    }

    /// The entry with that key.
    pub open spec fn is_at(&self, key: Seq<char>, i: int) -> bool {
        0 <= i < self.entries@.len() && self.entries@[i].key@ == key
    }

    /// The profiles by key.
    pub open spec fn profiles(&self) -> Map<Seq<char>, E> {
        Map::new(
            |k: Seq<char>| exists|i: int| self.is_at(k, i),
            |k: Seq<char>| self.entries@[choose|i: int| self.is_at(k, i)].profile,
        )
    }

    proof fn lemma_at(&self, key: Seq<char>, i: int)
        requires
            self.wf(),
            self.is_at(key, i),
        ensures
            self.profiles().dom().contains(key),
            self.profiles()[key] == self.entries@[i].profile,
            forall|j: int| self.is_at(key, j) ==> j == i,
    {
        assert forall|j: int| self.is_at(key, j) implies j == i by {
            lemma_before_irreflexive(key);
            if j < i {
                assert(before(self.entries@[j].key@, self.entries@[i].key@));
            } else if i < j {
                assert(before(self.entries@[i].key@, self.entries@[j].key@));
            }
        }
        let c = choose|c: int| self.is_at(key, c);
        assert(self.is_at(key, c));
    }

    /// An empty database.
    pub fn new() -> (db: Self)
        ensures
            db.wf(),
            db.profiles() == Map::<Seq<char>, E>::empty(),
    {
        let db: Self = TimingsDb { entries: Vec::new() };
        assert(db.profiles() =~= Map::empty());
        db
    }

    /// The number of profiles.
    pub fn len(&self) -> (n: usize)
        ensures
            n == self.entries@.len(),
    {
        self.entries.len()
    }

    /// Where `key` is, or where it belongs.
    fn place(&self, key: &Vec<char>) -> (at: (usize, bool))
        requires
            self.wf(),
        ensures
            at.0 <= self.entries@.len(),
            at.1 ==> self.is_at(key@, at.0 as int),
            !at.1 ==> forall|i: int| !self.is_at(key@, i),
            forall|i: int| 0 <= i < at.0 ==> before((#[trigger] self.entries@[i]).key@, key@),
            !at.1 ==> forall|i: int|
                at.0 <= i < self.entries@.len() ==> before(key@, (#[trigger] self.entries@[i]).key@),
    {
        let mut i: usize = 0;
        while i < self.entries.len()
            invariant
                i <= self.entries@.len(),
                self.wf(),
                forall|j: int| 0 <= j < i ==> before((#[trigger] self.entries@[j]).key@, key@),
            decreases self.entries@.len() - i,
        {
            let k: Vec<char> = text::chars_of(self.entries[i].key.as_str());
            if text::same(&k, key) {
                return (i, true);
            }
            if !comes_before(&k, key) {
                proof {
                    lemma_before_total(k@, key@);
                    lemma_before_irreflexive(key@);
                    assert forall|j: int| i <= j < self.entries@.len() implies before(
                        key@,
                        (#[trigger] self.entries@[j]).key@,
                    ) by {
                        if j > i {
                            lemma_before_transitive(
                                key@,
                                self.entries@[i as int].key@,
                                self.entries@[j].key@,
                            );
                        }
                    }
                    assert forall|j: int| !self.is_at(key@, j) by {
                        if self.is_at(key@, j) && j < i {
                            assert(before(self.entries@[j].key@, key@));
                        }
                    }
                }
                return (i, false);
            }
            i += 1;
        }
        proof {
            lemma_before_irreflexive(key@);
            assert forall|j: int| !self.is_at(key@, j) by {
                if self.is_at(key@, j) {
                    assert(before(self.entries@[j].key@, key@));
                }
            }
        }
        (i, false)
    }

    /// The profile with that key.
    pub fn get(&self, key: &str) -> (p: Option<&E>)
        requires
            self.wf(),
        ensures
            match p {
                Some(e) => self.profiles().dom().contains(key@) && *e == self.profiles()[key@],
                None => !self.profiles().dom().contains(key@),
            },
    {
        let (at, found): (usize, bool) = self.place(&text::chars_of(key));
        if found {
            proof {
                self.lemma_at(key@, at as int);
            }
            Some(&self.entries[at].profile)
        } else {
            None
        }
    }

    /// Puts a profile in, in place of the one that had its key.
    pub fn insert(&mut self, key: String, profile: E)
        requires
            old(self).wf(),
        ensures
            final(self).wf(),
            final(self).profiles() == old(self).profiles().insert(key@, profile),
    {
        let ghost was = *self;
        let ghost k = key@;
        let chars: Vec<char> = text::chars_of(key.as_str());
        let (at, found): (usize, bool) = self.place(&chars);
        if found {
            self.entries.remove(at);
        }
        let ghost rest = *self;
        proof {
            // Without the key, everything before `at` precedes it, and everything from
            // there on follows it.
            assert forall|i: int| 0 <= i < rest.entries@.len() implies if i < at {
                before((#[trigger] rest.entries@[i]).key@, k)
            } else {
                before(k, rest.entries@[i].key@)
            } by {
                if i < at {
                    assert(rest.entries@[i] == was.entries@[i]);
                } else if found {
                    assert(rest.entries@[i] == was.entries@[i + 1]);
                    assert(before(was.entries@[at as int].key@, was.entries@[i + 1].key@));
                } else {
                    assert(rest.entries@[i] == was.entries@[i]);
                }
            }
            assert forall|i: int, j: int| 0 <= i < j < rest.entries@.len() implies before(
                (#[trigger] rest.entries@[i]).key@,
                (#[trigger] rest.entries@[j]).key@,
            ) by {
                let a = if found && i >= at {
                    i + 1
                } else {
                    i
                };
                let b = if found && j >= at {
                    j + 1
                } else {
                    j
                };
                assert(rest.entries@[i] == was.entries@[a]);
                assert(rest.entries@[j] == was.entries@[b]);
                assert(before(was.entries@[a].key@, was.entries@[b].key@));
            }
        }
        self.entries.insert(at, DbEntry { key, profile });
        proof {
            let new = *self;
            assert forall|i: int, j: int| 0 <= i < j < new.entries@.len() implies before(
                (#[trigger] new.entries@[i]).key@,
                (#[trigger] new.entries@[j]).key@,
            ) by {
                let a = if i > at {
                    i - 1
                } else {
                    i
                };
                let b = if j > at {
                    j - 1
                } else {
                    j
                };
                if i != at {
                    assert(new.entries@[i] == rest.entries@[a]);
                }
                if j != at {
                    assert(new.entries@[j] == rest.entries@[b]);
                }
                if i != at && j != at {
                    assert(before(rest.entries@[a].key@, rest.entries@[b].key@));
                }
            }
            assert(new.wf());
            assert(new.is_at(k, at as int));
            new.lemma_at(k, at as int);
            assert forall|q: Seq<char>| q != k implies (#[trigger] new.profiles().dom().contains(q)
                == was.profiles().dom().contains(q)) && (was.profiles().dom().contains(q)
                ==> new.profiles()[q] == was.profiles()[q]) by {
                if new.profiles().dom().contains(q) {
                    let i = choose|i: int| new.is_at(q, i);
                    assert(new.is_at(q, i));
                    let a = if i > at {
                        i - 1
                    } else {
                        i
                    };
                    assert(new.entries@[i] == rest.entries@[a]);
                    let b = if found && a >= at {
                        a + 1
                    } else {
                        a
                    };
                    assert(rest.entries@[a] == was.entries@[b]);
                    assert(was.is_at(q, b));
                }
                if was.profiles().dom().contains(q) {
                    let b = choose|b: int| was.is_at(q, b);
                    assert(was.is_at(q, b));
                    was.lemma_at(q, b);
                    let a = if found && b > at {
                        b - 1
                    } else {
                        b
                    };
                    assert(rest.entries@[a] == was.entries@[b]);
                    let i = if a >= at {
                        a + 1
                    } else {
                        a
                    };
                    assert(new.entries@[i] == rest.entries@[a]);
                    assert(new.is_at(q, i));
                    new.lemma_at(q, i);
                }
            }
            let grown = was.profiles().insert(k, profile);
            assert(new.profiles()[k] == profile);
            assert forall|q: Seq<char>| #[trigger]
                new.profiles().dom().contains(q) == grown.dom().contains(q) by {
                if q != k {
                    assert(new.profiles().dom().contains(q) == was.profiles().dom().contains(q));
                }
            }
            assert(new.profiles().dom() =~= grown.dom());
            assert forall|q: Seq<char>| #[trigger]
                grown.dom().contains(q) implies new.profiles()[q] == grown[q] by {
                if q != k {
                    assert(was.profiles().dom().contains(q));
                }
            }
            assert(new.profiles() =~= grown);
        }
    }

    /// A database with that profile alone, which is how a profile is saved.
    pub fn single(key: String, profile: E) -> (db: Self)
        ensures
            db.wf(),
            db.profiles() == Map::<Seq<char>, E>::empty().insert(key@, profile),
    {
        let mut db: Self = TimingsDb::new();
        db.insert(key, profile);
        db
    }
}

/// `key` is the display's profile of the highest rate; among several of that
/// rate, the first.
pub open spec fn is_highest(keys: Set<Seq<char>>, base: Seq<char>, key: Seq<char>) -> bool {
    &&& keys.contains(key)
    &&& rate_in(key, base) is Some
    &&& forall|k: Seq<char>| #[trigger]
        keys.contains(k) && rate_in(k, base) is Some ==> rate_in(k, base)->0 < rate_in(
            key,
            base,
        )->0 || (rate_in(k, base) == rate_in(key, base) && (k == key || before(key, k)))
}

/// `key` is the profile to use for a display at a rate: that of the rate
/// itself, else that of the display's highest rate.
pub open spec fn resolves_to(
    keys: Set<Seq<char>>,
    base: Seq<char>,
    refresh: int,
    key: Seq<char>,
) -> bool {
    if keys.contains(key_of(base, refresh)) {
        key == key_of(base, refresh)
    } else {
        is_highest(keys, base, key)
    }
}

/// The display's profile of the highest rate.
fn highest_for_base<'a, E>(db: &'a TimingsDb<E>, base: &str) -> (found: Option<(String, &'a E)>)
    requires
        db.wf(),
    ensures
        match found {
            Some((key, e)) => is_highest(db.profiles().dom(), base@, key@) && *e
                == db.profiles()[key@],
            None => forall|k: Seq<char>| #[trigger]
                db.profiles().dom().contains(k) ==> rate_in(k, base@) is None,
        },
{
    let mut prefix: String = base.to_owned();
    prefix.append("_");
    let prefix: Vec<char> = text::chars_of(prefix.as_str());
    let mut best: Option<(usize, u64)> = None;
    let mut i: usize = 0;
    while i < db.entries.len()
        invariant
            i <= db.entries@.len(),
            prefix@ == base@ + "_"@,
            match best {
                Some((b, r)) => {
                    &&& b < i
                    &&& rate_in(db.entries@[b as int].key@, base@) == Some(r as int)
                    &&& forall|j: int|
                        0 <= j < i && rate_in((#[trigger] db.entries@[j]).key@, base@) is Some ==> {
                            let rj = rate_in(db.entries@[j].key@, base@)->0;
                            rj < r || (rj == r && b <= j)
                        }
                },
                None => forall|j: int|
                    0 <= j < i ==> rate_in((#[trigger] db.entries@[j]).key@, base@) is None,
            },
        decreases db.entries@.len() - i,
    {
        let key: Vec<char> = text::chars_of(db.entries[i].key.as_str());
        if let Some(r) = rate_of(&key, &prefix, base) {
            match best {
                Some((_, top)) => {
                    if r > top {
                        best = Some((i, r));
                    }
                },
                None => {
                    best = Some((i, r));
                },
            }
        }
        i += 1;
    }
    match best {
        None => {
            proof {
                assert forall|k: Seq<char>| #[trigger]
                    db.profiles().dom().contains(k) implies rate_in(k, base@) is None by {
                    let j = choose|j: int| db.is_at(k, j);
                    assert(db.is_at(k, j));
                    assert(db.entries@[j].key@ == k);
                }
            }
            None
        },
        Some((b, r)) => {
            let ghost key = db.entries@[b as int].key@;
            proof {
                assert(db.is_at(key, b as int));
                db.lemma_at(key, b as int);
                assert forall|k: Seq<char>| #[trigger]
                    db.profiles().dom().contains(k) && rate_in(k, base@) is Some implies rate_in(
                    k,
                    base@,
                )->0 < rate_in(key, base@)->0 || (rate_in(k, base@) == rate_in(key, base@) && (k
                    == key || before(key, k))) by {
                    let j = choose|j: int| db.is_at(k, j);
                    assert(db.is_at(k, j));
                    assert(db.entries@[j].key@ == k);
                    if b < j {
                        assert(before(db.entries@[b as int].key@, db.entries@[j].key@));
                    }
                }
            }
            Some((db.entries[b].key.clone(), &db.entries[b].profile))
        },
    }
}

/// The profile to use for a display at a rounded refresh rate, with its key:
/// that of the rate itself, else that of the display's highest rate.
pub fn resolve<'a, E>(db: &'a TimingsDb<E>, base: &str, refresh: i64) -> (found: Option<
    (String, &'a E),
>)
    requires
        db.wf(),
    ensures
        match found {
            Some((key, e)) => resolves_to(
                db.profiles().dom(),
                base@,
                refresh as int,
                key@,
            ) && *e == db.profiles()[key@],
            None => !db.profiles().dom().contains(key_of(base@, refresh as int)) && forall|
                k: Seq<char>,
            | #[trigger]
                db.profiles().dom().contains(k) ==> rate_in(k, base@) is None,
        },
{
    let key: String = key_for(base, refresh);
    if let Some(e) = db.get(key.as_str()) {
        return Some((key, e));
    }
    highest_for_base(db, base)
}

/// A profile that was saved for a display is used for it at any rate.
pub proof fn a_saved_profile_is_used_at_any_rate(base: Seq<char>, saved: int, asked: int)
    requires
        0 <= saved <= i64::MAX,
    ensures
        resolves_to(
            Set::<Seq<char>>::empty().insert(key_of(base, saved)),
            base,
            asked,
            key_of(base, saved),
        ),
        forall|key: Seq<char>|
            resolves_to(Set::<Seq<char>>::empty().insert(key_of(base, saved)), base, asked, key)
                ==> key == key_of(base, saved),
{
    a_key_holds_its_rate(base, saved);
}

/// The profile to use is determined by the profiles that there are.
pub proof fn resolution_is_unique(
    keys: Set<Seq<char>>,
    base: Seq<char>,
    refresh: int,
    a: Seq<char>,
    b: Seq<char>,
)
    requires
        resolves_to(keys, base, refresh, a),
        resolves_to(keys, base, refresh, b),
    ensures
        a == b,
{
    if !keys.contains(key_of(base, refresh)) {
        if a != b {
            assert(keys.contains(a) && keys.contains(b));
            lemma_before_transitive(a, b, a);
            lemma_before_irreflexive(a);
        }
    }
}

} // verus!
