//! The profile store: named bundles of backend-construction options,
//! loaded once from a configuration source and read-only afterwards.

use vstd::prelude::*;

verus! {

/// One named profile: a flat mapping of option keys to values,
/// sufficient to construct a storage operator.
pub struct Profile {
    pub name: String,
    pub options: Vec<(String, String)>,
}

impl Profile {
    pub open spec fn name_view(self) -> Seq<char> {
        self.name@
    }

    /// The option mapping as a sequence of key/value pairs.
    pub open spec fn opts_view(self) -> Seq<(Seq<char>, Seq<char>)> {
        self.options.deep_view()
    }

    /// Option keys are pairwise distinct: the options form a mapping.
    pub open spec fn wf(self) -> bool {
        forall|i: int, j: int|
            0 <= i < j < self.opts_view().len() ==> self.opts_view()[i].0 != self.opts_view()[j].0
    }
}

/// Looks a key up in an option mapping: the value of the first pair
/// whose key matches, if any.
pub open spec fn opt_lookup(opts: Seq<(Seq<char>, Seq<char>)>, key: Seq<char>) -> Option<
    Seq<char>,
>
    decreases opts.len(),
{
    if opts.len() == 0 {
        None
    } else if opts[0].0 == key {
        Some(opts[0].1)
    } else {
        opt_lookup(opts.skip(1), key)
    }
}

/// Looks a profile up by name: the options of the first profile whose
/// name matches, if any.
pub open spec fn profile_lookup(s: Seq<Profile>, name: Seq<char>) -> Option<
    Seq<(Seq<char>, Seq<char>)>,
>
    decreases s.len(),
{
    if s.len() == 0 {
        None
    } else if s[0].name_view() == name {
        Some(s[0].opts_view())
    } else {
        profile_lookup(s.skip(1), name)
    }
}

/// Why a configuration source was rejected as malformed.
#[derive(Debug)]
pub enum ConfigError {
    /// Two profiles share this name.
    DuplicateProfile(String),
    /// In the named profile, two options share the named key.
    DuplicateOptionKey(String, String),
}

/// A decoded configuration source is well formed when profile names are
/// pairwise distinct and every profile's option keys are pairwise distinct.
pub open spec fn source_wf(profiles: Seq<Profile>) -> bool {
    &&& forall|i: int, j: int|
        0 <= i < j < profiles.len() ==> profiles[i].name_view() != profiles[j].name_view()
    &&& forall|i: int| 0 <= i < profiles.len() ==> (#[trigger] profiles[i]).wf()
}

/// The profile store: maps profile names to their options. Loaded once,
/// immutable afterwards.
pub struct Config {
    profiles: Vec<Profile>,
}

impl Config {
    /// The profiles, in the order the source listed them.
    pub closed spec fn entries(self) -> Seq<Profile> {
        self.profiles@
    }

    /// All profile names, in source order.
    pub open spec fn names(self) -> Seq<Seq<char>> {
        self.entries().map_values(|p: Profile| p.name_view())
    }

    /// The options of the named profile, if it exists.
    pub open spec fn lookup(self, name: Seq<char>) -> Option<Seq<(Seq<char>, Seq<char>)>> {
        profile_lookup(self.entries(), name)
    }

    /// Profile names are pairwise distinct, and every profile's option
    /// keys are pairwise distinct.
    pub open spec fn wf(self) -> bool {
        source_wf(self.entries())
    }

    /// Loads the store from an already-decoded configuration source:
    /// all-or-nothing, a malformed source (a repeated profile name or a
    /// repeated option key) fails the whole load.
    pub fn load(profiles: Vec<Profile>) -> (r: Result<Config, ConfigError>)
        ensures
            match r {
                Ok(c) => c.entries() == profiles@ && c.wf(),
                Err(ConfigError::DuplicateProfile(n)) => {
                    exists|i: int, j: int|
                        0 <= i < j < profiles@.len() && profiles@[i].name_view()
                            == profiles@[j].name_view() && profiles@[j].name_view() == n@
                },
                Err(ConfigError::DuplicateOptionKey(n, k)) => {
                    exists|i: int|
                        0 <= i < profiles@.len() && (#[trigger] profiles@[i]).name_view() == n@
                            && exists|a: int, b: int|
                            0 <= a < b < profiles@[i].opts_view().len()
                                && profiles@[i].opts_view()[a].0 == profiles@[i].opts_view()[b].0
                                && profiles@[i].opts_view()[b].0 == k@
                },
            },
            r is Ok <==> source_wf(profiles@),
    {
        let n = profiles.len();
        let mut j: usize = 0;
        while j < n
            invariant
                n == profiles@.len(),
                j <= n,
                forall|a: int, b: int|
                    0 <= a < b < j ==> profiles@[a].name_view() != profiles@[b].name_view(),
                forall|a: int| 0 <= a < j ==> (#[trigger] profiles@[a]).wf(),
            decreases n - j,
        {
            let mut i: usize = 0;
            while i < j
                invariant
                    n == profiles@.len(),
                    i <= j < n,
                    forall|a: int|
                        0 <= a < i ==> profiles@[a].name_view() != profiles@[j as int].name_view(),
                decreases j - i,
            {
                if crate::order::str_eq(profiles[i].name.as_str(), profiles[j].name.as_str()) {
                    return Err(ConfigError::DuplicateProfile(profiles[j].name.clone()));
                }
                i = i + 1;
            }
            let opts = &profiles[j].options;
            let m = opts.len();
            let mut b: usize = 0;
            while b < m
                invariant
                    n == profiles@.len(),
                    j < n,
                    m == opts@.len(),
                    opts == profiles@[j as int].options,
                    b <= m,
                    forall|x: int, y: int|
                        0 <= x < y < b ==> profiles@[j as int].opts_view()[x].0
                            != profiles@[j as int].opts_view()[y].0,
                decreases m - b,
            {
                let mut a: usize = 0;
                while a < b
                    invariant
                        n == profiles@.len(),
                        j < n,
                        m == opts@.len(),
                        opts == profiles@[j as int].options,
                        a <= b < m,
                        forall|x: int|
                            0 <= x < a ==> profiles@[j as int].opts_view()[x].0
                                != profiles@[j as int].opts_view()[b as int].0,
                    decreases b - a,
                {
                    if crate::order::str_eq(opts[a].0.as_str(), opts[b].0.as_str()) {
                        proof {
                            assert(profiles@[j as int].opts_view()[a as int].0 == opts@[a as int].0@);
                            assert(profiles@[j as int].opts_view()[b as int].0 == opts@[b as int].0@);
                            assert(!(profiles@[j as int]).wf());
                        }
                        return Err(
                            ConfigError::DuplicateOptionKey(
                                profiles[j].name.clone(),
                                opts[b].0.clone(),
                            ),
                        );
                    }
                    a = a + 1;
                }
                b = b + 1;
            }
            j = j + 1;
        }
        let c = Config { profiles };
        assert(c.wf());
        Ok(c)
    }

    /// All profile names, in store order (callers sort for display).
    pub fn profile_names(&self) -> (r: Vec<String>)
        ensures
            r.deep_view() == self.names(),
    {
        let mut r: Vec<String> = Vec::new();
        let mut i: usize = 0;
        while i < self.profiles.len()
            invariant
                i <= self.profiles@.len(),
                r.deep_view() =~~= self.names().take(i as int),
            decreases self.profiles@.len() - i,
        {
            let ghost prev = r.deep_view();
            r.push(self.profiles[i].name.clone());
            proof {
                assert(self.names().len() == self.profiles@.len());
                assert(prev.len() == i as int);
                assert(r@.len() == i + 1);
                assert(r.deep_view().len() == i + 1);
                assert forall|k: int| 0 <= k < i + 1 implies r.deep_view()[k] == self.names().take(
                    i + 1,
                )[k] by {
                    assert(self.names()[k] == self.entries()[k].name_view());
                    if k < i {
                        assert(r.deep_view()[k] == prev[k]);
                        assert(prev[k] == self.names().take(i as int)[k]);
                    } else {
                        assert(r.deep_view()[k] == self.profiles@[i as int].name@);
                    }
                }
                assert(r.deep_view() =~~= self.names().take(i + 1));
            }
            i = i + 1;
        }
        assert(self.names().take(self.profiles@.len() as int) =~= self.names());
        r
    }

    /// The options of the named profile, absent if the name is unknown
    /// (absence is not an error here: callers decide whether it is fatal).
    pub fn profile(&self, name: &str) -> (r: Option<&Vec<(String, String)>>)
        ensures
            match r {
                Some(o) => self.lookup(name@) == Some(o.deep_view()),
                None => self.lookup(name@) is None,
            },
    {
        let n = self.profiles.len();
        let mut i: usize = 0;
        assert(self.entries().skip(0) =~= self.entries());
        while i < n
            invariant
                n == self.entries().len(),
                i <= n,
                self.lookup(name@) == profile_lookup(self.entries().skip(i as int), name@),
            decreases n - i,
        {
            assert(self.entries().skip(i as int)[0] == self.entries()[i as int]);
            if crate::order::str_eq(self.profiles[i].name.as_str(), name) {
                return Some(&self.profiles[i].options);
            }
            assert(self.entries().skip(i as int).skip(1) =~= self.entries().skip(i + 1));
            i = i + 1;
        }
        assert(self.entries().skip(n as int).len() == 0);
        None
    }
}

/// The store answers for exactly the names it was loaded with: looking a
/// name up succeeds precisely when some profile bears it, and then yields
/// that profile's own options.
pub proof fn lemma_store_faithful(c: Config)
    requires
        c.wf(),
    ensures
        forall|i: int|
            0 <= i < c.entries().len() ==> c.lookup((#[trigger] c.entries()[i]).name_view())
                == Some(c.entries()[i].opts_view()),
        forall|n: Seq<char>| c.lookup(n) is Some <==> c.names().contains(n),
{
    assert forall|i: int| 0 <= i < c.entries().len() implies c.lookup(
        (#[trigger] c.entries()[i]).name_view(),
    ) == Some(c.entries()[i].opts_view()) by {
        lemma_lookup_at(c.entries(), i);
    }
    assert forall|n: Seq<char>| c.lookup(n) is Some <==> c.names().contains(n) by {
        lemma_lookup_names(c.entries(), n);
        if c.names().contains(n) {
            let i = choose|i: int| 0 <= i < c.names().len() && c.names()[i] == n;
            assert(c.entries()[i].name_view() == n);
            assert(c.lookup(n) is Some);
        }
        if c.lookup(n) is Some {
            let i = choose|i: int| 0 <= i < c.entries().len() && c.entries()[i].name_view() == n;
            assert(c.names()[i] == n);
            assert(c.names().contains(n));
        }
    }
}

/// Looking up the name of the `i`-th profile of a well-formed store finds
/// that very profile.
proof fn lemma_lookup_at(s: Seq<Profile>, i: int)
    requires
        0 <= i < s.len(),
        forall|a: int, b: int| 0 <= a < b < s.len() ==> s[a].name_view() != s[b].name_view(),
    ensures
        profile_lookup(s, s[i].name_view()) == Some(s[i].opts_view()),
    decreases s.len(),
{
    if i > 0 {
        assert(s[0].name_view() != s[i].name_view());
        lemma_lookup_at(s.skip(1), i - 1);
        assert(s.skip(1)[i - 1] == s[i]);
    }
}

/// A lookup succeeds exactly for names that occur in the sequence.
proof fn lemma_lookup_names(s: Seq<Profile>, n: Seq<char>)
    ensures
        profile_lookup(s, n) is Some <==> exists|i: int| 0 <= i < s.len() && s[i].name_view() == n,
    decreases s.len(),
{
    if s.len() > 0 {
        lemma_lookup_names(s.skip(1), n);
        if s[0].name_view() == n {
        } else if profile_lookup(s.skip(1), n) is Some {
            let i = choose|i: int| 0 <= i < s.skip(1).len() && s.skip(1)[i].name_view() == n;
            assert(s[i + 1].name_view() == n);
        } else {
            assert forall|i: int| 0 <= i < s.len() implies s[i].name_view() != n by {
                if i > 0 {
                    assert(s.skip(1)[i - 1] == s[i]);
                }
            }
        }
    }
}

} // verus!
