//! The location resolver: splits a location string into a profile
//! selector and a backend-relative path, and constructs the operator
//! description for the selected profile.

use vstd::prelude::*;
use crate::config::{opt_lookup, Config};

verus! {

/// The backend kinds an operator can be constructed for.
#[derive(PartialEq, Eq, Structural, Clone, Copy, Debug)]
pub enum Kind {
    /// Local filesystem backend.
    Fs,
    /// In-memory backend.
    Memory,
}

/// A constructed storage-operator description: the profile it is bound
/// to, the backend kind the profile declares, and the profile's full
/// option mapping. The surrounding process turns this into a live
/// backend handle; the engine's logic reads only these plain values.
pub struct Operator {
    pub profile: String,
    pub kind: Kind,
    pub options: Vec<(String, String)>,
}

/// Why constructing an operator from a profile's options failed.
#[derive(Debug)]
pub enum OperatorError {
    /// The profile declares no `type` option.
    MissingKind,
    /// The profile's `type` option names no known backend kind.
    UnknownKind(String),
}

/// Why a location string could not be resolved.
#[derive(Debug)]
pub enum LocationError {
    /// The string holds no delimiter: no profile selector can be split off.
    Syntax,
    /// The selector names no profile in the store; carries the selector.
    ProfileNotFound(String),
    /// The profile exists but no operator could be constructed from it.
    OperatorConstruction(OperatorError),
}

/// `i` is the position of the first delimiter of `s`: the selector is
/// always the shortest prefix up to the first `:`.
pub open spec fn delim_at(s: Seq<char>, i: int) -> bool {
    &&& 0 <= i < s.len()
    &&& s[i] == ':'
    &&& forall|j: int| 0 <= j < i ==> s[j] != ':'
}

/// Why, at the specification level, no backend kind can be read off an
/// option mapping.
pub enum KindFault {
    Missing,
    Unknown(Seq<char>),
}

/// The backend kind a profile's options declare, or why none can be read
/// off them.
pub open spec fn kind_of(opts: Seq<(Seq<char>, Seq<char>)>) -> Result<Kind, KindFault> {
    match opt_lookup(opts, "type"@) {
        Option::None => Result::Err(KindFault::Missing),
        Option::Some(v) => {
            if v == "fs"@ {
                Result::Ok(Kind::Fs)
            } else if v == "memory"@ {
                Result::Ok(Kind::Memory)
            } else {
                Result::Err(KindFault::Unknown(v))
            }
        },
    }
}

/// Whether a reported construction error matches the fault the
/// specification assigns to the options.
pub open spec fn op_err_matches(e: OperatorError, f: KindFault) -> bool {
    match (e, f) {
        (OperatorError::MissingKind, KindFault::Missing) => true,
        (OperatorError::UnknownKind(s), KindFault::Unknown(v)) => s@ == v,
        _ => false,
    }
}

/// What resolving `raw` against store `c` must yield.
pub open spec fn resolved(
    c: Config,
    raw: Seq<char>,
    r: Result<(Operator, String), LocationError>,
) -> bool {
    if exists|i: int| delim_at(raw, i) {
        let i = choose|i: int| delim_at(raw, i);
        let sel = raw.take(i);
        let rest = raw.skip(i + 1);
        match c.lookup(sel) {
            Option::None => r matches Result::Err(LocationError::ProfileNotFound(n)) && n@ == sel,
            Option::Some(opts) => match kind_of(opts) {
                Result::Err(f) => r matches Result::Err(LocationError::OperatorConstruction(e))
                    && op_err_matches(e, f),
                Result::Ok(k) => r matches Result::Ok((op, path)) && op.profile@ == sel
                    && op.kind == k && op.options.deep_view() == opts && path@ == rest,
            },
        }
    } else {
        r matches Result::Err(LocationError::Syntax)
    }
}

/// The position of the first `:` of `s`, if any.
fn find_delim(s: &str) -> (r: Option<usize>)
    ensures
        match r {
            Some(i) => delim_at(s@, i as int),
            None => forall|j: int| 0 <= j < s@.len() ==> s@[j] != ':',
        },
{
    let n = s.unicode_len();
    let mut i: usize = 0;
    while i < n
        invariant
            n == s@.len(),
            i <= n,
            forall|j: int| 0 <= j < i ==> s@[j] != ':',
        decreases n - i,
    {
        if s.get_char(i) == ':' {
            return Some(i);
        }
        i = i + 1;
    }
    None
}

/// A copy of an option mapping, pair by pair.
fn clone_options(opts: &Vec<(String, String)>) -> (r: Vec<(String, String)>)
    ensures
        r.deep_view() == opts.deep_view(),
{
    let mut r: Vec<(String, String)> = Vec::new();
    let mut i: usize = 0;
    while i < opts.len()
        invariant
            i <= opts@.len(),
            r.deep_view() =~~= opts.deep_view().take(i as int),
        decreases opts@.len() - i,
    {
        let ghost prev = r.deep_view();
        r.push((opts[i].0.clone(), opts[i].1.clone()));
        proof {
            assert(prev.len() == i as int);
            assert(r@.len() == i + 1);
            assert forall|k: int| 0 <= k < i + 1 implies r.deep_view()[k] == opts.deep_view().take(
                i + 1,
            )[k] by {
                if k < i {
                    assert(r.deep_view()[k] == prev[k]);
                } else {
                    assert(r.deep_view()[k] == (opts@[k].0@, opts@[k].1@));
                }
            }
            assert(r.deep_view() =~~= opts.deep_view().take(i + 1));
        }
        i = i + 1;
    }
    assert(opts.deep_view().take(opts@.len() as int) =~= opts.deep_view());
    r
}

/// The value of the named option, if the mapping holds it.
fn options_get<'a>(opts: &'a Vec<(String, String)>, key: &str) -> (r: Option<&'a String>)
    ensures
        match r {
            Some(v) => opt_lookup(opts.deep_view(), key@) == Some(v@),
            None => opt_lookup(opts.deep_view(), key@) is None,
        },
{
    let n = opts.len();
    let mut i: usize = 0;
    assert(opts.deep_view().skip(0) =~= opts.deep_view());
    while i < n
        invariant
            n == opts@.len(),
            i <= n,
            opts.deep_view().len() == n,
            opt_lookup(opts.deep_view(), key@) == opt_lookup(
                opts.deep_view().skip(i as int),
                key@,
            ),
        decreases n - i,
    {
        assert(opts.deep_view().skip(i as int)[0] == opts.deep_view()[i as int]);
        assert(opts.deep_view()[i as int] == (opts@[i as int].0@, opts@[i as int].1@));
        if crate::order::str_eq(opts[i].0.as_str(), key) {
            return Some(&opts[i].1);
        }
        assert(opts.deep_view().skip(i as int).skip(1) =~= opts.deep_view().skip(i + 1));
        i = i + 1;
    }
    assert(opts.deep_view().skip(n as int).len() == 0);
    None
}

/// Constructs the operator description a profile's options declare:
/// fails when the options name no known backend kind.
fn construct_operator(name: &str, opts: &Vec<(String, String)>) -> (r: Result<
    Operator,
    OperatorError,
>)
    ensures
        match r {
            Ok(op) => kind_of(opts.deep_view()) == Result::<Kind, KindFault>::Ok(op.kind)
                && op.profile@ == name@ && op.options.deep_view() == opts.deep_view(),
            Err(e) => match kind_of(opts.deep_view()) {
                Result::Err(f) => op_err_matches(e, f),
                Result::Ok(_) => false,
            },
        },
{
    let kind_val = match options_get(opts, "type") {
        Some(v) => v,
        None => {
            return Err(OperatorError::MissingKind);
        },
    };
    let kind = if crate::order::str_eq(kind_val.as_str(), "fs") {
        Kind::Fs
    } else if crate::order::str_eq(kind_val.as_str(), "memory") {
        Kind::Memory
    } else {
        return Err(OperatorError::UnknownKind(kind_val.clone()));
    };
    Ok(Operator { profile: name.to_owned(), kind, options: clone_options(opts) })
}

impl Config {
    /// Splits `raw` at its first `:` into a profile selector and a path,
    /// looks the selector up, and constructs the profile's operator:
    /// a pure function of the store and the string, with each failure
    /// reported as its own error.
    pub fn parse_location(&self, raw: &str) -> (r: Result<(Operator, String), LocationError>)
        ensures
            resolved(*self, raw@, r),
    {
        let i = match find_delim(raw) {
            Some(i) => i,
            None => {
                return Err(LocationError::Syntax);
            },
        };
        let n = raw.unicode_len();
        let sel = raw.substring_char(0, i);
        let path = raw.substring_char(i + 1, n);
        proof {
            let wi = choose|w: int| delim_at(raw@, w);
            assert(delim_at(raw@, i as int));
            assert(wi == i as int);
            assert(sel@ == raw@.take(i as int));
            assert(raw@.subrange(i + 1, n as int) =~= raw@.skip(i + 1));
        }
        let opts = match self.profile(sel) {
            Some(o) => o,
            None => {
                return Err(LocationError::ProfileNotFound(sel.to_owned()));
            },
        };
        match construct_operator(sel, opts) {
            Ok(op) => Ok((op, path.to_owned())),
            Err(e) => Err(LocationError::OperatorConstruction(e)),
        }
    }
}

} // verus!

