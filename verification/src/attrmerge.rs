//! Merging of optional per-field configuration.
//!
//! The accessor and retry-wrapper generators accept at most one occurrence of
//! each configuration key; a duplicate is a build-time error.  Merging is a
//! commutative, associative "at most one wins" combinator over optional
//! values.

use vstd::prelude::*;
use crate::error::BuildError;

verus! {

/// What merging two optional settings yields: the present one wins, two
/// present ones are a duplicate.
pub open spec fn merge_spec<T>(a: Option<T>, b: Option<T>) -> Result<Option<T>, BuildError> {
    match (a, b) {
        (Option::None, Option::None) => Ok(Option::None),
        (Option::Some(v), Option::None) => Ok(Option::Some(v)),
        (Option::None, Option::Some(v)) => Ok(Option::Some(v)),
        (Option::Some(_), Option::Some(_)) => Err(BuildError::DuplicateAttribute),
    }
}

/// Merge two optional settings; a key supplied twice is rejected.
pub fn merge_opt<T>(a: Option<T>, b: Option<T>) -> (r: Result<Option<T>, BuildError>)
    ensures
        r == merge_spec(a, b),
{
    match (a, b) {
        (Option::None, Option::None) => Ok(Option::None),
        (Option::Some(v), Option::None) => Ok(Option::Some(v)),
        (Option::None, Option::Some(v)) => Ok(Option::Some(v)),
        (Option::Some(_), Option::Some(_)) => Err(BuildError::DuplicateAttribute),
    }
}

/// Merging does not depend on the order of its two arguments.
pub proof fn lemma_merge_commutative<T>(a: Option<T>, b: Option<T>)
    ensures
        merge_spec(a, b) == merge_spec(b, a),
{
}

/// Feed one more optional setting into an already-merged, possibly failed,
/// accumulation.
pub open spec fn merge_step<T>(r: Result<Option<T>, BuildError>, c: Option<T>) -> Result<
    Option<T>,
    BuildError,
> {
    match r {
        Ok(v) => merge_spec(v, c),
        Err(e) => Err(e),
    }
}

/// Merging is associative: folding three settings from the left and from the
/// right agree, including on which failures arise.
pub proof fn lemma_merge_associative<T>(a: Option<T>, b: Option<T>, c: Option<T>)
    ensures
        merge_step(merge_spec(a, b), c) == (match merge_spec(b, c) {
            Ok(v) => merge_spec(a, v),
            Err(e) => Err(e),
        }),
{
}

/// Optional settings of the retry-wrapper generator.
#[derive(Clone, Copy, Debug, PartialEq, Eq, Structural)]
pub struct RetryConfig {
    /// Requested count for the first re-invocation loop.
    pub times: Option<u64>,
    /// Requested count for the second re-invocation loop.
    pub timeout: Option<u64>,
}

impl RetryConfig {
    /// An empty configuration: nothing supplied yet.
    pub fn empty() -> (r: RetryConfig)
        ensures
            r == (RetryConfig { times: None, timeout: None }),
    {
        RetryConfig { times: None, timeout: None }
    }

    /// Merge two partial configurations key by key; `times` is checked
    /// first, so its duplicate is the one reported when both keys collide.
    pub fn merge(self, other: RetryConfig) -> (r: Result<RetryConfig, BuildError>)
        ensures
            merge_spec(self.times, other.times) is Err ==> r == Err::<RetryConfig, BuildError>(
                merge_spec(self.times, other.times)->Err_0,
            ),
            merge_spec(self.times, other.times) is Ok && merge_spec(
                self.timeout,
                other.timeout,
            ) is Err ==> r == Err::<RetryConfig, BuildError>(
                merge_spec(self.timeout, other.timeout)->Err_0,
            ),
            merge_spec(self.times, other.times) is Ok && merge_spec(
                self.timeout,
                other.timeout,
            ) is Ok ==> r == Ok::<RetryConfig, BuildError>(
                RetryConfig {
                    times: merge_spec(self.times, other.times)->Ok_0,
                    timeout: merge_spec(self.timeout, other.timeout)->Ok_0,
                },
            ),
    {
        let times = match merge_opt(self.times, other.times) {
            Ok(v) => v,
            Err(e) => {
                return Err(e);
            },
        };
        let timeout = match merge_opt(self.timeout, other.timeout) {
            Ok(v) => v,
            Err(e) => {
                return Err(e);
            },
        };
        Ok(RetryConfig { times, timeout })
    }

    /// The loop count actually generated: the supplied value, or 3.
    pub fn effective_times(&self) -> (r: u64)
        ensures
            r == match self.times {
                Some(t) => t,
                None => 3u64,
            },
    {
        match self.times {
            Some(t) => t,
            None => 3,
        }
    }

    /// The second loop count actually generated: the supplied value, or 60.
    pub fn effective_timeout(&self) -> (r: u64)
        ensures
            r == match self.timeout {
                Some(t) => t,
                None => 60u64,
            },
    {
        match self.timeout {
            Some(t) => t,
            None => 60,
        }
    }
}

/// Optional settings of one field of the accessor generator: an override for
/// the accessor's name and one for its visibility, both carried as plain
/// text.
#[derive(Clone, Debug, PartialEq, Eq)]
pub struct GetterConfig {
    /// Override for the generated accessor's name.
    pub name: Option<String>,
    /// Override for the generated accessor's visibility.
    pub vis: Option<String>,
}

impl GetterConfig {
    /// An empty configuration: nothing supplied yet.
    pub fn empty() -> (r: GetterConfig)
        ensures
            r.name is None,
            r.vis is None,
    {
        GetterConfig { name: None, vis: None }
    }

    /// Merge two partial configurations key by key; `name` is checked first,
    /// so its duplicate is the one reported when both keys collide.
    pub fn merge(self, other: GetterConfig) -> (r: Result<GetterConfig, BuildError>)
        ensures
            merge_spec(self.name, other.name) is Err ==> r == Err::<GetterConfig, BuildError>(
                merge_spec(self.name, other.name)->Err_0,
            ),
            merge_spec(self.name, other.name) is Ok && merge_spec(self.vis, other.vis) is Err ==> r
                == Err::<GetterConfig, BuildError>(merge_spec(self.vis, other.vis)->Err_0),
            merge_spec(self.name, other.name) is Ok && merge_spec(self.vis, other.vis) is Ok ==> (r
                matches Ok(g) && g.name == merge_spec(self.name, other.name)->Ok_0 && g.vis
                == merge_spec(self.vis, other.vis)->Ok_0),
    {
        let name = match merge_opt(self.name, other.name) {
            Ok(v) => v,
            Err(e) => {
                return Err(e);
            },
        };
        let vis = match merge_opt(self.vis, other.vis) {
            Ok(v) => v,
            Err(e) => {
                return Err(e);
            },
        };
        Ok(GetterConfig { name, vis })
    }
}

} // verus!
