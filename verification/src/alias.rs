//! Alias resolution: following a chain of aliases to the profile it
//! names, and deciding whether a new alias may be created without
//! closing a cycle.
//!
//! Chains are followed with a step budget of one step per alias: a
//! chain that never revisits a name follows at most as many links as
//! there are aliases, so exhausting the budget means the chain went
//! round a cycle.

use vstd::prelude::*;
use crate::errors::DomainError;
use crate::models::Alias;
use crate::strutil::concat2;
use crate::strutil::str_eq;
use crate::strutil::str_in;
use crate::strutil::vec_contains_str;
use crate::strutil::views_of;

verus! {

/// The target of the first alias named `name`, if any.
pub open spec fn spec_target(aliases: Seq<Alias>, name: Seq<char>) -> Option<Seq<char>>
    decreases aliases.len(),
{
    if aliases.len() == 0 {
        None
    } else if aliases[0].name@ == name {
        Some(aliases[0].target@)
    } else {
        spec_target(aliases.drop_first(), name)
    }
}

/// A name is an alias when it has a target.
pub open spec fn spec_is_alias(aliases: Seq<Alias>, name: Seq<char>) -> bool {
    spec_target(aliases, name) is Some
}

/// Where the alias chain from `current` ends, following at most `fuel`
/// links; nothing when the budget runs out, which with a budget of one
/// step per alias happens exactly on a cyclic chain.
pub open spec fn spec_resolve(aliases: Seq<Alias>, current: Seq<char>, fuel: nat) -> Option<
    Seq<char>,
>
    decreases fuel,
{
    match spec_target(aliases, current) {
        None => Some(current),
        Some(t) => if fuel == 0 {
            None
        } else {
            spec_resolve(aliases, t, (fuel - 1) as nat)
        },
    }
}

/// The chain from `current` ends without running out of budget and
/// without passing through `a` or `p`. Creating the alias `a -> p`
/// is safe exactly when this holds of `p`'s chain.
pub open spec fn spec_chain_clear(
    aliases: Seq<Alias>,
    current: Seq<char>,
    a: Seq<char>,
    p: Seq<char>,
    fuel: nat,
) -> bool
    decreases fuel,
{
    match spec_target(aliases, current) {
        None => true,
        Some(next) => if next == a || next == p {
            false
        } else if fuel == 0 {
            false
        } else {
            spec_chain_clear(aliases, next, a, p, (fuel - 1) as nat)
        },
    }
}

/// If `i` is the first index whose alias has name `name`, then
/// `spec_target` returns its target.
proof fn lemma_spec_target_at(aliases: Seq<Alias>, name: Seq<char>, i: int)
    requires
        0 <= i < aliases.len(),
        aliases[i].name@ == name,
        forall|j: int| 0 <= j < i ==> aliases[j].name@ != name,
    ensures
        spec_target(aliases, name) == Some(aliases[i].target@),
    decreases i,
{
    if i > 0 {
        lemma_spec_target_at(aliases.drop_first(), name, i - 1);
    }
}

/// If no alias has name `name`, `spec_target` returns nothing.
proof fn lemma_spec_target_absent(aliases: Seq<Alias>, name: Seq<char>)
    requires
        forall|j: int| 0 <= j < aliases.len() ==> aliases[j].name@ != name,
    ensures
        spec_target(aliases, name) is None,
    decreases aliases.len(),
{
    if aliases.len() > 0 {
        lemma_spec_target_absent(aliases.drop_first(), name);
    }
}

/// The target of the first alias named `name`, if any.
pub fn alias_target(aliases: &Vec<Alias>, name: &str) -> (r: Option<String>)
    ensures
        match r {
            Some(t) => spec_target(aliases@, name@) == Some(t@),
            None => spec_target(aliases@, name@) is None,
        },
{
    let mut i: usize = 0;
    while i < aliases.len()
        invariant
            i <= aliases@.len(),
            forall|j: int| 0 <= j < i ==> aliases@[j].name@ != name@,
        decreases aliases@.len() - i,
    {
        if str_eq(aliases[i].name.as_str(), name) {
            proof {
                lemma_spec_target_at(aliases@, name@, i as int);
            }
            return Some(aliases[i].target.clone());
        }
        i += 1;
    }
    proof {
        lemma_spec_target_absent(aliases@, name@);
    }
    None
}

/// Is `name` an alias?
pub fn is_alias(aliases: &Vec<Alias>, name: &str) -> (r: bool)
    ensures
        r == spec_is_alias(aliases@, name@),
{
    match alias_target(aliases, name) {
        Some(_) => true,
        None => false,
    }
}

/// Resolve `name` through the alias chain to a profile name. A cyclic
/// chain is a configuration error; a chain ending in a name that is
/// no known profile reports that profile as missing.
pub fn resolve_alias(aliases: &Vec<Alias>, profiles: &Vec<String>, name: &str) -> (r: Result<
    String,
    DomainError,
>)
    ensures
        ({
            let resolved = spec_resolve(aliases@, name@, aliases@.len() as nat);
            match r {
                Ok(p) => resolved == Some(p@) && str_in(views_of(profiles@), p@),
                Err(e) => match resolved {
                    None => e is ConfigError,
                    Some(t) => !str_in(views_of(profiles@), t) && e is ProfileNotFound
                        && e->ProfileNotFound_0@ == t,
                },
            }
        }),
{
    let limit: usize = aliases.len();
    let mut current: String = name.to_owned();
    let mut steps: usize = 0;
    loop
        invariant
            steps <= limit,
            limit == aliases@.len(),
            spec_resolve(aliases@, name@, limit as nat) == spec_resolve(
                aliases@,
                current@,
                (limit - steps) as nat,
            ),
        decreases limit - steps,
    {
        match alias_target(aliases, current.as_str()) {
            None => {
                if vec_contains_str(profiles, current.as_str()) {
                    return Ok(current);
                }
                return Err(DomainError::ProfileNotFound(current));
            },
            Some(t) => {
                if steps == limit {
                    return Err(
                        DomainError::ConfigError(
                            concat2("Circular alias reference detected: ", current.as_str()),
                        ),
                    );
                }
                current = t;
                steps += 1;
            },
        }
    }
}

/// Decide whether the alias `alias_name -> profile_name` may be
/// created: the profile must exist, the chain from an aliased profile
/// name must stay clear of cycles and of the two names themselves,
/// and the alias name must be free. The created alias is returned for
/// the caller to persist.
pub fn create_alias(
    aliases: &Vec<Alias>,
    profiles: &Vec<String>,
    alias_name: &str,
    profile_name: &str,
) -> (r: Result<Alias, DomainError>)
    ensures
        !str_in(views_of(profiles@), profile_name@) <==> r is Err && r->Err_0 is ProfileNotFound,
        r is Err && r->Err_0 is ConfigError <==> str_in(views_of(profiles@), profile_name@)
            && spec_is_alias(aliases@, profile_name@) && !spec_chain_clear(
            aliases@,
            profile_name@,
            alias_name@,
            profile_name@,
            aliases@.len() as nat,
        ),
        r is Err && r->Err_0 is AliasAlreadyExists ==> spec_is_alias(aliases@, alias_name@),
        r is Ok <==> str_in(views_of(profiles@), profile_name@) && !spec_is_alias(
            aliases@,
            alias_name@,
        ) && (spec_is_alias(aliases@, profile_name@) ==> spec_chain_clear(
            aliases@,
            profile_name@,
            alias_name@,
            profile_name@,
            aliases@.len() as nat,
        )),
        r is Ok ==> r->Ok_0.name@ == alias_name@ && r->Ok_0.target@ == profile_name@,
{
    if !vec_contains_str(profiles, profile_name) {
        return Err(DomainError::ProfileNotFound(profile_name.to_owned()));
    }
    if is_alias(aliases, profile_name) {
        if !chain_clear(aliases, profile_name, alias_name, profile_name) {
            return Err(
                DomainError::ConfigError(
                    concat2("Circular alias reference detected: ", alias_name),
                ),
            );
        }
    }
    if is_alias(aliases, alias_name) {
        return Err(DomainError::AliasAlreadyExists(alias_name.to_owned()));
    }
    Ok(Alias::new(alias_name, profile_name))
}

/// Walk the chain from `start` and decide `spec_chain_clear`.
fn chain_clear(aliases: &Vec<Alias>, start: &str, a: &str, p: &str) -> (r: bool)
    ensures
        r == spec_chain_clear(aliases@, start@, a@, p@, aliases@.len() as nat),
{
    let limit: usize = aliases.len();
    let mut current: String = start.to_owned();
    let mut steps: usize = 0;
    loop
        invariant
            steps <= limit,
            limit == aliases@.len(),
            spec_chain_clear(aliases@, start@, a@, p@, limit as nat) == spec_chain_clear(
                aliases@,
                current@,
                a@,
                p@,
                (limit - steps) as nat,
            ),
        decreases limit - steps,
    {
        match alias_target(aliases, current.as_str()) {
            None => {
                return true;
            },
            Some(next) => {
                if str_eq(next.as_str(), a) || str_eq(next.as_str(), p) {
                    return false;
                }
                if steps == limit {
                    return false;
                }
                current = next;
                steps += 1;
            },
        }
    }
}

/// Decide the removal of an alias: an unknown alias name is rejected
/// with `AliasNotFound`; otherwise the caller deletes it.
pub fn remove_alias(aliases: &Vec<Alias>, alias_name: &str) -> (r: Result<(), DomainError>)
    ensures
        r is Ok <==> spec_is_alias(aliases@, alias_name@),
        r is Err ==> r->Err_0 is AliasNotFound && r->Err_0->AliasNotFound_0@ == alias_name@,
{
    if is_alias(aliases, alias_name) {
        Ok(())
    } else {
        Err(DomainError::AliasNotFound(alias_name.to_owned()))
    }
}

/// `x` reproduces some alias of the list.
pub open spec fn alias_recorded(aliases: Seq<Alias>, x: Alias) -> bool {
    exists|j: int|
        0 <= j < aliases.len() && (#[trigger] aliases[j]).name@ == x.name@ && aliases[j].target@
            == x.target@
}

/// Some element of `r` carries this alias name.
pub open spec fn alias_reported(r: Seq<Alias>, name: Seq<char>) -> bool {
    exists|k: int| 0 <= k < r.len() && (#[trigger] r[k]).name@ == name
}

/// The aliases that point at `profile_name`: every alias of that
/// target, and nothing else.
pub fn aliases_for_profile(aliases: &Vec<Alias>, profile_name: &str) -> (r: Vec<Alias>)
    ensures
        forall|i: int|
            0 <= i < r@.len() ==> (#[trigger] r@[i]).target@ == profile_name@ && alias_recorded(
                aliases@,
                r@[i],
            ),
        forall|j: int|
            0 <= j < aliases@.len() && (#[trigger] aliases@[j]).target@ == profile_name@
                ==> alias_reported(r@, aliases@[j].name@),
{
    let mut out: Vec<Alias> = Vec::new();
    let mut i: usize = 0;
    while i < aliases.len()
        invariant
            i <= aliases@.len(),
            forall|k: int|
                0 <= k < out@.len() ==> (#[trigger] out@[k]).target@ == profile_name@
                    && alias_recorded(aliases@, out@[k]),
            forall|j: int|
                0 <= j < i && (#[trigger] aliases@[j]).target@ == profile_name@
                    ==> alias_reported(out@, aliases@[j].name@),
        decreases aliases@.len() - i,
    {
        let ghost pre = out@;
        if str_eq(aliases[i].target.as_str(), profile_name) {
            out.push(Alias::new(aliases[i].name.as_str(), aliases[i].target.as_str()));
            proof {
                assert(out@[out@.len() - 1].name@ == aliases@[i as int].name@);
                assert(out@[out@.len() - 1].target@ == aliases@[i as int].target@);
                assert(forall|k: int| 0 <= k < pre.len() ==> out@[k] == pre[k]);
                assert(alias_recorded(aliases@, out@[out@.len() - 1]));
                assert(alias_reported(out@, aliases@[i as int].name@));
                assert(forall|n: Seq<char>| alias_reported(pre, n) ==> alias_reported(out@, n));
            }
        }
        i += 1;
    }
    out
}

} // verus!
