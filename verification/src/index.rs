//! Operations on the identity index: lookup, registration on unlock or
//! import, and clearing the active pointer on lock.

use vstd::prelude::*;
use crate::error::{no_details, err, err_view, CommandError, ErrorView};
use crate::state::{IdentityIndex, IdentityIndexEntry};
use crate::text::{str_eq, trim, trim_seq};
use vstd::string::StringExecFns;

verus! {

/// Position of the first entry of `names` equal to `u`.
pub open spec fn first_index_of(names: Seq<Seq<char>>, u: Seq<char>) -> Option<int> {
    if names.contains(u) {
        Some(choose|i: int| 0 <= i < names.len() && names[i] == u && forall|j: int| 0 <= j < i ==> names[j] != u)
    } else {
        None
    }
}

/// Whether no username occurs twice.
pub open spec fn distinct_names(names: Seq<Seq<char>>) -> bool {
    forall|i: int, j: int| 0 <= i < j < names.len() ==> names[i] != names[j]
}

/// Position of the first entry registered under `username`.
pub fn find_entry(index: &IdentityIndex, username: &str) -> (r: Option<usize>)
    ensures
        match r {
            Some(i) => {
                &&& i < index.identities@.len()
                &&& index.usernames()[i as int] == username@
                &&& forall|j: int| 0 <= j < i ==> index.usernames()[j] != username@
            },
            None => !index.usernames().contains(username@),
        },
{
    let mut i: usize = 0;
    while i < index.identities.len()
        invariant
            i <= index.identities@.len(),
            forall|j: int| 0 <= j < i ==> index.usernames()[j] != username@,
        decreases index.identities@.len() - i,
    {
        if str_eq(index.identities[i].username.as_str(), username) {
            return Some(i);
        }
        i = i + 1;
    }
    proof {
        if index.usernames().contains(username@) {
            let k = choose|k: int| 0 <= k < index.usernames().len() && index.usernames()[k] == username@;
            assert(index.usernames()[k] == username@);
        }
    }
    None
}

/// Whether an identity named `username` is registered.
pub fn contains_username(index: &IdentityIndex, username: &str) -> (b: bool)
    ensures
        b == index.usernames().contains(username@),
{
    match find_entry(index, username) {
        Some(i) => {
            assert(index.usernames()[i as int] == username@);
            true
        },
        None => false,
    }
}

/// What registering `u` under `d` does to the entries: nothing when `u`
/// is already registered, otherwise one entry appended.
pub open spec fn registered_entries(
    entries: Seq<(Seq<char>, Seq<char>)>,
    names: Seq<Seq<char>>,
    u: Seq<char>,
    d: Seq<char>,
) -> Seq<(Seq<char>, Seq<char>)> {
    if names.contains(u) {
        entries
    } else {
        entries.push((u, d))
    }
}

/// Register `username` under `domain` if it is not already, and make it
/// the active identity.
pub fn register_active(index: &mut IdentityIndex, username: String, domain: String)
    ensures
        final(index).active_name() == Some(username@),
        final(index).entries() == registered_entries(
            old(index).entries(),
            old(index).usernames(),
            username@,
            domain@,
        ),
        final(index).usernames() == (if old(index).usernames().contains(username@) {
            old(index).usernames()
        } else {
            old(index).usernames().push(username@)
        }),
{
    let present = contains_username(index, username.as_str());
    let active = username.clone();
    if !present {
        index.identities.push(IdentityIndexEntry { username, domain });
        proof {
            assert(index.entries() =~= old(index).entries().push((username@, domain@)));
            assert(index.usernames() =~= old(index).usernames().push(username@));
        }
    }
    index.active = Some(active);
    proof {
        if present {
            assert(index.entries() =~= old(index).entries());
            assert(index.usernames() =~= old(index).usernames());
        }
    }
}

/// Append an imported identity without touching the active pointer.
pub fn add_imported(index: &mut IdentityIndex, username: String, domain: String)
    ensures
        final(index).active_name() == old(index).active_name(),
        final(index).entries() == old(index).entries().push((username@, domain@)),
        final(index).usernames() == old(index).usernames().push(username@),
{
    index.identities.push(IdentityIndexEntry { username, domain });
    assert(index.entries() =~= old(index).entries().push((username@, domain@)));
    assert(index.usernames() =~= old(index).usernames().push(username@));
}

/// Clear the active pointer; reports whether it was set.
pub fn clear_active(index: &mut IdentityIndex) -> (changed: bool)
    ensures
        changed == (old(index).active is Some),
        final(index).active is None,
        final(index).entries() == old(index).entries(),
{
    let changed = index.active.is_some();
    index.active = None;
    changed
}

/// The message refusing an import whose name is taken.
pub open spec fn collision_message(u: Seq<char>) -> Seq<char> {
    "an identity named `"@ + u
        + "` already exists in the index. Pass override_username to import under a different name."@
}

/// Refuse a name the index already holds.
pub fn check_no_collision(index: &IdentityIndex, username: &str) -> (r: Result<(), CommandError>)
    ensures
        no_details(r),
        r is Ok <==> !index.usernames().contains(username@),
        r matches Err(e) ==> err_view(e) == ("validation"@, collision_message(username@)),
{
    if contains_username(index, username) {
        let mut m = String::from_str("an identity named `");
        m.append(username);
        m.append(
            "` already exists in the index. Pass override_username to import under a different name.",
        );
        return Err(err("validation", m));
    }
    Ok(())
}

/// The domain `init_or_unlock` settles on for `u`, given the index's
/// entries and the domain the caller supplied, or the error it refuses
/// with.
pub open spec fn resolve_domain_spec(
    index: IdentityIndex,
    u: Seq<char>,
    supplied: Option<Seq<char>>,
) -> Result<Seq<char>, ErrorView> {
    match first_index_of(index.usernames(), u) {
        Some(i) => {
            let domain = index.identities@[i].domain@;
            match supplied {
                Some(d) => if trim_seq(d) != domain {
                    Err(
                        (
                            "validation"@,
                            "identity "@ + u + " is registered under domain "@ + domain
                                + " but "@ + d + " was supplied"@,
                        ),
                    )
                } else {
                    Ok(domain)
                },
                None => Ok(domain),
            }
        },
        None => match supplied {
            Some(d) => if trim_seq(d).len() > 0 {
                Ok(trim_seq(d))
            } else {
                Err(("validation"@, "domain is required to create a new identity"@))
            },
            None => Err(("validation"@, "domain is required to create a new identity"@)),
        },
    }
}

/// Settle the domain of `username`: the registered one (a supplied domain
/// must then match it once trimmed), or the supplied one, trimmed, for a
/// new identity.
pub fn resolve_domain(index: &IdentityIndex, username: &str, supplied: Option<&str>) -> (r: Result<
    String,
    CommandError,
>)
    ensures
        no_details(r),
        match r {
            Ok(d) => resolve_domain_spec(*index, username@, opt_view(supplied)) == Ok::<
                Seq<char>,
                ErrorView,
            >(d@),
            Err(e) => resolve_domain_spec(*index, username@, opt_view(supplied)) == Err::<
                Seq<char>,
                ErrorView,
            >(err_view(e)),
        },
{
    let found = find_entry(index, username);
    proof {
        if index.usernames().contains(username@) {
            let i = found.unwrap() as int;
            let w = first_index_of(index.usernames(), username@).unwrap();
            assert(w == i) by {
                if w < i {
                    assert(index.usernames()[w] == username@);
                } else if i < w {
                    assert(index.usernames()[i] == username@);
                }
            }
        }
    }
    match found {
        Some(i) => {
            let domain = &index.identities[i].domain;
            assert(index.usernames()[i as int] == index.identities@[i as int].username@);
            match supplied {
                Some(d) => {
                    let t = trim(d);
                    if t != *domain {
                        let mut m = String::from_str("identity ");
                        m.append(username);
                        m.append(" is registered under domain ");
                        m.append(domain.as_str());
                        m.append(" but ");
                        m.append(d);
                        m.append(" was supplied");
                        Err(err("validation", m))
                    } else {
                        Ok(domain.clone())
                    }
                },
                None => Ok(domain.clone()),
            }
        },
        None => {
            match supplied {
                Some(d) => {
                    let t = trim(d);
                    if t.as_str().is_empty() {
                        Err(
                            err(
                                "validation",
                                String::from_str("domain is required to create a new identity"),
                            ),
                        )
                    } else {
                        Ok(t)
                    }
                },
                None => Err(
                    err("validation", String::from_str("domain is required to create a new identity")),
                ),
            }
        },
    }
}

/// An optional string as an optional sequence.
pub open spec fn opt_view(s: Option<&str>) -> Option<Seq<char>> {
    match s {
        Some(x) => Some(x@),
        None => None,
    }
}

/// Registering an identity twice leaves the index as registering it
/// once: the same entries, the same active identity.
pub proof fn law_register_idempotent(
    entries: Seq<(Seq<char>, Seq<char>)>,
    names: Seq<Seq<char>>,
    u: Seq<char>,
    d: Seq<char>,
)
    requires
        names.len() == entries.len(),
        forall|i: int| 0 <= i < names.len() ==> names[i] == (#[trigger] entries[i]).0,
    ensures
        registered_entries(
            registered_entries(entries, names, u, d),
            (if names.contains(u) { names } else { names.push(u) }),
            u,
            d,
        ) == registered_entries(entries, names, u, d),
{
    if !names.contains(u) {
        assert(names.push(u)[names.len() as int] == u);
    }
}

/// Registration keeps usernames distinct.
pub proof fn law_register_keeps_distinct(names: Seq<Seq<char>>, u: Seq<char>)
    requires
        distinct_names(names),
    ensures
        distinct_names(if names.contains(u) { names } else { names.push(u) }),
{
    if !names.contains(u) {
        let n2 = names.push(u);
        assert forall|i: int, j: int| 0 <= i < j < n2.len() implies n2[i] != n2[j] by {
            if j == names.len() {
                assert(n2[i] == names[i]);
            }
        }
    }
}

} // verus!
