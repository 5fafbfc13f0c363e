//! Bundles that belong to another team.

use vstd::prelude::*;
use vstd::string::*;
use crate::bundle::{
    holds_nothing, initialize_bundle, password_set_message, password_views, restore_scope,
    restores, BundleContents,
};
use crate::ordered::{precedes, StringSet};
use crate::ranked::RankedMap;
use crate::scope::Scope;
use crate::state::{empty_state, RuntimeWorkspace};
use crate::text::{cat3, failure, fails_as, join, joined, same, texts, Error};

verus! {

/// Whether a command may change the bundle.
#[derive(Debug, Clone, Copy, PartialEq, Eq, Structural)]
pub enum BundleAccess {
    ReadOnly,
    Mutating,
}

/// A bundle that was opened for a team.
#[derive(Debug)]
pub struct PreparedBundle {
    pub passwords: RankedMap<Scope, String>,
    pub reset_from_team_ids: Vec<String>,
}

/// The other teams that a bundle belongs to: each once, in the order of texts.
pub open spec fn other_teams(
    existing: Seq<Seq<char>>,
    team_id: Seq<char>,
    found: Seq<Seq<char>>,
) -> bool {
    &&& forall|id: Seq<char>|
        found.contains(id) <==> #[trigger] existing.contains(id) && id != team_id
    &&& forall|i: int, j: int|
        0 <= i < j < found.len() ==> precedes(#[trigger] found[i], #[trigger] found[j])
}

/// The other teams that a bundle belongs to.
pub fn reset_team_ids(existing: &Vec<String>, team_id: &str) -> (ids: Vec<String>)
    ensures
        other_teams(texts(existing@), team_id@, texts(ids@)),
{
    let mut set = StringSet::new();
    let mut i: usize = 0;
    while i < existing.len()
        invariant
            i <= existing.len(),
            forall|id: Seq<char>|
                set@.contains(id) <==> id != team_id@ && (exists|k: int|
                    0 <= k < i && #[trigger] existing@[k]@ == id),
        decreases existing.len() - i,
    {
        let ghost before = set@;
        if !same(existing[i].as_str(), team_id) {
            set.insert(existing[i].clone());
        }
        proof {
            assert forall|id: Seq<char>|
                set@.contains(id) <==> id != team_id@ && (exists|k: int|
                    0 <= k < i + 1 && #[trigger] existing@[k]@ == id) by {
                if before.contains(id) {
                    let k = choose|k: int| 0 <= k < i && #[trigger] existing@[k]@ == id;
                    assert(existing@[k]@ == id);
                }
                if existing@[i as int]@ == id {
                    assert(existing@[i as int]@ == id);
                }
            }
        }
        i += 1;
    }
    let ids = set.sorted();
    proof {
        assert forall|id: Seq<char>|
            texts(ids@).contains(id) <==> #[trigger] texts(existing@).contains(id) && id
                != team_id@ by {
            assert(texts(ids@).contains(id) == texts(ids@).to_set().contains(id));
            if texts(existing@).contains(id) {
                let k = choose|k: int|
                    0 <= k < texts(existing@).len() && texts(existing@)[k] == id;
                assert(existing@[k]@ == id);
            }
            if set@.contains(id) {
                let k = choose|k: int| 0 <= k < existing@.len() && #[trigger] existing@[k]@ == id;
                assert(texts(existing@)[k] == id);
            }
        }
        assert forall|i: int, j: int| 0 <= i < j < texts(ids@).len() implies precedes(
            #[trigger] texts(ids@)[i],
            #[trigger] texts(ids@)[j],
        ) by {
            assert(texts(ids@)[i] == ids@[i]@ && texts(ids@)[j] == ids@[j]@);
        }
    }
    ids
}

/// The message of a bundle that cannot be reset.
pub open spec fn reset_message(
    ids: Seq<Seq<char>>,
    team_id: Seq<char>,
    all_passwords: bool,
    access: BundleAccess,
) -> Option<Seq<char>> {
    let teams = joined(ids, ", "@);
    if ids.len() == 0 {
        None
    } else if access == BundleAccess::ReadOnly {
        Some(
            "signing bundle belongs to team(s) "@ + teams
                + "; read-only commands will not reset it to "@ + team_id
                + ". Run a mutating ASC apply workflow to perform the cutover"@,
        )
    } else if !all_passwords {
        Some(
            "signing bundle belongs to team(s) "@ + teams + "; resetting it to "@ + team_id
                + " requires both developer and release bundle passwords"@,
        )
    } else {
        None
    }
}

/// Checks that a bundle of other teams may be reset.
pub fn check_reset(
    ids: &Vec<String>,
    team_id: &str,
    all_passwords: bool,
    access: BundleAccess,
) -> (result: Result<(), Error>)
    ensures
        fails_as(result, reset_message(texts(ids@), team_id@, all_passwords, access)),
{
    proof {
        assert(texts(ids@).len() == ids@.len());
    }
    if ids.len() == 0 {
        return Ok(());
    }
    let teams = join(ids, ", ");
    if access == BundleAccess::ReadOnly {
        return Err(
            failure(
                cat3(
                    "signing bundle belongs to team(s) ",
                    teams.as_str(),
                    "; read-only commands will not reset it to ",
                ).concat(team_id).concat(
                    ". Run a mutating ASC apply workflow to perform the cutover",
                ),
            ),
        );
    }
    if !all_passwords {
        return Err(
            failure(
                cat3(
                    "signing bundle belongs to team(s) ",
                    teams.as_str(),
                    "; resetting it to ",
                ).concat(team_id).concat(
                    " requires both developer and release bundle passwords",
                ),
            ),
        );
    }
    Ok(())
}

/// What opening the scope at place `i` of some passwords gives.
pub open spec fn entry_restores(
    contents: BundleContents,
    passwords: RankedMap<Scope, String>,
    i: int,
    result: Result<RuntimeWorkspace, Error>,
) -> bool {
    restores(contents, passwords.entries()[i].0, passwords.entries()[i].1@, result)
}

/// The password at place `i` opens its scope.
pub open spec fn entry_opens(
    contents: BundleContents,
    passwords: RankedMap<Scope, String>,
    i: int,
) -> bool {
    exists|runtime: RuntimeWorkspace| #[trigger]
        entry_restores(contents, passwords, i, Ok::<RuntimeWorkspace, Error>(runtime))
}

/// Every password opens its scope.
pub open spec fn all_open(contents: BundleContents, passwords: RankedMap<Scope, String>) -> bool {
    forall|i: int|
        0 <= i < passwords.entries().len() ==> #[trigger] entry_opens(contents, passwords, i)
}

/// A password does not open its scope, with this failure, and all before it open theirs.
pub open spec fn one_fails(
    contents: BundleContents,
    passwords: RankedMap<Scope, String>,
    error: Error,
) -> bool {
    exists|i: int|
        0 <= i < passwords.entries().len() && #[trigger] entry_restores(
            contents,
            passwords,
            i,
            Err::<RuntimeWorkspace, Error>(error),
        ) && forall|k: int| 0 <= k < i ==> #[trigger] entry_opens(contents, passwords, k)
}

/// The team that each opened scope belongs to. Every password has to open its scope.
pub fn collect_scope_team_ids(
    contents: &BundleContents,
    passwords: &RankedMap<Scope, String>,
) -> (result: Result<Vec<String>, Error>)
    ensures
        match result {
            Ok(ids) => all_open(*contents, *passwords) && texts(ids@) == Seq::new(
                passwords.entries().len(),
                |i: int| contents.state.team_id@,
            ),
            Err(error) => one_fails(*contents, *passwords, error),
        },
{
    let n: usize = passwords.len();
    let mut ids: Vec<String> = Vec::new();
    let mut i: usize = 0;
    while i < n
        invariant
            i <= n == passwords.entries().len(),
            ids.len() == i,
            forall|k: int| 0 <= k < i ==> (#[trigger] ids@[k])@ == contents.state.team_id@,
            forall|k: int| 0 <= k < i ==> #[trigger] entry_opens(*contents, *passwords, k),
        decreases n - i,
    {
        let found = restore_scope(contents, passwords.key_at(i), passwords.value_at(i).as_str());
        proof {
            assert(entry_restores(*contents, *passwords, i as int, found));
        }
        if let Err(error) = found {
            return Err(error);
        }
        ids.push(contents.state.team_id.clone());
        i += 1;
    }
    proof {
        assert(texts(ids@) =~= Seq::new(
            passwords.entries().len(),
            |i: int| contents.state.team_id@,
        ));
    }
    Ok(ids)
}

/// What comes of a bundle whose opened scopes belong to teams: those that are other ones, and, where
/// there are any, the empty bundle that takes its place; or why it cannot be replaced.
pub open spec fn renews(
    existing: Seq<Seq<char>>,
    team_id: Seq<char>,
    passwords: RankedMap<Scope, String>,
    access: BundleAccess,
    result: Result<(Vec<String>, Option<BundleContents>), Error>,
) -> bool {
    exists|ids: Seq<Seq<char>>| #[trigger]
        other_teams(existing, team_id, ids) && match reset_message(
            ids,
            team_id,
            passwords.entries().len() == 2,
            access,
        ) {
            Some(message) => result matches Err(error) && error@ == message,
            None => if ids.len() == 0 {
                result matches Ok(found) && texts(found.0@) == ids && found.1 is None
            } else {
                match password_set_message(password_views(passwords@)) {
                    Some(message) => result matches Err(error) && error@ == message,
                    None => {
                        &&& result matches Ok(found)
                        &&& texts(found.0@) == ids
                        &&& found.1 matches Some(empty)
                        &&& empty_bundle(empty, team_id, passwords)
                    },
                }
            },
        }
}

/// A bundle of a team that holds nothing, sealed with passwords.
pub open spec fn empty_bundle(
    contents: BundleContents,
    team_id: Seq<char>,
    passwords: RankedMap<Scope, String>,
) -> bool {
    &&& contents.state@ == empty_state(team_id)
    &&& contents.scopes@.dom() == set![Scope::Developer, Scope::Release]
    &&& holds_nothing(contents, Scope::Developer, passwords@[Scope::Developer]@)
    &&& holds_nothing(contents, Scope::Release, passwords@[Scope::Release]@)
}

/// What comes of a bundle whose opened scopes belong to teams. With both passwords, and where
/// changes are made, a bundle of another team is always replaced.
pub fn reset_for_team(
    existing: &Vec<String>,
    team_id: &str,
    passwords: &RankedMap<Scope, String>,
    access: BundleAccess,
) -> (result: Result<(Vec<String>, Option<BundleContents>), Error>)
    ensures
        renews(texts(existing@), team_id@, *passwords, access, result),
{
    let ids = reset_team_ids(existing, team_id);
    let n: usize = passwords.len();
    proof {
        assert(other_teams(texts(existing@), team_id@, texts(ids@)));
        assert(texts(ids@).len() == ids@.len());
    }
    if let Err(error) = check_reset(&ids, team_id, n == 2, access) {
        return Err(error);
    }
    if ids.len() == 0 {
        return Ok((ids, None));
    }
    match initialize_bundle(team_id, passwords) {
        Ok(empty) => Ok((ids, Some(empty))),
        Err(error) => Err(error),
    }
}

/// What comes of a bundle that is opened for a team: the other team that it belongs to, if it does,
/// and the empty bundle that takes its place; or why it cannot be opened or replaced.
pub open spec fn resets(
    contents: BundleContents,
    team_id: Seq<char>,
    passwords: RankedMap<Scope, String>,
    access: BundleAccess,
    result: Result<(Vec<String>, Option<BundleContents>), Error>,
) -> bool {
    let changed = passwords.entries().len() > 0 && contents.state.team_id@ != team_id;
    match result {
        Ok(found) => {
            &&& all_open(contents, passwords)
            &&& texts(found.0@) == (if changed {
                seq![contents.state.team_id@]
            } else {
                seq![]
            })
            &&& reset_message(
                texts(found.0@),
                team_id,
                passwords.entries().len() == 2,
                access,
            ) is None
            &&& match found.1 {
                Some(empty) => {
                    &&& changed
                    &&& empty_bundle(empty, team_id, passwords)
                },
                None => !changed,
            }
        },
        Err(error) => {
            ||| one_fails(contents, passwords, error)
            ||| all_open(contents, passwords) && changed && match reset_message(
                seq![contents.state.team_id@],
                team_id,
                passwords.entries().len() == 2,
                access,
            ) {
                Some(message) => error@ == message,
                None => password_set_message(password_views(passwords@)) == Some(error@),
            }
        },
    }
}

/// A bundle that belongs to another team is replaced by an empty one of the given team.
pub fn reset_bundle_if_team_changed(
    contents: &BundleContents,
    team_id: &str,
    passwords: &RankedMap<Scope, String>,
    access: BundleAccess,
) -> (result: Result<(Vec<String>, Option<BundleContents>), Error>)
    ensures
        resets(*contents, team_id@, *passwords, access, result),
{
    let existing = match collect_scope_team_ids(contents, passwords) {
        Ok(ids) => ids,
        Err(error) => {
            return Err(error);
        },
    };
    let ghost all = texts(existing@);
    let result = reset_for_team(&existing, team_id, passwords, access);
    proof {
        assert forall|found: Seq<Seq<char>>| #[trigger] other_teams(all, team_id@, found) implies
            found == (if all.len() > 0 && contents.state.team_id@ != team_id@ {
            seq![contents.state.team_id@]
        } else {
            seq![]
        }) by {
            lemma_one_team(all, contents.state.team_id@, team_id@, found);
        }
    }
    result
}

/// Where changes are made and both passwords are given and fit, a bundle of another team is replaced
/// by an empty one of the given team, and the other team is told, unless a scope does not open.
pub proof fn law_other_team_is_replaced(
    contents: BundleContents,
    team_id: Seq<char>,
    passwords: RankedMap<Scope, String>,
    result: Result<(Vec<String>, Option<BundleContents>), Error>,
)
    requires
        resets(contents, team_id, passwords, BundleAccess::Mutating, result),
        contents.state.team_id@ != team_id,
        passwords.entries().len() == 2,
        password_set_message(password_views(passwords@)) is None,
    ensures
        match result {
            Ok(found) => {
                &&& texts(found.0@) == seq![contents.state.team_id@]
                &&& found.1 matches Some(empty)
                &&& empty_bundle(empty, team_id, passwords)
            },
            Err(error) => one_fails(contents, passwords, error),
        },
{
}

/// Where nothing may be changed, a bundle of another team stays, and this is told, unless a scope
/// does not open.
pub proof fn law_reading_replaces_nothing(
    contents: BundleContents,
    team_id: Seq<char>,
    passwords: RankedMap<Scope, String>,
    result: Result<(Vec<String>, Option<BundleContents>), Error>,
)
    requires
        resets(contents, team_id, passwords, BundleAccess::ReadOnly, result),
        contents.state.team_id@ != team_id,
        passwords.entries().len() > 0,
    ensures
        result matches Err(error) && (one_fails(contents, passwords, error) || reset_message(
            seq![contents.state.team_id@],
            team_id,
            passwords.entries().len() == 2,
            BundleAccess::ReadOnly,
        ) == Some(error@)),
{
}

/// When all scopes belong to one team, it is the only other team, if it is another one.
proof fn lemma_one_team(
    existing: Seq<Seq<char>>,
    owner: Seq<char>,
    team_id: Seq<char>,
    found: Seq<Seq<char>>,
)
    requires
        other_teams(existing, team_id, found),
        forall|i: int| 0 <= i < existing.len() ==> #[trigger] existing[i] == owner,
    ensures
        found == (if existing.len() > 0 && owner != team_id {
            seq![owner]
        } else {
            seq![]
        }),
{
    assert forall|i: int| 0 <= i < found.len() implies #[trigger] found[i] == owner by {
        assert(found.contains(found[i]));
        assert(existing.contains(found[i]));
    }
    if existing.len() > 0 && owner != team_id {
        assert(existing[0] == owner);
        assert(existing.contains(owner));
        assert(found.contains(owner));
        if found.len() > 1 {
            assert(precedes(found[0], found[1]));
            crate::ordered::lemma_precedes_irreflexive(owner);
        }
        assert(found =~= seq![owner]);
    } else {
        if found.len() > 0 {
            assert(found.contains(found[0]));
            assert(existing.contains(found[0]));
        }
        assert(found =~= seq![]);
    }
}

/// Checks that a bundle was opened at all.
pub fn ensure_unlocked(passwords: &RankedMap<Scope, String>) -> (result: Result<(), Error>)
    ensures
        fails_as(
            result,
            if passwords.entries().len() == 0 {
                Some("no signing bundle sections were unlocked"@)
            } else {
                None
            },
        ),
{
    if passwords.is_empty() {
        Err(failure("no signing bundle sections were unlocked".to_owned()))
    } else {
        Ok(())
    }
}

/// Opens a bundle for a team with the passwords that open its scopes. Where it belongs to another
/// team, the second part of the result is the bundle that takes its place.
pub fn prepare_bundle_for_team(
    contents: &BundleContents,
    team_id: &str,
    passwords: RankedMap<Scope, String>,
    access: BundleAccess,
) -> (result: Result<(PreparedBundle, Option<BundleContents>), Error>)
    ensures
        if passwords.entries().len() == 0 {
            result matches Err(error) && error@ == "no signing bundle sections were unlocked"@
        } else {
            exists|found: Result<(Vec<String>, Option<BundleContents>), Error>| #[trigger]
                resets(*contents, team_id@, passwords, access, found) && match found {
                    Ok(reset) => result matches Ok(prepared) && prepared.0.passwords == passwords
                        && prepared.0.reset_from_team_ids == reset.0 && prepared.1 == reset.1,
                    Err(error) => result == Err::<(PreparedBundle, Option<BundleContents>), Error>(
                        error,
                    ),
                }
        },
{
    if let Err(error) = ensure_unlocked(&passwords) {
        return Err(error);
    }
    let found = reset_bundle_if_team_changed(contents, team_id, &passwords, access);
    assert(resets(*contents, team_id@, passwords, access, found));
    match found {
        Ok((reset_from_team_ids, renewed)) => Ok(
            (PreparedBundle { passwords, reset_from_team_ids }, renewed),
        ),
        Err(error) => Err(error),
    }
}

/// The line that tells of a reset.
pub fn bundle_reset_notice(
    bundle_path: &str,
    team_id: &str,
    previous: &Vec<String>,
) -> (line: Option<
    String,
>)
    ensures
        crate::text::owned(line) == (if previous@.len() == 0 {
            None
        } else {
            Some(
                "Reset "@ + bundle_path@ + " from team(s) "@ + joined(texts(previous@), ", "@)
                    + " to "@ + team_id@ + "."@,
            )
        }),
{
    if previous.len() == 0 {
        return None;
    }
    Some(
        cat3("Reset ", bundle_path, " from team(s) ").concat(join(previous, ", ").as_str()).concat(
            " to ",
        ).concat(team_id).concat("."),
    )
}

} // verus!
