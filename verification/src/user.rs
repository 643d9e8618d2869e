//! Users, their per-repository roles, and the session context that the
//! request layer consults for permission checks. Roles are nested
//! bitmasks: a role grants another exactly when it covers all of the
//! other's bits.

use crate::ident;
use crate::result::{Error, Res};
use std::collections::HashMap;
use vstd::prelude::*;

verus! {

broadcast use vstd::std_specs::hash::group_hash_axioms;

/// What a user may do in one repository, from nothing to granting roles.
#[derive(Clone, Copy, PartialEq, Eq, Structural, Debug)]
pub enum UserRole {
    Admin,
    Manager,
    User,
    Viewer,
    Nothing,
}

impl UserRole {
    /// The nested bitmask of each role.
    pub open spec fn spec_int(self) -> i64 {
        match self {
            UserRole::Admin => 0xffff,
            UserRole::Manager => 0x0fff,
            UserRole::User => 0x00ff,
            UserRole::Viewer => 0x000f,
            UserRole::Nothing => 0x0000,
        }
    }

    /// The role a stored mask denotes; an unknown mask denotes nothing.
    pub open spec fn spec_from_int(value: i64) -> UserRole {
        if value == 0xffff {
            UserRole::Admin
        } else if value == 0x0fff {
            UserRole::Manager
        } else if value == 0x00ff {
            UserRole::User
        } else if value == 0x000f {
            UserRole::Viewer
        } else {
            UserRole::Nothing
        }
    }

    /// `a` covers every bit of `b`.
    pub open spec fn spec_geq(a: UserRole, b: UserRole) -> bool {
        a.spec_int() & b.spec_int() == b.spec_int()
    }

    /// The role's bitmask.
    pub fn to_int(&self) -> (r: i64)
        ensures
            r == self.spec_int(),
    {
        match self {
            UserRole::Admin => 0xffff,
            UserRole::Manager => 0x0fff,
            UserRole::User => 0x00ff,
            UserRole::Viewer => 0x000f,
            UserRole::Nothing => 0x0000,
        }
    }

    /// The role a stored mask denotes.
    pub fn from_int(value: i64) -> (r: UserRole)
        ensures
            r == UserRole::spec_from_int(value),
    {
        if value == 0xffff {
            UserRole::Admin
        } else if value == 0x0fff {
            UserRole::Manager
        } else if value == 0x00ff {
            UserRole::User
        } else if value == 0x000f {
            UserRole::Viewer
        } else {
            UserRole::Nothing
        }
    }

    /// Whether this role grants at least what `other` grants.
    pub fn geq(&self, other: &UserRole) -> (r: bool)
        ensures
            r == UserRole::spec_geq(*self, *other),
    {
        self.to_int() & other.to_int() == other.to_int()
    }
}

/// The raw storage row of a user.
pub struct UserStorage {
    pub id: i64,
    pub name: String,
    pub password: String,
    pub token: Option<String>,
}

/// The raw storage row granting one user a role in one repository.
#[derive(Clone, Copy, PartialEq, Eq, Structural, Debug)]
pub struct UserRepoRoleStorage {
    pub id: i64,
    pub user_id: i64,
    pub repo_id: i64,
    pub role: i64,
}

/// A user as the services see them: id, name, and role per repository.
pub struct User {
    pub id: i64,
    pub name: String,
    pub repo: HashMap<i64, UserRole>,
}

/// The role map that a list of grant rows builds: later rows for the
/// same repository win.
pub open spec fn spec_role_map(s: Seq<UserRepoRoleStorage>) -> Map<i64, UserRole>
    decreases s.len(),
{
    if s.len() == 0 {
        Map::empty()
    } else {
        spec_role_map(s.drop_last()).insert(
            s.last().repo_id,
            UserRole::spec_from_int(s.last().role),
        )
    }
}

impl User {
    /// Builds a user from their storage row and their role grants.
    pub fn new(user: UserStorage, user_repo_list: &Vec<UserRepoRoleStorage>) -> (r: User)
        ensures
            r.id == user.id,
            r.name == user.name,
            r.repo@ == spec_role_map(user_repo_list@),
    {
        let mut repo_role_map: HashMap<i64, UserRole> = HashMap::new();
        let mut i: usize = 0;
        while i < user_repo_list.len()
            invariant
                0 <= i <= user_repo_list@.len(),
                repo_role_map@ == spec_role_map(user_repo_list@.take(i as int)),
            decreases user_repo_list@.len() - i,
        {
            let rr = user_repo_list[i];
            repo_role_map.insert(rr.repo_id, UserRole::from_int(rr.role));
            proof {
                assert(user_repo_list@.take(i + 1 as int).drop_last() =~= user_repo_list@.take(
                    i as int,
                ));
                assert(user_repo_list@.take(i + 1 as int).last() == user_repo_list@[i as int]);
            }
            i += 1;
        }
        proof {
            assert(user_repo_list@.take(user_repo_list@.len() as int) =~= user_repo_list@);
        }
        User { id: user.id, name: user.name, repo: repo_role_map }
    }
}

/// The session that the request layer keeps for a logged-in user: the
/// user's identity and roles, and the session token handed to clients.
pub struct UserContext {
    pub id: i64,
    pub name: String,
    pub repo: HashMap<i64, UserRole>,
    pub token: String,
}

impl UserContext {
    /// Opens a session for a user with a fresh random token.
    pub fn new(user: &User) -> (r: Self)
        ensures
            r.id == user.id,
            r.name == user.name,
            r.repo@ == user.repo@,
            r.token@.len() == 36,
    {
        UserContext {
            id: user.id,
            name: user.name.clone(),
            repo: user.repo.clone(),
            token: ident::random_name(),
        }
    }

    /// The user this session stands for.
    pub fn as_user_vo(&self) -> (r: User)
        ensures
            r.id == self.id,
            r.name == self.name,
            r.repo@ == self.repo@,
    {
        User { id: self.id, name: self.name.clone(), repo: self.repo.clone() }
    }

    /// Replaces the session's user, keeping the token.
    pub fn update(&mut self, user: &User)
        ensures
            final(self).id == user.id,
            final(self).name == user.name,
            final(self).repo@ == user.repo@,
            final(self).token == old(self).token,
    {
        self.id = user.id;
        self.name = user.name.clone();
        self.repo = user.repo.clone();
    }

    /// Whether this session's user holds at least `need_role` in the
    /// repository: granted exactly when a role is recorded there and it
    /// covers the needed role's bits.
    pub fn permission_check(&self, repo_id: i64, need_role: UserRole) -> (r: Res<()>)
        ensures
            r is Ok <==> (self.repo@.contains_key(repo_id) && UserRole::spec_geq(
                self.repo@[repo_id],
                need_role,
            )),
            r matches Err(e) ==> e is PermissionCheckFailed,
    {
        match self.repo.get(&repo_id) {
            Some(role) => {
                if role.geq(&need_role) {
                    Ok(())
                } else {
                    Err(Error::PermissionCheckFailed)
                }
            },
            None => Err(Error::PermissionCheckFailed),
        }
    }
}

} // verus!
