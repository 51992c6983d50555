//! Users of a local installation: a default user created once, explicit
//! users found again by email, and the selection of the user that requests
//! act for.
use vstd::prelude::*;

use crate::common::{now_micros, UserContext, UserId};
use crate::format::{public_id, public_suffix};
use crate::keyed::{find_key, has_key, keys_unique, lemma_find_at, lemma_find_some, lemma_push};
use crate::spend::model::clone_opt_string;
use crate::storage::StorageError;
use crate::text::{chars_of, lower, push_str, str_eq, string_from_chars, to_ascii_lowercase, trim, trim_str};

verus! {

/// The identity key of the installation's default user.
pub const DEFAULT_USER_IDENTITY_KEY: &'static str = "system:local-default";

/// The name under which storage records the selected default user.
pub const SELECTED_DEFAULT_USER_ID_KEY: &'static str = "selected_default_user_id";

/// The message refusing stored user records that collide or dangle.
pub const STORED_USERS_INCONSISTENT: &'static str = "stored user records are inconsistent";

#[derive(Clone, Copy, Debug, PartialEq, Eq, Structural)]
pub enum UserStatus {
    Active,
    Suspended,
}

#[derive(Debug, PartialEq, Eq)]
pub struct User {
    pub id: UserId,
    pub pub_id: String,
    pub display_name: String,
    pub email: Option<String>,
    pub status: UserStatus,
    pub created_at: i64,
    pub updated_at: i64,
}

impl Clone for User {
    fn clone(&self) -> (r: Self)
        ensures
            r == *self,
    {
        User {
            id: self.id,
            pub_id: self.pub_id.clone(),
            display_name: self.display_name.clone(),
            email: clone_opt_string(&self.email),
            status: self.status,
            created_at: self.created_at,
            updated_at: self.updated_at,
        }
    }
}

#[derive(Debug, PartialEq, Eq)]
pub enum UserError {
    MissingDefaultUser,
    Storage(StorageError),
    /// A freshly drawn random identifier already names a stored user.
    IdentifierCollision,
}

#[derive(Debug)]
pub struct CreateUserRequest {
    pub display_name: String,
    pub email: Option<String>,
}

/// The identity key of an email address: trimmed and lowercased.
pub open spec fn email_identity_key(email: Seq<char>) -> Seq<char> {
    "email:"@ + lower(trim(email))
}

/// The identity key under which a user created for `email` is found again.
pub fn identity_key_for_email(email: &str) -> (k: String)
    ensures
        k@ == email_identity_key(email@),
{
    let trimmed = trim_str(email);
    let lowered = to_ascii_lowercase(trimmed.as_str());
    let mut out: Vec<char> = chars_of("email:");
    push_str(&mut out, lowered.as_str());
    string_from_chars(out.as_slice())
}

/// The public identifier of a user.
pub open spec fn user_pub_id(id: UserId) -> Seq<char> {
    "usr"@ + seq!['_'] + public_suffix(id.0)
}

pub open spec fn user_id_key() -> spec_fn(User) -> UserId {
    |u: User| u.id
}

pub open spec fn user_pub_key() -> spec_fn(User) -> Seq<char> {
    |u: User| u.pub_id@
}

pub open spec fn identity_name() -> spec_fn((String, UserId)) -> Seq<char> {
    |e: (String, UserId)| e.0@
}

/// The users, the identity keys that find them, the user that storage has
/// selected as default, and the user that requests act for.
pub struct UserView {
    pub users: Seq<User>,
    pub identities: Seq<(String, UserId)>,
    pub selected_default_user_id: Option<UserId>,
    pub default_user_id: Option<UserId>,
}

/// The user stored under `id`.
pub open spec fn stored_user(v: UserView, id: UserId) -> Option<User> {
    find_key(v.users, user_id_key(), id)
}

/// The user that identity key `key` finds.
pub open spec fn user_by_identity(v: UserView, key: Seq<char>) -> Option<User> {
    match find_key(v.identities, identity_name(), key) {
        Some(entry) => stored_user(v, entry.1),
        None => None,
    }
}

/// Users have unique identifiers and public identifiers, identity keys are
/// unique, and each identity key finds a stored user.
pub open spec fn users_wf(v: UserView) -> bool {
    &&& keys_unique(v.users, user_id_key())
    &&& keys_unique(v.users, user_pub_key())
    &&& keys_unique(v.identities, identity_name())
    &&& forall|i: int| 0 <= i < v.identities.len() ==> has_key(v.users, user_id_key(), (#[trigger] v.identities[i]).1)
}

/// `u` is the user created for `request` under `id` at `now`.
pub open spec fn new_user(request: CreateUserRequest, id: UserId, now: i64, u: User) -> bool {
    &&& u.id == id
    &&& u.pub_id@ == user_pub_id(id)
    &&& u.display_name == request.display_name
    &&& u.email == request.email
    &&& u.status == UserStatus::Active
    &&& u.created_at == now
    &&& u.updated_at == now
}

/// `w` holds the identities of `v` and one more, `key` for `id`.
pub open spec fn identity_added(v: Seq<(String, UserId)>, w: Seq<(String, UserId)>, key: Seq<char>, id: UserId) -> bool {
    &&& w.len() == v.len() + 1
    &&& w.drop_last() == v
    &&& w.last().0@ == key
    &&& w.last().1 == id
}

/// The identity key of a request, when it gives an email.
pub open spec fn request_identity_key(request: CreateUserRequest) -> Option<Seq<char>> {
    match request.email {
        Some(e) => Some(email_identity_key(e@)),
        None => None,
    }
}

/// The outcome of creating a user for `request` with identifier `id` at
/// `now`: a user already found by the email is selected again; otherwise a
/// new user is stored and selected.
pub open spec fn create_user_outcome(
    v: UserView,
    request: CreateUserRequest,
    id: UserId,
    now: i64,
    r: Result<User, UserError>,
    w: UserView,
) -> bool {
    let existing = match request_identity_key(request) {
        Some(k) => user_by_identity(v, k),
        None => None,
    };
    match existing {
        Some(u) => r == Ok::<User, UserError>(u) && w == UserView {
            selected_default_user_id: Some(u.id),
            default_user_id: Some(u.id),
            ..v
        },
        None => if has_key(v.users, user_id_key(), id) || has_key(v.users, user_pub_key(), user_pub_id(id)) {
            r == Err::<User, UserError>(UserError::IdentifierCollision) && w == v
        } else {
            r matches Ok(u) && new_user(request, id, now, u) && w.users == v.users.push(u) && match request_identity_key(
                request,
            ) {
                Some(k) => identity_added(v.identities, w.identities, k, id),
                None => w.identities == v.identities,
            } && w.selected_default_user_id == Some(id) && w.default_user_id == Some(id)
        },
    }
}

/// The outcome of making sure a default user exists: the current default
/// user, else the user stored under the default identity key, else a new
/// `Hubu User` stored under that key.
pub open spec fn ensure_default_outcome(v: UserView, id: UserId, now: i64, r: Result<User, UserError>, w: UserView) -> bool {
    let current = match v.default_user_id {
        Some(d) => stored_user(v, d),
        None => None,
    };
    match current {
        Some(u) => r == Ok::<User, UserError>(u) && w == v,
        None => match user_by_identity(v, DEFAULT_USER_IDENTITY_KEY@) {
            Some(u) => r == Ok::<User, UserError>(u) && w == UserView { default_user_id: Some(u.id), ..v },
            None => if has_key(v.users, user_id_key(), id) || has_key(v.users, user_pub_key(), user_pub_id(id)) {
                r == Err::<User, UserError>(UserError::IdentifierCollision) && w == v
            } else {
                r matches Ok(u) && u.id == id && u.pub_id@ == user_pub_id(id) && u.display_name@ == "Hubu User"@
                    && u.email is None && u.status == UserStatus::Active && u.created_at == now && u.updated_at == now
                    && w.users == v.users.push(u) && identity_added(
                    v.identities,
                    w.identities,
                    DEFAULT_USER_IDENTITY_KEY@,
                    id,
                ) && w.selected_default_user_id == v.selected_default_user_id && w.default_user_id == Some(id)
            },
        },
    }
}

/// Users kept in memory, with the default user selection.
pub struct UserManager {
    users: Vec<User>,
    identities: Vec<(String, UserId)>,
    selected_default_user_id: Option<UserId>,
    default_user_id: Option<UserId>,
}

impl View for UserManager {
    type V = UserView;

    closed spec fn view(&self) -> UserView {
        UserView {
            users: self.users@,
            identities: self.identities@,
            selected_default_user_id: self.selected_default_user_id,
            default_user_id: self.default_user_id,
        }
    }
}

impl UserManager {
    pub open spec fn wf(&self) -> bool {
        users_wf(self@)
    }

    /// A manager with no users and no default user.
    pub fn new() -> (m: Self)
        ensures
            m.wf(),
            m@.users.len() == 0,
            m@.identities.len() == 0,
            m@.selected_default_user_id is None,
            m@.default_user_id is None,
    {
        UserManager { users: Vec::new(), identities: Vec::new(), selected_default_user_id: None, default_user_id: None }
    }

    fn user_position(&self, id: UserId) -> (r: Option<usize>)
        requires
            self.wf(),
        ensures
            match r {
                Some(i) => i < self@.users.len() && stored_user(self@, id) == Some(self@.users[i as int]),
                None => stored_user(self@, id) is None,
            },
    {
        let mut i: usize = 0;
        while i < self.users.len()
            invariant
                self.wf(),
                i <= self.users.len(),
                forall|j: int| 0 <= j < i ==> user_id_key()(#[trigger] self@.users[j]) != id,
            decreases self.users.len() - i,
        {
            if self.users[i].id == id {
                proof {
                    assert(user_id_key()(self@.users[i as int]) == id);
                    lemma_find_at(self@.users, user_id_key(), i as int);
                }
                return Some(i);
            }
            i = i + 1;
        }
        proof {
            if has_key(self@.users, user_id_key(), id) {
                lemma_find_some(self@.users, user_id_key(), id);
            }
        }
        None
    }

    fn pub_id_taken(&self, pub_id: &str) -> (r: bool)
        ensures
            r == has_key(self@.users, user_pub_key(), pub_id@),
    {
        let mut i: usize = 0;
        while i < self.users.len()
            invariant
                i <= self.users.len(),
                forall|j: int| 0 <= j < i ==> user_pub_key()(#[trigger] self@.users[j]) != pub_id@,
            decreases self.users.len() - i,
        {
            if str_eq(self.users[i].pub_id.as_str(), pub_id) {
                assert(user_pub_key()(self@.users[i as int]) == pub_id@);
                return true;
            }
            i = i + 1;
        }
        false
    }

    fn find_by_identity(&self, key: &str) -> (r: Option<User>)
        requires
            self.wf(),
        ensures
            r == user_by_identity(self@, key@),
    {
        let mut i: usize = 0;
        while i < self.identities.len()
            invariant
                self.wf(),
                i <= self.identities.len(),
                forall|j: int| 0 <= j < i ==> identity_name()(#[trigger] self@.identities[j]) != key@,
            decreases self.identities.len() - i,
        {
            if str_eq(self.identities[i].0.as_str(), key) {
                proof {
                    assert(identity_name()(self@.identities[i as int]) == key@);
                    lemma_find_at(self@.identities, identity_name(), i as int);
                }
                let id = self.identities[i].1;
                return match self.user_position(id) {
                    Some(p) => Some(self.users[p].clone()),
                    None => None,
                };
            }
            i = i + 1;
        }
        proof {
            if has_key(self@.identities, identity_name(), key@) {
                lemma_find_some(self@.identities, identity_name(), key@);
            }
        }
        None
    }

    /// Store `user`, found again under `identity_key` when one is given.
    fn insert_user(&mut self, user: User, identity_key: Option<String>)
        requires
            old(self).wf(),
            !has_key(old(self)@.users, user_id_key(), user.id),
            !has_key(old(self)@.users, user_pub_key(), user.pub_id@),
            identity_key matches Some(k) ==> find_key(old(self)@.identities, identity_name(), k@) is None,
        ensures
            final(self).wf(),
            final(self)@.users == old(self)@.users.push(user),
            match identity_key {
                Some(k) => identity_added(old(self)@.identities, final(self)@.identities, k@, user.id),
                None => final(self)@.identities == old(self)@.identities,
            },
            final(self)@.selected_default_user_id == old(self)@.selected_default_user_id,
            final(self)@.default_user_id == old(self)@.default_user_id,
    {
        let id = user.id;
        let ghost old_users = self@.users;
        proof {
            lemma_push(self@.users, user_id_key(), user);
            lemma_push(self@.users, user_pub_key(), user);
        }
        self.users.push(user);
        proof {
            assert forall|i: int| 0 <= i < self@.identities.len() implies has_key(
                self@.users,
                user_id_key(),
                (#[trigger] self@.identities[i]).1,
            ) by {
                assert(has_key(old_users, user_id_key(), self@.identities[i].1));
                let j = crate::keyed::key_index(old_users, user_id_key(), self@.identities[i].1);
                assert(self@.users[j] == old_users[j]);
            }
            assert(has_key(self@.users, user_id_key(), id)) by {
                assert(self@.users[old_users.len() as int] == user);
            }
        }
        match identity_key {
            Some(k) => {
                let entry = (k, id);
                proof {
                    if has_key(self@.identities, identity_name(), entry.0@) {
                        lemma_find_some(self@.identities, identity_name(), entry.0@);
                    }
                    lemma_push(self@.identities, identity_name(), entry);
                }
                let ghost before = self@.identities;
                self.identities.push(entry);
                proof {
                    assert(self@.identities.drop_last() =~= before);
                    assert forall|i: int| 0 <= i < self@.identities.len() implies has_key(
                        self@.users,
                        user_id_key(),
                        (#[trigger] self@.identities[i]).1,
                    ) by {
                        if i < before.len() {
                            assert(self@.identities[i] == before[i]);
                        }
                    }
                }
            },
            None => {},
        }
    }

    fn identity_taken(&self, key: &str) -> (r: bool)
        ensures
            r == has_key(self@.identities, identity_name(), key@),
    {
        let mut i: usize = 0;
        while i < self.identities.len()
            invariant
                i <= self.identities.len(),
                forall|j: int| 0 <= j < i ==> identity_name()(#[trigger] self@.identities[j]) != key@,
            decreases self.identities.len() - i,
        {
            if str_eq(self.identities[i].0.as_str(), key) {
                assert(identity_name()(self@.identities[i as int]) == key@);
                return true;
            }
            i = i + 1;
        }
        false
    }

    /// A manager over stored users and the identity keys that find them,
    /// acting for the stored default selection when it names a stored user.
    /// Records whose identifiers or identity keys collide, or an identity
    /// key of no stored user, are refused.
    pub fn from_records(users: Vec<User>, identities: Vec<(String, UserId)>, selected_default_user_id: Option<UserId>) -> (r: Result<Self, UserError>)
        ensures
            match r {
                Ok(m) => {
                    &&& m.wf()
                    &&& m@.users == users@
                    &&& m@.identities == identities@
                    &&& m@.selected_default_user_id == selected_default_user_id
                    &&& m@.default_user_id == match selected_default_user_id {
                        Some(id) => if has_key(users@, user_id_key(), id) { Some(id) } else { None },
                        None => None,
                    }
                },
                Err(e) => {
                    &&& !users_wf(UserView { users: users@, identities: identities@, selected_default_user_id, default_user_id: None })
                    &&& e matches UserError::Storage(StorageError::InvalidData(m)) && m@ == STORED_USERS_INCONSISTENT@
                },
            },
    {
        let mut m = UserManager::new();
        let mut i: usize = 0;
        while i < users.len()
            invariant
                m.wf(),
                i <= users.len(),
                m@.users == users@.take(i as int),
                m@.identities.len() == 0,
                m@.selected_default_user_id is None,
                m@.default_user_id is None,
            decreases users.len() - i,
        {
            let user = users[i].clone();
            let id_free = match m.user_position(user.id) {
                Some(_) => false,
                None => true,
            };
            if !id_free || m.pub_id_taken(user.pub_id.as_str()) {
                proof {
                    let records = UserView { users: users@, identities: identities@, selected_default_user_id, default_user_id: None };
                    let k = if !id_free {
                        crate::keyed::key_index(m@.users, user_id_key(), user.id)
                    } else {
                        crate::keyed::key_index(m@.users, user_pub_key(), user.pub_id@)
                    };
                    if !id_free {
                        lemma_find_some(m@.users, user_id_key(), user.id);
                    } else {
                        lemma_find_some(m@.users, user_pub_key(), user.pub_id@);
                    }
                    assert(users@[k] == m@.users[k]);
                    assert(users@[i as int] == user);
                    assert(!keys_unique(users@, user_id_key()) || !keys_unique(users@, user_pub_key()));
                    assert(!users_wf(records));
                }
                return Err(UserError::Storage(StorageError::InvalidData(String::from_str(STORED_USERS_INCONSISTENT))));
            }
            proof {
                if has_key(m@.users, user_id_key(), user.id) {
                    lemma_find_some(m@.users, user_id_key(), user.id);
                }
            }
            m.insert_user(user, None);
            proof {
                assert(users@.take(i + 1) =~= users@.take(i as int).push(users@[i as int]));
            }
            i = i + 1;
        }
        assert(users@.take(users.len() as int) =~= users@);
        let mut j: usize = 0;
        while j < identities.len()
            invariant
                m.wf(),
                j <= identities.len(),
                m@.users == users@,
                m@.identities == identities@.take(j as int),
                m@.selected_default_user_id is None,
                m@.default_user_id is None,
            decreases identities.len() - j,
        {
            let key = identities[j].0.clone();
            let id = identities[j].1;
            let known = match m.user_position(id) {
                Some(_) => true,
                None => false,
            };
            if m.identity_taken(key.as_str()) || !known {
                proof {
                    let records = UserView { users: users@, identities: identities@, selected_default_user_id, default_user_id: None };
                    assert(identities@[j as int].0@ == key@);
                    if has_key(m@.identities, identity_name(), key@) {
                        lemma_find_some(m@.identities, identity_name(), key@);
                        let k = crate::keyed::key_index(m@.identities, identity_name(), key@);
                        assert(identities@[k] == m@.identities[k]);
                        assert(identity_name()(identities@[k]) == identity_name()(identities@[j as int]));
                        assert(!keys_unique(identities@, identity_name()));
                    } else {
                        assert(!has_key(users@, user_id_key(), identities@[j as int].1)) by {
                            if has_key(users@, user_id_key(), id) {
                                lemma_find_some(users@, user_id_key(), id);
                            }
                        }
                    }
                    assert(!users_wf(records));
                }
                return Err(UserError::Storage(StorageError::InvalidData(String::from_str(STORED_USERS_INCONSISTENT))));
            }
            let ghost before = m@.identities;
            proof {
                if has_key(m@.users, user_id_key(), id) {
                    lemma_find_some(m@.users, user_id_key(), id);
                }
                lemma_push(m@.identities, identity_name(), (key, id));
            }
            m.identities.push((key, id));
            proof {
                assert(m@.identities == before.push((key, id)));
                assert(identities@[j as int] == (key, id));
                assert(identities@.take(j + 1) =~= identities@.take(j as int).push(identities@[j as int]));
                assert forall|k: int| 0 <= k < m@.identities.len() implies has_key(
                    m@.users,
                    user_id_key(),
                    (#[trigger] m@.identities[k]).1,
                ) by {
                    if k < before.len() {
                        assert(m@.identities[k] == before[k]);
                    }
                }
            }
            j = j + 1;
        }
        assert(identities@.take(identities.len() as int) =~= identities@);
        m.selected_default_user_id = selected_default_user_id;
        m.default_user_id = match selected_default_user_id {
            Some(id) => match m.user_position(id) {
                Some(_) => Some(id),
                None => None,
            },
            None => None,
        };
        proof {
            match selected_default_user_id {
                Some(id) => {
                    if has_key(users@, user_id_key(), id) {
                        lemma_find_some(users@, user_id_key(), id);
                    }
                },
                None => {},
            }
        }
        Ok(m)
    }

    /// Create a user for `request` with identifier `id` at `now` and select
    /// it as default. A user already found by the request's email is
    /// selected again instead.
    pub fn create_user_at(&mut self, request: CreateUserRequest, id: UserId, now: i64) -> (r: Result<User, UserError>)
        requires
            old(self).wf(),
        ensures
            final(self).wf(),
            create_user_outcome(old(self)@, request, id, now, r, final(self)@),
    {
        let identity_key = match &request.email {
            Some(email) => Some(identity_key_for_email(email.as_str())),
            None => None,
        };
        match &identity_key {
            Some(k) => {
                match self.find_by_identity(k.as_str()) {
                    Some(existing) => {
                        self.selected_default_user_id = Some(existing.id);
                        self.default_user_id = Some(existing.id);
                        return Ok(existing);
                    },
                    None => {},
                }
            },
            None => {},
        }
        let pub_id = public_id("usr", id.0);
        if self.user_position(id).is_some() || self.pub_id_taken(pub_id.as_str()) {
            return Err(UserError::IdentifierCollision);
        }
        let user = User {
            id,
            pub_id,
            display_name: request.display_name,
            email: request.email,
            status: UserStatus::Active,
            created_at: now,
            updated_at: now,
        };
        proof {
            match &identity_key {
                Some(k) => {
                    if has_key(self@.identities, identity_name(), k@) {
                        lemma_find_some(self@.identities, identity_name(), k@);
                        let e = self@.identities[crate::keyed::key_index(self@.identities, identity_name(), k@)];
                        assert(has_key(self@.users, user_id_key(), e.1));
                        lemma_find_some(self@.users, user_id_key(), e.1);
                    }
                },
                None => {},
            }
        }
        self.insert_user(user.clone(), identity_key);
        self.selected_default_user_id = Some(id);
        self.default_user_id = Some(id);
        Ok(user)
    }
}

impl UserManager {
    /// Create a user for `request` now, under a fresh identifier, and
    /// select it as default.
    pub fn create_user(&mut self, request: CreateUserRequest) -> (r: Result<User, UserError>)
        requires
            old(self).wf(),
        ensures
            final(self).wf(),
            exists|id: UserId, now: i64| #[trigger] create_user_outcome(old(self)@, request, id, now, r, final(self)@),
    {
        let id = UserId::new();
        let now = now_micros();
        let ghost request_copy = request;
        let r = self.create_user_at(request, id, now);
        assert(create_user_outcome(old(self)@, request_copy, id, now, r, self@));
        r
    }

    /// The default user, created once with identifier `id` at `now` when
    /// there is none.
    pub fn ensure_default_user_at(&mut self, id: UserId, now: i64) -> (r: Result<User, UserError>)
        requires
            old(self).wf(),
        ensures
            final(self).wf(),
            ensure_default_outcome(old(self)@, id, now, r, final(self)@),
    {
        match self.default_user_id {
            Some(d) => match self.user_position(d) {
                Some(p) => return Ok(self.users[p].clone()),
                None => {},
            },
            None => {},
        }
        match self.find_by_identity(DEFAULT_USER_IDENTITY_KEY) {
            Some(user) => {
                self.default_user_id = Some(user.id);
                return Ok(user);
            },
            None => {},
        }
        let pub_id = public_id("usr", id.0);
        if self.user_position(id).is_some() || self.pub_id_taken(pub_id.as_str()) {
            return Err(UserError::IdentifierCollision);
        }
        let user = User {
            id,
            pub_id,
            display_name: String::from_str("Hubu User"),
            email: None,
            status: UserStatus::Active,
            created_at: now,
            updated_at: now,
        };
        proof {
            if has_key(self@.identities, identity_name(), DEFAULT_USER_IDENTITY_KEY@) {
                lemma_find_some(self@.identities, identity_name(), DEFAULT_USER_IDENTITY_KEY@);
                let e = self@.identities[crate::keyed::key_index(self@.identities, identity_name(), DEFAULT_USER_IDENTITY_KEY@)];
                assert(has_key(self@.users, user_id_key(), e.1));
                lemma_find_some(self@.users, user_id_key(), e.1);
            }
        }
        self.insert_user(user.clone(), Some(String::from_str(DEFAULT_USER_IDENTITY_KEY)));
        self.default_user_id = Some(id);
        Ok(user)
    }

    /// The default user, created once now when there is none.
    pub fn ensure_default_user(&mut self) -> (r: Result<User, UserError>)
        requires
            old(self).wf(),
        ensures
            final(self).wf(),
            exists|id: UserId, now: i64| #[trigger] ensure_default_outcome(old(self)@, id, now, r, final(self)@),
    {
        let id = UserId::new();
        let now = now_micros();
        let r = self.ensure_default_user_at(id, now);
        assert(ensure_default_outcome(old(self)@, id, now, r, self@));
        r
    }

    /// The user that requests act for, if one is selected and stored.
    pub fn default_user(&self) -> (r: Result<Option<User>, UserError>)
        requires
            self.wf(),
        ensures
            r == Ok::<Option<User>, UserError>(
                match self@.default_user_id {
                    Some(d) => stored_user(self@, d),
                    None => None,
                },
            ),
    {
        match self.default_user_id {
            Some(d) => match self.user_position(d) {
                Some(p) => Ok(Some(self.users[p].clone())),
                None => Ok(None),
            },
            None => Ok(None),
        }
    }

    /// The context of the user that requests act for.
    pub fn default_user_context(&self) -> (r: Result<UserContext, UserError>)
        ensures
            match self@.default_user_id {
                Some(d) => r == Ok::<UserContext, UserError>(UserContext { user_id: d }),
                None => r == Err::<UserContext, UserError>(UserError::MissingDefaultUser),
            },
    {
        match self.default_user_id {
            Some(d) => Ok(UserContext::new(d)),
            None => Err(UserError::MissingDefaultUser),
        }
    }

    /// The identifier of the user whose public identifier is `pub_id`.
    pub fn user_id_for_pub_id(&self, pub_id: &str) -> (r: Result<Option<UserId>, UserError>)
        requires
            self.wf(),
        ensures
            r == Ok::<Option<UserId>, UserError>(
                match find_key(self@.users, user_pub_key(), pub_id@) {
                    Some(u) => Some(u.id),
                    None => None,
                },
            ),
    {
        let mut i: usize = 0;
        while i < self.users.len()
            invariant
                self.wf(),
                i <= self.users.len(),
                forall|j: int| 0 <= j < i ==> user_pub_key()(#[trigger] self@.users[j]) != pub_id@,
            decreases self.users.len() - i,
        {
            if str_eq(self.users[i].pub_id.as_str(), pub_id) {
                proof {
                    assert(user_pub_key()(self@.users[i as int]) == pub_id@);
                    lemma_find_at(self@.users, user_pub_key(), i as int);
                }
                return Ok(Some(self.users[i].id));
            }
            i = i + 1;
        }
        proof {
            if has_key(self@.users, user_pub_key(), pub_id@) {
                lemma_find_some(self@.users, user_pub_key(), pub_id@);
            }
        }
        Ok(None)
    }

    /// The user `user_id`.
    pub fn user_for_id(&self, user_id: &UserId) -> (r: Result<Option<User>, UserError>)
        requires
            self.wf(),
        ensures
            r == Ok::<Option<User>, UserError>(stored_user(self@, *user_id)),
    {
        match self.user_position(*user_id) {
            Some(p) => Ok(Some(self.users[p].clone())),
            None => Ok(None),
        }
    }
}

impl Default for UserManager {
    fn default() -> (m: Self)
        ensures
            m.wf(),
            m@.users.len() == 0,
            m@.identities.len() == 0,
            m@.selected_default_user_id is None,
            m@.default_user_id is None,
    {
        UserManager::new()
    }
}

/// Once a default user exists, making sure of it again changes nothing and
/// gives the same user.
pub proof fn lemma_default_user_is_created_once(
    v: UserView,
    first_id: UserId,
    first_now: i64,
    first: User,
    w: UserView,
    second_id: UserId,
    second_now: i64,
    second: Result<User, UserError>,
    u: UserView,
)
    requires
        users_wf(v),
        users_wf(w),
        ensure_default_outcome(v, first_id, first_now, Ok(first), w),
        ensure_default_outcome(w, second_id, second_now, second, u),
    ensures
        second == Ok::<User, UserError>(first),
        u == w,
{
    let current = match v.default_user_id {
        Some(d) => stored_user(v, d),
        None => None,
    };
    match current {
        Some(x) => {},
        None => match user_by_identity(v, DEFAULT_USER_IDENTITY_KEY@) {
            Some(x) => {},
            None => {
                lemma_find_at(w.users, user_id_key(), v.users.len() as int);
            },
        },
    }
    assert(w.default_user_id == Some(first.id));
    assert(stored_user(w, first.id) == Some(first));
}

/// Creating a user again with the same email gives back the user that the
/// first creation stored or found, selects it, and stores no other user.
pub proof fn lemma_same_email_finds_same_user(
    v: UserView,
    request: CreateUserRequest,
    again: CreateUserRequest,
    first_id: UserId,
    first_now: i64,
    first: User,
    w: UserView,
    second_id: UserId,
    second_now: i64,
    second: Result<User, UserError>,
    u: UserView,
)
    requires
        users_wf(v),
        users_wf(w),
        request.email is Some,
        again.email is Some,
        email_identity_key(request.email.unwrap()@) == email_identity_key(again.email.unwrap()@),
        create_user_outcome(v, request, first_id, first_now, Ok(first), w),
        create_user_outcome(w, again, second_id, second_now, second, u),
    ensures
        second == Ok::<User, UserError>(first),
        u.users == w.users,
        u.identities == w.identities,
        u.default_user_id == Some(first.id),
{
    let k = email_identity_key(request.email.unwrap()@);
    match user_by_identity(v, k) {
        Some(x) => {},
        None => {
            let last = v.identities.len() as int;
            assert(w.identities[last] == w.identities.last());
            lemma_find_at(w.identities, identity_name(), last);
            lemma_find_at(w.users, user_id_key(), v.users.len() as int);
        },
    }
    assert(user_by_identity(w, k) == Some(first));
}

} // verus!
