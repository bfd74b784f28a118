use crate::auth::password::{hash, max_password_len, params_in_range, password_matches};
use crate::text::utf8_len;
use vstd::prelude::*;

verus! {

/// What a reader sees of another member: the public part of an account and
/// whether the reader follows it.
#[derive(Clone, Debug)]
pub struct Profile {
    pub username: String,
    pub bio: Option<String>,
    pub image: Option<String>,
    pub following: bool,
}

/// The mathematical value of a [`Profile`].
pub struct ProfileView {
    pub username: Seq<char>,
    pub bio: Option<Seq<char>>,
    pub image: Option<Seq<char>>,
    pub following: bool,
}

/// The characters of an optional string.
pub open spec fn opt_view(s: Option<String>) -> Option<Seq<char>> {
    match s {
        Some(s) => Some(s@),
        None => None,
    }
}

impl View for Profile {
    type V = ProfileView;

    open spec fn view(&self) -> ProfileView {
        ProfileView {
            username: self.username@,
            bio: opt_view(self.bio),
            image: opt_view(self.image),
            following: self.following,
        }
    }
}

/// Whether two optional strings hold the same characters.
pub fn opt_string_eq(a: &Option<String>, b: &Option<String>) -> (r: bool)
    ensures
        r == (opt_view(*a) == opt_view(*b)),
{
    match (a, b) {
        (Some(x), Some(y)) => *x == *y,
        (None, None) => true,
        _ => false,
    }
}

impl PartialEq for Profile {
    fn eq(&self, other: &Profile) -> (r: bool) {
        self.username == other.username && opt_string_eq(&self.bio, &other.bio) && opt_string_eq(
            &self.image,
            &other.image,
        ) && self.following == other.following
    }
}

impl vstd::std_specs::cmp::PartialEqSpecImpl for Profile {
    open spec fn obeys_eq_spec() -> bool {
        true
    }

    open spec fn eq_spec(&self, other: &Profile) -> bool {
        self@ == other@
    }
}

impl Eq for Profile {

}

impl Profile {
    /// The profile of `username` as a stranger sees it: nobody is followed
    /// until a reader is known to follow.
    pub fn new(username: String, bio: Option<String>, image: Option<String>) -> (p: Profile)
        ensures
            p@ == (ProfileView {
                username: username@,
                bio: opt_view(bio),
                image: opt_view(image),
                following: false,
            }),
    {
        Profile { username, bio, image, following: false }
    }
}

/// An account as its owner sees it.
#[derive(Clone, Debug)]
pub struct User {
    pub username: String,
    pub email: String,
    pub bio: Option<String>,
    pub image: Option<String>,
}

/// The mathematical value of a [`User`].
pub struct UserView {
    pub username: Seq<char>,
    pub email: Seq<char>,
    pub bio: Option<Seq<char>>,
    pub image: Option<Seq<char>>,
}

impl View for User {
    type V = UserView;

    open spec fn view(&self) -> UserView {
        UserView {
            username: self.username@,
            email: self.email@,
            bio: opt_view(self.bio),
            image: opt_view(self.image),
        }
    }
}

impl Default for User {
    fn default() -> (u: User)
        ensures
            u@ == (UserView { username: Seq::empty(), email: Seq::empty(), bio: None, image: None }),
    {
        User { username: String::new(), email: String::new(), bio: None, image: None }
    }
}

/// What registering a member writes: the account, and the hash to store in
/// place of the password.
pub struct NewUser {
    pub user: User,
    pub password_hash: String,
}

/// What saving a member's settings writes besides email, bio and image.
pub enum PasswordChange {
    /// The stored hash stays as it is.
    Keep,
    /// The stored hash is replaced by this one.
    Replace(String),
}

impl User {
    /// The profile of a member as a reader sees it. `followed` is what is
    /// known of the reader: `None` for an anonymous reader, else whether the
    /// reader follows the member.
    pub fn profile(
        username: String,
        bio: Option<String>,
        image: Option<String>,
        followed: Option<bool>,
    ) -> (p: Profile)
        ensures
            p@ == (ProfileView {
                username: username@,
                bio: opt_view(bio),
                image: opt_view(image),
                following: followed == Some(true),
            }),
    {
        let mut profile = Profile::new(username, bio, image);
        if let Some(follows) = followed {
            profile.following = follows;
        }
        profile
    }

    /// A new account: no bio and no image yet, and a fresh hash that accepts
    /// `password`.
    pub fn create(username: &str, email: &str, password: &str) -> (new: NewUser)
        requires
            utf8_len(password@) <= max_password_len(),
        ensures
            new.user@ == (UserView { username: username@, email: email@, bio: None, image: None }),
            password_matches(password@, new.password_hash@),
            params_in_range(new.password_hash@),
    {
        let password_hash = hash(password);
        NewUser {
            user: User {
                username: username.to_owned(),
                email: email.to_owned(),
                bio: None,
                image: None,
            },
            password_hash,
        }
    }

    /// What becomes of the stored password when the settings are saved: it
    /// stays unless a new password is given, and the new hash accepts the
    /// new password.
    pub fn update(&self, password: Option<&str>) -> (change: PasswordChange)
        requires
            password matches Some(p) ==> utf8_len(p@) <= max_password_len(),
        ensures
            match password {
                Some(p) => change matches PasswordChange::Replace(h) && password_matches(p@, h@)
                    && params_in_range(h@),
                None => change is Keep,
            },
    {
        match password {
            Some(p) => PasswordChange::Replace(hash(p)),
            None => PasswordChange::Keep,
        }
    }
}

} // verus!
