//! The pages for logging in, registering and settings.

use crate::models::article::{contains_name, strs};
use crate::models::user::{opt_view, User, UserView};
use crate::pages::profile::{profile_link, profile_path};
use vstd::prelude::*;

verus! {

/// Notes a failed login above the form, once.
pub fn login_errors(errors: &mut Vec<String>, failed: bool)
    ensures
        strs(final(errors)@) == if failed && old(errors)@.len() == 0 {
            seq!["Incorrect username or password."@]
        } else {
            strs(old(errors)@)
        },
{
    if failed && errors.is_empty() {
        errors.push("Incorrect username or password.".to_owned());
        assert(strs(errors@) == seq!["Incorrect username or password."@]);
    }
}

/// What a person is told whose registration failed: what the server said,
/// or that something went wrong where it did not get to say anything.
pub open spec fn register_message(server_message: Option<Seq<char>>) -> Seq<char> {
    match server_message {
        Some(m) => m,
        None => "Something went wrong"@,
    }
}

/// Notes a failed registration above the form, unless the same is noted
/// already.
pub fn register_errors(errors: &mut Vec<String>, server_message: Option<String>)
    ensures
        ({
            let message = register_message(opt_view(server_message));
            strs(final(errors)@) == if strs(old(errors)@).contains(message) {
                strs(old(errors)@)
            } else {
                strs(old(errors)@).push(message)
            }
        }),
{
    let message = match server_message {
        Some(m) => m,
        None => "Something went wrong".to_owned(),
    };
    if !contains_name(errors, message.as_str()) {
        let ghost before = strs(errors@);
        errors.push(message);
        assert(strs(errors@) == before.push(message@));
    }
}

/// Whether the list of errors is shown at all.
pub fn show_errors(errors: &Vec<String>) -> (shown: bool)
    ensures
        shown == (errors@.len() > 0),
{
    !errors.is_empty()
}

/// The account as the settings form describes it, and the address to go to
/// once it is saved: the member's own page.
pub fn settings(username: String, email: String, image: Option<String>, bio: Option<String>) -> (r:
    (User, String))
    ensures
        r.0@ == (UserView {
            username: username@,
            email: email@,
            bio: opt_view(bio),
            image: opt_view(image),
        }),
        r.1@ == profile_path(username@),
{
    let link = profile_link(username.as_str());
    (User { username, email, bio, image }, link)
}

} // verus!
