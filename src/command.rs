use vstd::prelude::*;

use crate::data::{Data, DataView};
use crate::user::User;
use crate::write::{decimal, in_id_order, listing, user_text, write_decimal};

pub use crate::write::{show, write_user};

pub use crate::data::{read_data, save_data};

verus! {

/// Why an operation on the registry did not go through.
#[derive(Debug, PartialEq, Eq, Structural)]
pub enum Error {
    /// No user is stored under this identifier.
    UserNotFound(usize),
    /// A saved store whose next identifier is not the lowest free one.
    InconsistentNextId {
        /// The identifier that was saved.
        stored: usize,
        /// The lowest identifier that the saved users leave free.
        expected: usize,
    },
}

/// Adds `user` to the store and returns the identifier it got.
pub fn add(data: &mut Data, user: User) -> (r: usize)
    requires
        old(data)@.wf(),
    ensures
        old(data)@.added(user, r, final(data)@),
{
    data.add_user(user)
}

/// A copy of the user stored under `id`.
pub fn get(data: &Data, id: usize) -> (r: Result<User, Error>)
    ensures
        r == if data@.users.contains_key(id) {
            Ok::<User, Error>(data@.users[id])
        } else {
            Err(Error::UserNotFound(id))
        },
{
    match data.user(id) {
        Some(user) => Ok(user.clone()),
        None => Err(Error::UserNotFound(id)),
    }
}

/// Removes the user stored under `id` and returns it. The store is left as
/// it was where there is none.
pub fn remove(data: &mut Data, id: usize) -> (r: Result<User, Error>)
    requires
        old(data)@.wf(),
    ensures
        old(data)@.removed(id, r.ok(), final(data)@),
        r is Err ==> r == Err::<User, Error>(Error::UserNotFound(id)),
{
    match data.remove_user(id) {
        Some(user) => Ok(user),
        None => Err(Error::UserNotFound(id)),
    }
}

/// One operation on the registry, as the command line names it.
#[derive(Debug)]
pub enum Command {
    /// Store a new user.
    Add {
        /// The user's first name.
        first_name: String,
        /// The user's surname (last name).
        last_name: String,
        /// The user's email address.
        email: String,
        /// The user's telephone number.
        phone_number: u64,
    },
    /// Show the user stored under an identifier.
    Get {
        /// The identifier of the user to show.
        id: usize,
    },
    /// Remove the user stored under an identifier.
    Remove {
        /// The identifier of the user to remove.
        id: usize,
    },
    /// Remove every user.
    Reset,
    /// Show every user, by identifier.
    Show,
}

/// What is left for the caller to do once a command has run on the store.
#[derive(Debug)]
pub enum Outcome {
    /// Write the store back.
    Save,
    /// Show this text.
    Print(String),
}

/// Runs `command` on `data`.
///
/// A command that changes the store asks for it to be saved; one that reads
/// it hands back the text to show. A missing identifier is an error, and
/// leaves the store as it was.
pub fn execute(command: Command, data: &mut Data) -> (r: Result<Outcome, Error>)
    requires
        old(data)@.wf(),
    ensures
        final(data)@.wf(),
        match command {
            Command::Add { first_name, last_name, email, phone_number } => {
                let id = old(data)@.next_id;
                let u = final(data)@.users[id];
                &&& r matches Ok(Outcome::Save)
                &&& old(data)@.added(u, id, final(data)@)
                &&& u.first_name == first_name
                &&& u.last_name == last_name
                &&& u.email == email
                &&& u.phone_number@ == decimal(phone_number as nat)
            },
            Command::Get { id } => {
                &&& final(data)@ == old(data)@
                &&& if old(data)@.users.contains_key(id) {
                    r matches Ok(Outcome::Print(t)) && t@ == user_text(old(data)@.users[id], id)
                } else {
                    r == Err::<Outcome, Error>(Error::UserNotFound(id))
                }
            },
            Command::Remove { id } => {
                &&& old(data)@.removed(id, if r is Ok {
                    Some(old(data)@.users[id])
                } else {
                    None
                }, final(data)@)
                &&& if old(data)@.users.contains_key(id) {
                    r matches Ok(Outcome::Save)
                } else {
                    r == Err::<Outcome, Error>(Error::UserNotFound(id))
                }
            },
            Command::Reset => {
                &&& r matches Ok(Outcome::Save)
                &&& final(data)@ == DataView::empty()
            },
            Command::Show => {
                &&& final(data)@ == old(data)@
                &&& r matches Ok(Outcome::Print(t))
                &&& exists|s: Seq<(usize, User)>|
                    in_id_order(old(data)@.users, s) && t@ == listing(s)
            },
        },
{
    match command {
        Command::Add { first_name, last_name, email, phone_number } => {
            let mut phone = String::new();
            write_decimal(&mut phone, phone_number as u128);
            assert(phone@ =~= decimal(phone_number as nat));
            let user = User { first_name, last_name, email, phone_number: phone };
            crate::command::add(data, user);
            Ok(Outcome::Save)
        },
        Command::Get { id } => {
            let user = get(data, id)?;
            let mut text = String::new();
            write_user(&user, id, &mut text);
            Ok(Outcome::Print(text))
        },
        Command::Remove { id } => {
            remove(data, id)?;
            Ok(Outcome::Save)
        },
        Command::Reset => {
            data.reset();
            Ok(Outcome::Save)
        },
        Command::Show => {
            let mut text = String::new();
            show(data, &mut text);
            Ok(Outcome::Print(text))
        },
    }
}

} // verus!
