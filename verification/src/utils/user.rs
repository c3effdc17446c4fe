//! Reading a principal out of what the user directory answers.
use crate::models::user::{User as UserModel, UserView};
use crate::text::str_eq;
use vstd::prelude::*;
use vstd::string::*;

verus! {

/// Lookups in the user directory.
pub struct User;

/// Why a lookup in the user directory gave no principal.
#[derive(Debug, Clone, Copy, PartialEq, Eq, Structural)]
pub enum GetUserError {
    NotFound,
    RequestFailed,
    MissingAttributes,
    InvalidUserSchema,
}

/// One attribute of a directory entry.
#[derive(Debug, PartialEq, Eq)]
pub struct UserAttribute {
    pub name: String,
    pub value: Option<String>,
}

/// One entry of the user directory; its attributes may be withheld.
#[derive(Debug, PartialEq, Eq)]
pub struct DirectoryEntry {
    pub attributes: Option<Vec<UserAttribute>>,
}

/// The attributes of an entry that describe a principal, each as it was last
/// given.
#[derive(Debug, PartialEq, Eq)]
pub struct UserAttributes {
    pub sub: Option<String>,
    pub name: Option<String>,
    pub email: Option<String>,
}

/// The value of the last attribute called `name`; an attribute without a
/// value counts as the empty text. `None` when no attribute has that name.
pub open spec fn last_value(attributes: Seq<UserAttribute>, name: Seq<char>) -> Option<Seq<char>>
    decreases attributes.len(),
{
    if attributes.len() == 0 {
        None
    } else if attributes.last().name@ == name {
        Some(
            match attributes.last().value {
                Some(text) => text@,
                None => Seq::empty(),
            },
        )
    } else {
        last_value(attributes.drop_last(), name)
    }
}

/// The principal that a list of attributes describes: it needs a `sub`, a
/// `name` and an `email`.
pub open spec fn principal_of(attributes: Seq<UserAttribute>) -> Result<UserView, GetUserError> {
    match (last_value(attributes, "sub"@), last_value(attributes, "name"@), last_value(
        attributes,
        "email"@,
    )) {
        (Some(sub), Some(name), Some(email)) => Ok(UserView { sub, name, email }),
        _ => Err(GetUserError::InvalidUserSchema),
    }
}

/// What a lookup by sub gives for a listing of the directory: a failed
/// request, an empty listing and a first entry without attributes are errors
/// of their own; otherwise the first entry decides.
pub open spec fn by_sub_of(listing: Option<Vec<DirectoryEntry>>) -> Result<UserView, GetUserError> {
    match listing {
        None => Err(GetUserError::RequestFailed),
        Some(entries) => if entries@.len() == 0 {
            Err(GetUserError::NotFound)
        } else {
            match entries@[0].attributes {
                None => Err(GetUserError::MissingAttributes),
                Some(attributes) => principal_of(attributes@),
            }
        },
    }
}

/// What a lookup by email gives for the entry the directory answered with,
/// if it answered with one.
pub open spec fn by_email_of(entry: Option<DirectoryEntry>) -> Result<UserView, GetUserError> {
    match entry {
        None => Err(GetUserError::NotFound),
        Some(found) => match found.attributes {
            None => Err(GetUserError::MissingAttributes),
            Some(attributes) => principal_of(attributes@),
        },
    }
}

/// Whether a lookup result is the given outcome.
pub open spec fn same_outcome(
    result: Result<UserModel, GetUserError>,
    outcome: Result<UserView, GetUserError>,
) -> bool {
    match result {
        Ok(user) => outcome == Ok::<UserView, GetUserError>(user@),
        Err(error) => outcome == Err::<UserView, GetUserError>(error),
    }
}

/// The filter that selects the directory entry of `sub`.
pub open spec fn sub_filter_of(sub: Seq<char>) -> Seq<char> {
    "sub = \""@ + sub + "\""@
}

/// The text an attribute gives: its value, or the empty text without one.
fn value_text(attribute: &UserAttribute) -> (text: String)
    ensures
        text@ == match attribute.value {
            Some(value) => value@,
            None => Seq::empty(),
        },
{
    match &attribute.value {
        Some(value) => value.clone(),
        None => String::new(),
    }
}

/// Collects the `sub`, `name` and `email` of a directory entry. Where a name
/// occurs more than once the last occurrence counts.
pub fn generate_attrs_map(attributes_list: &Vec<UserAttribute>) -> (response: UserAttributes)
    ensures
        response.sub.deep_view() == last_value(attributes_list@, "sub"@),
        response.name.deep_view() == last_value(attributes_list@, "name"@),
        response.email.deep_view() == last_value(attributes_list@, "email"@),
{
    let mut response = UserAttributes { sub: None, name: None, email: None };
    let mut i: usize = 0;
    while i < attributes_list.len()
        invariant
            i <= attributes_list.len(),
            response.sub.deep_view() == last_value(attributes_list@.subrange(0, i as int), "sub"@),
            response.name.deep_view() == last_value(
                attributes_list@.subrange(0, i as int),
                "name"@,
            ),
            response.email.deep_view() == last_value(
                attributes_list@.subrange(0, i as int),
                "email"@,
            ),
        decreases attributes_list.len() - i,
    {
        let attribute = &attributes_list[i];
        let ghost next = attributes_list@.subrange(0, i + 1);
        assert(next.last() == attributes_list@[i as int]);
        assert(next.drop_last() =~= attributes_list@.subrange(0, i as int));
        if str_eq(attribute.name.as_str(), "name") {
            response.name = Some(value_text(attribute));
        }
        if str_eq(attribute.name.as_str(), "email") {
            response.email = Some(value_text(attribute));
        }
        if str_eq(attribute.name.as_str(), "sub") {
            response.sub = Some(value_text(attribute));
        }
        i = i + 1;
    }
    assert(attributes_list@.subrange(0, attributes_list@.len() as int) =~= attributes_list@);
    response
}

/// The principal that a directory entry's attributes describe.
pub fn user_from_attributes(attributes_list: &Vec<UserAttribute>) -> (result: Result<
    UserModel,
    GetUserError,
>)
    ensures
        same_outcome(result, principal_of(attributes_list@)),
{
    let response = generate_attrs_map(attributes_list);
    match (response.sub, response.name, response.email) {
        (Some(sub), Some(name), Some(email)) => Ok(UserModel { sub, name, email }),
        _ => Err(GetUserError::InvalidUserSchema),
    }
}

impl User {
    /// The filter that selects the directory entry of `sub`.
    pub fn sub_filter(sub: &str) -> (filter: String)
        ensures
            filter@ == sub_filter_of(sub@),
    {
        let mut filter = String::from_str("sub = \"");
        filter.append(sub);
        filter.append("\"");
        filter
    }

    /// The principal with a given sub, from the listing that the directory
    /// gave for `sub_filter`; `None` stands for a request that failed.
    pub fn get_user_by_sub(listing: &Option<Vec<DirectoryEntry>>) -> (result: Result<
        UserModel,
        GetUserError,
    >)
        ensures
            same_outcome(result, by_sub_of(*listing)),
    {
        let entries = match listing {
            Some(entries) => entries,
            None => {
                return Err(GetUserError::RequestFailed);
            },
        };
        if entries.len() == 0 {
            return Err(GetUserError::NotFound);
        }
        match &entries[0].attributes {
            Some(attributes) => user_from_attributes(attributes),
            None => Err(GetUserError::MissingAttributes),
        }
    }

    /// The principal with a given email, from the entry that the directory
    /// gave for it; `None` stands for a request that failed.
    pub fn get_user_by_email(entry: &Option<DirectoryEntry>) -> (result: Result<
        UserModel,
        GetUserError,
    >)
        ensures
            same_outcome(result, by_email_of(*entry)),
    {
        let found = match entry {
            Some(found) => found,
            None => {
                return Err(GetUserError::NotFound);
            },
        };
        match &found.attributes {
            Some(attributes) => user_from_attributes(attributes),
            None => Err(GetUserError::MissingAttributes),
        }
    }
}

} // verus!
