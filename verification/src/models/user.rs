//! The principal behind a request.
use crate::models::common::{AttributeValue, AttributeView, text_attribute, unique_names};
use vstd::prelude::*;

verus! {

/// A principal as the identity provider describes it.
#[derive(Debug, PartialEq, Eq)]
pub struct User {
    pub sub: String,
    pub name: String,
    pub email: String,
}

/// What a `User` holds, as sequences of characters.
pub ghost struct UserView {
    pub sub: Seq<char>,
    pub name: Seq<char>,
    pub email: Seq<char>,
}

impl View for User {
    type V = UserView;

    open spec fn view(&self) -> UserView {
        UserView { sub: self.sub@, name: self.name@, email: self.email@ }
    }
}

/// The view of a principal that may be absent.
pub open spec fn optional_user_view(user: Option<User>) -> Option<UserView> {
    match user {
        Some(found) => Some(found@),
        None => None,
    }
}

impl Clone for User {
    fn clone(&self) -> (copy: Self)
        ensures
            copy@ == self@,
    {
        User { sub: self.sub.clone(), name: self.name.clone(), email: self.email.clone() }
    }
}

/// The map attribute that stores a snapshot of a principal.
pub open spec fn user_attribute(user: UserView) -> AttributeView {
    AttributeView::M(
        seq![
            ("sub"@, AttributeView::S(user.sub)),
            ("name"@, AttributeView::S(user.name)),
            ("email"@, AttributeView::S(user.email)),
        ],
    )
}

/// The fields of a stored principal have three different names.
pub proof fn lemma_user_fields_unique(user: UserView)
    ensures
        user_attribute(user) is M,
        unique_names(user_attribute(user)->M_0),
{
    reveal_strlit("sub");
    reveal_strlit("name");
    reveal_strlit("email");
    assert("sub"@.len() == 3 && "name"@.len() == 4 && "email"@.len() == 5);
}

impl User {
    /// The map attribute that stores a snapshot of this principal.
    pub fn to_attribute(&self) -> (value: AttributeValue)
        ensures
            value@ == user_attribute(self@),
            unique_names(value@->M_0),
    {
        proof {
            lemma_user_fields_unique(self@);
        }
        let mut fields: Vec<(String, AttributeValue)> = Vec::new();
        fields.push(text_attribute("sub", self.sub.as_str()));
        fields.push(text_attribute("name", self.name.as_str()));
        fields.push(text_attribute("email", self.email.as_str()));
        let value = AttributeValue::M(fields);
        assert(value@->M_0 =~= user_attribute(self@)->M_0);
        value
    }
}

} // verus!
