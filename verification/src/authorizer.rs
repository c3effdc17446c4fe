//! Opening a channel: a verified principal gets a connection item and a
//! policy that allows exactly the invocation that was asked for.
use crate::models::user::{User, UserView, optional_user_view};
use crate::registry::{Connection, ConnectionView, connection_of};
use vstd::prelude::*;
use vstd::string::*;

verus! {

/// One statement of a policy.
#[derive(Debug, PartialEq, Eq)]
pub struct IAMStatement {
    pub action: String,
    pub effect: String,
    pub resource: String,
}

/// A policy document.
#[derive(Debug, PartialEq, Eq)]
pub struct PolicyDocument {
    pub version: String,
    pub statement: Vec<IAMStatement>,
}

/// What the authorizer answers for a principal it lets in.
#[derive(Debug, PartialEq, Eq)]
pub struct AuthorizerResponse {
    pub principal_id: String,
    pub policy_document: PolicyDocument,
}

/// What an `IAMStatement` holds.
pub ghost struct IAMStatementView {
    pub action: Seq<char>,
    pub effect: Seq<char>,
    pub resource: Seq<char>,
}

/// What an `AuthorizerResponse` holds.
pub ghost struct AuthorizerResponseView {
    pub principal_id: Seq<char>,
    pub version: Seq<char>,
    pub statement: Seq<IAMStatementView>,
}

impl View for IAMStatement {
    type V = IAMStatementView;

    open spec fn view(&self) -> IAMStatementView {
        IAMStatementView { action: self.action@, effect: self.effect@, resource: self.resource@ }
    }
}

impl View for AuthorizerResponse {
    type V = AuthorizerResponseView;

    open spec fn view(&self) -> AuthorizerResponseView {
        AuthorizerResponseView {
            principal_id: self.principal_id@,
            version: self.policy_document.version@,
            statement: Seq::new(
                self.policy_document.statement@.len(),
                |i: int| self.policy_document.statement@[i]@,
            ),
        }
    }
}

/// The policy that allows `principal_id` to invoke `resource` and nothing
/// else.
pub open spec fn policy_of(principal_id: Seq<char>, resource: Seq<char>) -> AuthorizerResponseView {
    AuthorizerResponseView {
        principal_id,
        version: "2012-10-17"@,
        statement: seq![
            IAMStatementView { action: "execute-api:Invoke"@, effect: "Allow"@, resource },
        ],
    }
}

/// What opening a channel asks for: the connection item to write and the
/// policy to answer with once it is written.
#[derive(Debug, PartialEq, Eq)]
pub struct Authorization {
    pub connection: Connection,
    pub response: AuthorizerResponse,
}

/// The authorization of a connect request, if it is owed one: the request
/// must carry a token that was verified to a principal, and must name the
/// invocation it asks for and the channel it came over. The principal is
/// bound to that channel; the policy is issued to the token for that
/// invocation.
pub open spec fn authorization_of(
    id_token: Option<Seq<char>>,
    verified: Option<UserView>,
    method_arn: Option<Seq<char>>,
    connection_id: Option<Seq<char>>,
) -> Option<(ConnectionView, AuthorizerResponseView)> {
    match (id_token, verified, method_arn, connection_id) {
        (Some(token), Some(user), Some(resource), Some(channel)) => Some(
            (connection_of(user.sub, channel), policy_of(token, resource)),
        ),
        _ => None,
    }
}

/// The policy that allows `principal_id` to invoke `resource`.
pub fn generate_policy(principal_id: String, resource: String) -> (response: AuthorizerResponse)
    ensures
        response@ == policy_of(principal_id@, resource@),
{
    let api_statement = IAMStatement {
        action: String::from_str("execute-api:Invoke"),
        effect: String::from_str("Allow"),
        resource,
    };
    let mut statement: Vec<IAMStatement> = Vec::new();
    statement.push(api_statement);
    let policy_document = PolicyDocument { version: String::from_str("2012-10-17"), statement };
    let response = AuthorizerResponse { policy_document, principal_id };
    assert(response@.statement =~= policy_of(principal_id@, resource@).statement);
    response
}

/// Decides a connect request from what verifying its token gave. `None`
/// means the request is unauthorized and nothing is to be written.
pub fn authorize(
    id_token: Option<String>,
    verified: Option<User>,
    method_arn: Option<String>,
    connection_id: Option<String>,
) -> (authorization: Option<Authorization>)
    ensures
        match authorization {
            Some(granted) => authorization_of(
                id_token.deep_view(),
                optional_user_view(verified),
                method_arn.deep_view(),
                connection_id.deep_view(),
            ) == Some((granted.connection@, granted.response@)),
            None => authorization_of(
                id_token.deep_view(),
                optional_user_view(verified),
                method_arn.deep_view(),
                connection_id.deep_view(),
            ) is None,
        },
{
    match (id_token, verified, method_arn, connection_id) {
        (Some(token), Some(user), Some(resource), Some(channel)) => {
            let connection = Connection::new(user.sub.as_str(), channel.as_str());
            Some(Authorization { connection, response: generate_policy(token, resource) })
        },
        _ => None,
    }
}

} // verus!
