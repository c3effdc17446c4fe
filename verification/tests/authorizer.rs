use chat_infra::authorizer::{
    authorize, generate_policy, Authorization, AuthorizerResponse, IAMStatement, PolicyDocument,
};
use chat_infra::models::user::User;
use chat_infra::registry::Connection;

fn ada() -> User {
    User {
        sub: "a1".to_string(),
        name: "Ada".to_string(),
        email: "ada@example.com".to_string(),
    }
}

fn policy(principal: &str, resource: &str) -> AuthorizerResponse {
    AuthorizerResponse {
        principal_id: principal.to_string(),
        policy_document: PolicyDocument {
            version: "2012-10-17".to_string(),
            statement: vec![IAMStatement {
                action: "execute-api:Invoke".to_string(),
                effect: "Allow".to_string(),
                resource: resource.to_string(),
            }],
        },
    }
}

#[test]
fn policy_allows_one_invocation() {
    assert_eq!(
        generate_policy("token".to_string(), "arn:aws:execute-api:x/$connect".to_string()),
        policy("token", "arn:aws:execute-api:x/$connect")
    );
}

#[test]
fn verified_principal_is_bound_to_the_channel() {
    assert_eq!(
        authorize(
            Some("token".to_string()),
            Some(ada()),
            Some("arn".to_string()),
            Some("c-1".to_string())
        ),
        Some(Authorization {
            connection: Connection::new("a1", "c-1"),
            response: policy("token", "arn"),
        })
    );
}

#[test]
fn anything_missing_is_unauthorized() {
    let token = || Some("token".to_string());
    let arn = || Some("arn".to_string());
    let channel = || Some("c-1".to_string());
    assert_eq!(authorize(None, Some(ada()), arn(), channel()), None);
    assert_eq!(authorize(token(), None, arn(), channel()), None);
    assert_eq!(authorize(token(), Some(ada()), None, channel()), None);
    assert_eq!(authorize(token(), Some(ada()), arn(), None), None);
    assert_eq!(authorize(None, None, None, None), None);
}
