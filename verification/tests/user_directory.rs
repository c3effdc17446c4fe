use chat_infra::models::user::User as UserModel;
use chat_infra::utils::user::{
    generate_attrs_map, user_from_attributes, DirectoryEntry, GetUserError, User, UserAttribute,
    UserAttributes,
};

fn attr(name: &str, value: Option<&str>) -> UserAttribute {
    UserAttribute {
        name: name.to_string(),
        value: value.map(|text| text.to_string()),
    }
}

fn full() -> Vec<UserAttribute> {
    vec![
        attr("sub", Some("a1")),
        attr("email_verified", Some("true")),
        attr("name", Some("Ada")),
        attr("email", Some("ada@example.com")),
    ]
}

fn ada() -> UserModel {
    UserModel {
        sub: "a1".to_string(),
        name: "Ada".to_string(),
        email: "ada@example.com".to_string(),
    }
}

#[test]
fn attrs_map_collects_the_three_attributes() {
    assert_eq!(
        generate_attrs_map(&full()),
        UserAttributes {
            sub: Some("a1".to_string()),
            name: Some("Ada".to_string()),
            email: Some("ada@example.com".to_string()),
        }
    );
}

#[test]
fn attrs_map_takes_the_last_occurrence_and_empty_for_no_value() {
    let attributes = vec![
        attr("name", Some("Old")),
        attr("name", Some("New")),
        attr("sub", None),
    ];
    assert_eq!(
        generate_attrs_map(&attributes),
        UserAttributes {
            sub: Some(String::new()),
            name: Some("New".to_string()),
            email: None,
        }
    );
    assert_eq!(
        generate_attrs_map(&vec![]),
        UserAttributes { sub: None, name: None, email: None }
    );
}

#[test]
fn user_needs_all_three_attributes() {
    assert_eq!(user_from_attributes(&full()), Ok(ada()));
    for missing in ["sub", "name", "email"] {
        let attributes: Vec<UserAttribute> = full()
            .into_iter()
            .filter(|attribute| attribute.name != missing)
            .collect();
        assert_eq!(
            user_from_attributes(&attributes),
            Err(GetUserError::InvalidUserSchema)
        );
    }
}

#[test]
fn sub_filter_quotes_the_sub() {
    assert_eq!(User::sub_filter("a1"), "sub = \"a1\"");
    assert_eq!(User::sub_filter(""), "sub = \"\"");
}

#[test]
fn by_sub_takes_the_first_entry() {
    let listing = Some(vec![
        DirectoryEntry { attributes: Some(full()) },
        DirectoryEntry { attributes: None },
    ]);
    assert_eq!(User::get_user_by_sub(&listing), Ok(ada()));
}

#[test]
fn by_sub_reports_each_failure() {
    assert_eq!(User::get_user_by_sub(&None), Err(GetUserError::RequestFailed));
    assert_eq!(User::get_user_by_sub(&Some(vec![])), Err(GetUserError::NotFound));
    assert_eq!(
        User::get_user_by_sub(&Some(vec![DirectoryEntry { attributes: None }])),
        Err(GetUserError::MissingAttributes)
    );
    assert_eq!(
        User::get_user_by_sub(&Some(vec![DirectoryEntry { attributes: Some(vec![]) }])),
        Err(GetUserError::InvalidUserSchema)
    );
}

#[test]
fn by_email_reports_each_failure() {
    assert_eq!(User::get_user_by_email(&None), Err(GetUserError::NotFound));
    assert_eq!(
        User::get_user_by_email(&Some(DirectoryEntry { attributes: None })),
        Err(GetUserError::MissingAttributes)
    );
    assert_eq!(
        User::get_user_by_email(&Some(DirectoryEntry {
            attributes: Some(vec![attr("sub", Some("a1"))])
        })),
        Err(GetUserError::InvalidUserSchema)
    );
    assert_eq!(
        User::get_user_by_email(&Some(DirectoryEntry { attributes: Some(full()) })),
        Ok(ada())
    );
}
