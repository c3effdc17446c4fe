use chat_infra::endpoints::EndpointError;
use chat_infra::errors::ErrorKind;
use chat_infra::handlers::message_insert_event::FanoutError;
use chat_infra::store::StoreError;

#[test]
fn only_a_failed_push_is_passed_over() {
    assert!(!ErrorKind::DeliveryFailure.is_fatal());
    for kind in [
        ErrorKind::Unauthenticated,
        ErrorKind::ValidationFailed,
        ErrorKind::NotFound,
        ErrorKind::StoreFailure,
        ErrorKind::ResolverFailure,
    ] {
        assert!(kind.is_fatal());
    }
}

#[test]
fn endpoint_errors_fall_into_their_class() {
    assert_eq!(EndpointError::MissingSortKey.kind(), ErrorKind::ValidationFailed);
    assert_eq!(EndpointError::MissingUserSelector.kind(), ErrorKind::ValidationFailed);
    assert_eq!(EndpointError::MissingToken.kind(), ErrorKind::Unauthenticated);
    assert_eq!(EndpointError::InvalidToken.kind(), ErrorKind::Unauthenticated);
    assert_eq!(EndpointError::ResourceNotFound.kind(), ErrorKind::NotFound);
    assert_eq!(EndpointError::UserNotFound.kind(), ErrorKind::NotFound);
    assert_eq!(EndpointError::ChatsQueryFailed.kind(), ErrorKind::StoreFailure);
    assert_eq!(EndpointError::MessagesQueryFailed.kind(), ErrorKind::StoreFailure);
}

#[test]
fn fan_out_and_store_errors_fall_into_their_class() {
    assert_eq!(FanoutError::ResolverFailure.kind(), ErrorKind::ResolverFailure);
    assert_eq!(FanoutError::MalformedKey.kind(), ErrorKind::ValidationFailed);
    assert_eq!(StoreError::NotFound.kind(), ErrorKind::NotFound);
    assert_eq!(StoreError::InvalidItem.kind(), ErrorKind::ValidationFailed);
}
