use ip_story::api::{ApiData, ApiError, ApiResponse};
use ip_story::model::StoreError;

#[test]
fn an_error_carries_its_message() {
    let e = ApiError::msg("src/main.rs:12 failed to get data from db");
    assert_eq!(e, ApiError::Msg("src/main.rs:12 failed to get data from db".to_string()));
    assert_eq!(e.message(), "src/main.rs:12 failed to get data from db");
    assert_eq!(ApiError::msg("").message(), "");
}

#[test]
fn data_and_option_convert_both_ways() {
    assert_eq!(ApiData::from(Some(3u8)), ApiData::Value(3u8));
    assert_eq!(ApiData::<u8>::from(None), ApiData::Empty);
    assert_eq!(Option::<u8>::from(ApiData::Value(3u8)), Some(3u8));
    assert_eq!(Option::<u8>::from(ApiData::<u8>::Empty), None);
}

#[test]
fn a_successful_reply_has_data_and_no_error() {
    let r = ApiResponse::success(ApiData::Value(vec![1, 2]));
    assert_eq!(r.error, None);
    assert_eq!(r.data, Some(vec![1, 2]));
    let r = ApiResponse::<bool>::success(ApiData::Empty);
    assert_eq!(r.error, None);
    assert_eq!(r.data, None);
}

#[test]
fn a_failed_reply_has_the_message_and_no_data() {
    let r = ApiResponse::failure(&ApiError::msg("boom"));
    assert_eq!(r.error, Some("boom".to_string()));
    assert_eq!(r.data, None);
}

#[test]
fn every_store_error_has_its_message() {
    assert_eq!(
        ApiError::from_store(StoreError::NotFound).message(),
        "no story is stored for this address"
    );
    assert_eq!(
        ApiError::from_store(StoreError::Conflict).message(),
        "an entry with this timestamp is already present"
    );
    assert_eq!(
        ApiError::from_store(StoreError::IdentityInUse).message(),
        "an entry with this identity is already present"
    );
    assert_eq!(ApiError::from_store(StoreError::Storage).message(), "failed to get data from db");
}
