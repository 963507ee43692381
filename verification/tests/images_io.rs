use hrm_system::images::{get_employee_image, save_employee_image};
use hrm_system::models::HrmError;

#[test]
fn a_png_data_url_decodes_to_its_bytes_and_png_path() {
    let bytes = vec![137u8, 80, 78, 71, 13, 10, 26, 10, 1, 2, 3];
    let encoded = base64::Engine::encode(&base64::engine::general_purpose::STANDARD, &bytes);
    let data_url = format!("data:image/png;base64,{}", encoded);
    let prepared = save_employee_image("42".to_string(), data_url).unwrap();
    assert_eq!(prepared.bytes, bytes);
    assert_eq!(prepared.relative_path, "employee_images/42/photo.png");
}

#[test]
fn a_bare_payload_defaults_to_jpg() {
    let bytes = b"jpeg-ish bytes".to_vec();
    let encoded = base64::Engine::encode(&base64::engine::general_purpose::STANDARD, &bytes);
    let prepared = save_employee_image("7".to_string(), encoded).unwrap();
    assert_eq!(prepared.bytes, bytes);
    assert_eq!(prepared.relative_path, "employee_images/7/photo.jpg");
}

#[test]
fn a_garbled_payload_is_rejected() {
    let r = save_employee_image("7".to_string(), "data:image/png;base64,!!!not-base64!!!".to_string());
    assert!(matches!(r, Err(HrmError::ValidationError)));
}

#[test]
fn stored_bytes_come_back_as_a_data_url() {
    let bytes = vec![1u8, 2, 3, 250];
    let url = get_employee_image("employee_images/42/photo.png".to_string(), &bytes);
    let encoded = base64::Engine::encode(&base64::engine::general_purpose::STANDARD, &bytes);
    assert_eq!(url, format!("data:image/png;base64,{}", encoded));
    let url = get_employee_image("employee_images/42/photo.jpg".to_string(), &bytes);
    assert_eq!(url, format!("data:image/jpeg;base64,{}", encoded));
}

#[test]
fn an_upload_round_trips_through_save_and_get() {
    let bytes = vec![0u8, 255, 10, 13, 34, 92];
    let encoded = base64::Engine::encode(&base64::engine::general_purpose::STANDARD, &bytes);
    let prepared =
        save_employee_image("9".to_string(), format!("data:image/png;base64,{}", encoded)).unwrap();
    let url = get_employee_image(prepared.relative_path.clone(), &prepared.bytes);
    assert_eq!(url, format!("data:image/png;base64,{}", encoded));
}
