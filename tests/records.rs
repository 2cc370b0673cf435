use layer_store::error::MyDbError;
use layer_store::records::{positions_of_layers, Layer};
use layer_store::repository::{layers_listing, rows_affected_outcome, store_error};
use layer_store::session::calculate_expiration_time;
use layer_store::stack::LayerStack;
use layer_store::upload::{
    is_blank, name_or_default, sanitize_filename, strip_forbidden_chars, upload_path,
    upload_size_accepted,
};

fn layer(id: i32, image_id: i32, order: i32) -> Layer {
    Layer {
        id,
        image_id,
        layer_name: format!("layer {}", id),
        creation_date: "2024-01-01 10:00:00".to_string(),
        last_modified: "2024-01-02 11:00:00".to_string(),
        user_id: 4,
        layer_type: "raster".to_string(),
        visibility: true,
        opacity: 7550,
        layer_data: vec![1, 2, 3],
        layer_order: order,
    }
}

#[test]
fn stack_from_fetched_layers() {
    let layers = vec![layer(1, 9, 2), layer(2, 9, 1)];
    let stack = LayerStack::from_layers(9, &layers).unwrap();
    assert_eq!(stack.position_of(1), Some(2));
    assert_eq!(stack.position_of(2), Some(1));
    assert_eq!(stack.image_id(), 9);
    let entries = positions_of_layers(&layers);
    assert_eq!(entries, stack.entries());
}

#[test]
fn stack_refuses_layer_of_other_image() {
    let layers = vec![layer(1, 9, 1), layer(2, 8, 2)];
    assert!(matches!(
        LayerStack::from_layers(9, &layers),
        Err(MyDbError::InvariantViolation)
    ));
}

#[test]
fn stack_refuses_duplicated_position() {
    let layers = vec![layer(1, 9, 1), layer(2, 9, 1)];
    assert!(LayerStack::from_layers(9, &layers).is_err());
}

#[test]
fn duplicate_keeps_every_field_but_the_position() {
    let source = layer(3, 9, 2);
    let copy = source.duplicate_at(5);
    assert_eq!(copy.layer_order, 5);
    assert_eq!(copy.id, source.id);
    assert_eq!(copy.image_id, source.image_id);
    assert_eq!(copy.layer_name, source.layer_name);
    assert_eq!(copy.creation_date, source.creation_date);
    assert_eq!(copy.last_modified, source.last_modified);
    assert_eq!(copy.user_id, source.user_id);
    assert_eq!(copy.layer_type, source.layer_type);
    assert_eq!(copy.visibility, source.visibility);
    assert_eq!(copy.opacity, source.opacity);
    assert_eq!(copy.layer_data, source.layer_data);
}

#[test]
fn untouched_record_is_not_found() {
    assert_eq!(rows_affected_outcome(0), Err(MyDbError::NotFound));
    assert_eq!(rows_affected_outcome(1), Ok(()));
    assert_eq!(rows_affected_outcome(3), Ok(()));
}

#[test]
fn listing_of_image_without_layers_is_empty() {
    assert_eq!(layers_listing(true, Vec::new()).unwrap().len(), 0);
    assert_eq!(layers_listing(true, vec![layer(1, 2, 1)]).unwrap().len(), 1);
    assert!(matches!(layers_listing(false, Vec::new()), Err(MyDbError::NotFound)));
}

#[test]
fn store_failures_are_classified() {
    assert_eq!(store_error(Some("23505")), MyDbError::ConstraintViolation);
    assert_eq!(store_error(Some("23503")), MyDbError::ConstraintViolation);
    assert_eq!(store_error(Some("08006")), MyDbError::StoreUnavailable);
    assert_eq!(store_error(Some("2")), MyDbError::StoreUnavailable);
    assert_eq!(store_error(None), MyDbError::StoreUnavailable);
}

#[test]
fn filenames_lose_forbidden_chars() {
    assert_eq!(sanitize_filename("my/photo.png"), "myphotopng");
    assert_eq!(sanitize_filename("a<b>c:d|e?f*g%h\"i\\j"), "abcdefghij");
    assert_eq!(strip_forbidden_chars("..x.."), "x");
    assert_eq!(sanitize_filename(" a b "), " a b ");
}

#[test]
fn blank_filenames_become_unnamed() {
    assert_eq!(sanitize_filename(""), "unnamed");
    assert_eq!(sanitize_filename("..."), "unnamed");
    assert_eq!(sanitize_filename(" \t. "), "unnamed");
    assert!(is_blank(" \t\n"));
    assert!(!is_blank(" x "));
    assert_eq!(name_or_default("x".to_string(), false), "x");
    assert_eq!(name_or_default("  ".to_string(), true), "unnamed");
}

#[test]
fn uploads_are_stored_under_uploads() {
    assert_eq!(upload_path(Some("cat.jpg")), "./uploads/catjpg");
    assert_eq!(upload_path(None), "./uploads/unnamed");
    assert_eq!(upload_path(Some("/")), "./uploads/unnamed");
}

#[test]
fn upload_sizes() {
    assert!(!upload_size_accepted(0, 100));
    assert!(upload_size_accepted(1, 100));
    assert!(upload_size_accepted(100, 100));
    assert!(!upload_size_accepted(101, 100));
}

#[test]
fn session_expires_after_a_day() {
    assert_eq!(calculate_expiration_time(1_000), 87_400);
    assert_eq!(calculate_expiration_time(0), 86_400);
}
