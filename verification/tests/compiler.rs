use teart::errors::{ConfigField, TeartError};
use teart::palette::{get_palette, Color};
use teart::reservation_converter::{
    convert_image_to_reservation, convert_pixel_to_reservation, create_xml_payload,
    MetadataPlacement, Point, Reservation, SentinelPolicy, ServerParams, TEObject,
};
use teart::timestamp::{parse_timestamp, Timestamp};

fn two_color_palette() -> Vec<Color> {
    vec![Color { red: 0, green: 0, blue: 0 }, Color { red: 255, green: 255, blue: 255 }]
}

fn session(start: &str, sentinel_index: u8, sentinel_policy: SentinelPolicy) -> ServerParams {
    ServerParams {
        login_name: "alice".to_string(),
        auth_server: "timeedit".to_string(),
        org: "admin".to_string(),
        reservation_mode: "coloring".to_string(),
        canvas_object: TEObject::new("canvas", "linn"),
        color_objects: vec![TEObject::new("color_object", "c0"), TEObject::new("color_object", "c1")],
        start_datetime: parse_timestamp(start).unwrap(),
        sentinel_index,
        sentinel_policy,
        metadata_placement: MetadataPlacement::Envelope,
    }
}

const ENVELOPE_HEAD: &str = "<tns:timeedit><loginname>alice</loginname><authserver>timeedit\
</authserver><reservationmode>coloring</reservationmode>";

fn fragment(begin: &str, end: &str, object_value: &str) -> String {
    format!(
        "<reservation><begin>{}</begin><end>{}</end><objects><object><type>canvas</type>\
<value>linn</value></object><object><type>color_object</type><value>{}</value></object>\
</objects><fields></fields><organizations><organization>admin</organization>\
</organizations></reservation>",
        begin, end, object_value
    )
}

#[test]
fn end_to_end_two_cell_grid() {
    // A one-column, two-row grid: both cells land on the start day, ten
    // minutes apart, resolved to color objects 0 and 1.
    let params = session("20220101T000000", 2, SentinelPolicy::Skip);
    let doc = convert_image_to_reservation(vec![0, 1], (1, 2), params, &two_color_palette())
        .unwrap();
    let expected = format!(
        "{}{}{}</tns:timeedit>",
        ENVELOPE_HEAD,
        fragment("20220101T000000", "20220101T001000", "c0"),
        fragment("20220101T001000", "20220101T002000", "c1"),
    );
    assert_eq!(doc, expected);
}

#[test]
fn second_column_lands_on_the_next_day() {
    let params = session("20220101T000000", 2, SentinelPolicy::Skip);
    let doc = convert_image_to_reservation(vec![0, 1], (2, 1), params, &two_color_palette())
        .unwrap();
    let expected = format!(
        "{}{}{}</tns:timeedit>",
        ENVELOPE_HEAD,
        fragment("20220101T000000", "20220101T001000", "c0"),
        fragment("20220102T000000", "20220102T001000", "c1"),
    );
    assert_eq!(doc, expected);
}

#[test]
fn rerun_on_same_input_is_byte_identical() {
    let image = vec![0u8, 1, 1, 0];
    let first = convert_image_to_reservation(
        image.clone(),
        (2, 2),
        session("20220103T000000", 2, SentinelPolicy::Skip),
        &two_color_palette(),
    )
    .unwrap();
    let second = convert_image_to_reservation(
        image,
        (2, 2),
        session("20220103T000000", 2, SentinelPolicy::Skip),
        &two_color_palette(),
    )
    .unwrap();
    assert_eq!(first, second);
}

#[test]
fn sentinel_skip_drops_every_sentinel_cell() {
    // Sentinel index 0 under the skip policy: both cells with index 0
    // vanish, the others keep their slots.
    let params = session("20220101T000000", 0, SentinelPolicy::Skip);
    let doc = convert_image_to_reservation(vec![0, 1, 0, 1], (1, 4), params, &two_color_palette())
        .unwrap();
    let expected = format!(
        "{}{}{}</tns:timeedit>",
        ENVELOPE_HEAD,
        fragment("20220101T001000", "20220101T002000", "c1"),
        fragment("20220101T003000", "20220101T004000", "c1"),
    );
    assert_eq!(doc, expected);
}

#[test]
fn sentinel_dedicated_substitutes_the_uncolored_object() {
    let params = session(
        "20220101T000000",
        0,
        SentinelPolicy::Dedicated(TEObject::new("color_object", "uncolored")),
    );
    let doc = convert_image_to_reservation(vec![0, 1], (1, 2), params, &two_color_palette())
        .unwrap();
    let expected = format!(
        "{}{}{}</tns:timeedit>",
        ENVELOPE_HEAD,
        fragment("20220101T000000", "20220101T001000", "uncolored"),
        fragment("20220101T001000", "20220101T002000", "c1"),
    );
    assert_eq!(doc, expected);
}

#[test]
fn sentinel_literal_resolves_by_position() {
    let params = session("20220101T000000", 0, SentinelPolicy::Literal);
    let doc = convert_image_to_reservation(vec![0, 1], (1, 2), params, &two_color_palette())
        .unwrap();
    let expected = format!(
        "{}{}{}</tns:timeedit>",
        ENVELOPE_HEAD,
        fragment("20220101T000000", "20220101T001000", "c0"),
        fragment("20220101T001000", "20220101T002000", "c1"),
    );
    assert_eq!(doc, expected);
}

#[test]
fn color_object_count_must_match_palette() {
    // Seventeen palette entries but only sixteen configured objects must
    // fail before any reservation is built.
    let mut params = session("20220101T000000", 2, SentinelPolicy::Skip);
    params.color_objects = teart::reservation_converter::get_default_color_objects(16);
    let r = convert_image_to_reservation(vec![0, 1], (1, 2), params, &get_palette());
    assert_eq!(r, Err(TeartError::ConfigurationError(ConfigField::ColorObjects)));
}

#[test]
fn grid_size_must_match_dimensions() {
    let params = session("20220101T000000", 2, SentinelPolicy::Skip);
    let r = convert_image_to_reservation(vec![0, 1, 0], (1, 2), params, &two_color_palette());
    assert_eq!(r, Err(TeartError::ConfigurationError(ConfigField::GridDimensions)));
}

#[test]
fn out_of_range_index_aborts_the_run() {
    let params = session("20220101T000000", 2, SentinelPolicy::Skip);
    let r = convert_image_to_reservation(vec![0, 5], (1, 2), params, &two_color_palette());
    assert_eq!(r, Err(TeartError::PaletteRangeError(5)));
}

#[test]
fn sentinel_equal_to_object_count_is_not_an_error() {
    // The sentinel may sit one past the configured objects; under a
    // dedicated-object policy no index in range errors.
    let params = session(
        "20220101T000000",
        2,
        SentinelPolicy::Dedicated(TEObject::new("color_object", "uncolored")),
    );
    let doc = convert_image_to_reservation(vec![2, 1], (1, 2), params, &two_color_palette())
        .unwrap();
    let expected = format!(
        "{}{}{}</tns:timeedit>",
        ENVELOPE_HEAD,
        fragment("20220101T000000", "20220101T001000", "uncolored"),
        fragment("20220101T001000", "20220101T002000", "c1"),
    );
    assert_eq!(doc, expected);
}

#[test]
fn timestamp_overflow_is_a_format_error() {
    // The second column lands one day after the last representable start.
    let params = session("99991231T235000", 2, SentinelPolicy::Skip);
    let r = convert_image_to_reservation(vec![0, 1], (2, 1), params, &two_color_palette());
    assert_eq!(r, Err(TeartError::FormatError));
}

#[test]
fn invalid_start_datetime_is_a_format_error() {
    let mut params = session("20220101T000000", 2, SentinelPolicy::Skip);
    params.start_datetime = Timestamp { year: 2022, month: 2, day: 30, hour: 0, minute: 0 };
    let r = convert_image_to_reservation(vec![0], (1, 1), params, &two_color_palette());
    assert_eq!(r, Err(TeartError::FormatError));
}

#[test]
fn empty_grid_produces_a_bare_envelope() {
    let params = session("20220101T000000", 2, SentinelPolicy::Skip);
    let doc = convert_image_to_reservation(Vec::new(), (0, 0), params, &two_color_palette())
        .unwrap();
    assert_eq!(doc, format!("{}</tns:timeedit>", ENVELOPE_HEAD));
}

#[test]
fn per_reservation_metadata_placement() {
    let mut params = session("20220101T000000", 2, SentinelPolicy::Skip);
    params.metadata_placement = MetadataPlacement::PerReservation;
    let doc = convert_image_to_reservation(vec![0], (1, 1), params, &two_color_palette())
        .unwrap();
    let expected = "<tns:timeedit><reservation><begin>20220101T000000</begin>\
<end>20220101T001000</end><objects><object><type>canvas</type><value>linn</value></object>\
<object><type>color_object</type><value>c0</value></object></objects><fields></fields>\
<organizations><organization>admin</organization></organizations>\
<modifiedby><loginname>alice</loginname><authserver>timeedit</authserver></modifiedby>\
</reservation></tns:timeedit>";
    assert_eq!(doc, expected);
}

#[test]
fn pixel_conversion_crosses_midnight() {
    let params = session("20220101T235000", 2, SentinelPolicy::Skip);
    let r = convert_pixel_to_reservation(0, Point { x: 0, y: 2 }, 10, &params)
        .unwrap()
        .unwrap();
    let xml = r.to_xml(MetadataPlacement::Envelope, "alice", "timeedit").unwrap();
    assert_eq!(xml, fragment("20220102T001000", "20220102T002000", "c0"));
}

#[test]
fn pixel_conversion_reports_skip() {
    let params = session("20220101T000000", 1, SentinelPolicy::Skip);
    let r = convert_pixel_to_reservation(1, Point { x: 0, y: 0 }, 10, &params).unwrap();
    assert!(r.is_none());
}

#[test]
fn payload_wraps_reservations_in_order() {
    let params = session("20220101T000000", 2, SentinelPolicy::Skip);
    let first = convert_pixel_to_reservation(0, Point { x: 0, y: 0 }, 10, &params)
        .unwrap()
        .unwrap();
    let second = convert_pixel_to_reservation(1, Point { x: 0, y: 1 }, 10, &params)
        .unwrap()
        .unwrap();
    let reservations: Vec<Reservation> = vec![first, second];
    let doc = create_xml_payload(&reservations, &params).unwrap();
    let expected = format!(
        "{}{}{}</tns:timeedit>",
        ENVELOPE_HEAD,
        fragment("20220101T000000", "20220101T001000", "c0"),
        fragment("20220101T001000", "20220101T002000", "c1"),
    );
    assert_eq!(doc, expected);
}
