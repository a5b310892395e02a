use vstd::prelude::*;
use vstd::string::*;
use vstd::arithmetic::div_mod::lemma_fundamental_div_mod;

use crate::errors::ConfigField;
use crate::errors::TeartError;
use crate::palette::Color;
use crate::strutil::spec_decimal;
use crate::strutil::u32_decimal;
use crate::timestamp::Timestamp;
use crate::timestamp::add_minutes;
use crate::timestamp::spec_add_minutes;
use crate::timestamp::format_timestamp;
use crate::timestamp::spec_format_timestamp;

verus! {

/// Minutes in one calendar day; one grid column spans exactly one day.
pub const MINUTES_PER_DAY: u32 = 1440;

/// The fixed slot length, in minutes, of one grid row.
pub const TIME_STEP_MINUTES: u32 = 10;

/// A grid coordinate: column `x`, row `y`, derived from a row-major linear
/// index.
#[derive(Clone, Copy, Debug, PartialEq, Eq, Structural)]
pub struct Point {
    pub x: u32,
    pub y: u32,
}

impl Point {
    /// Derives the grid coordinate of the cell with row-major linear index
    /// `i` on a `dimensions.0` wide, `dimensions.1` high grid: the column is
    /// `i mod width` and the row `i div width`.
    pub fn new(i: usize, dimensions: (u32, u32)) -> (p: Point)
        requires
            dimensions.0 > 0,
            i <= u32::MAX,
        ensures
            p.x == (i as int) % (dimensions.0 as int),
            p.y == (i as int) / (dimensions.0 as int),
    {
        Point { x: (i as u32) % dimensions.0, y: (i as u32) / dimensions.0 }
    }
}

/// The column and row of a linear index re-derive that index: the spatial
/// mapping loses nothing.  Inside a `width * height` grid the coordinate
/// also stays inside the grid.
pub proof fn lemma_index_roundtrip(i: int, width: int, height: int)
    requires
        width > 0,
        0 <= i < width * height,
    ensures
        (i / width) * width + (i % width) == i,
        0 <= i % width < width,
        0 <= i / width < height,
{
    lemma_fundamental_div_mod(i, width);
    assert((i / width) * width == width * (i / width)) by (nonlinear_arith);
    assert(0 <= i / width < height) by (nonlinear_arith)
        requires
            width > 0,
            0 <= i < width * height,
            i == width * (i / width) + i % width,
            0 <= i % width < width,
    ;
}

/// The reservation slot offset of a grid coordinate, in minutes: each
/// column is one full day, each row one `timestep`-long slot within it.
pub open spec fn spec_offset_minutes(column: int, row: int, timestep: int) -> int {
    column * 1440 + row * timestep
}

/// Computes a cell's offset from the session start, in minutes.
pub fn offset_minutes(coord: &Point, timestep: u32) -> (r: u32)
    requires
        spec_offset_minutes(coord.x as int, coord.y as int, timestep as int) <= u32::MAX,
    ensures
        r == spec_offset_minutes(coord.x as int, coord.y as int, timestep as int),
{
    proof {
        assert(coord.y as int * timestep as int >= 0) by (nonlinear_arith);
    }
    coord.x * MINUTES_PER_DAY + coord.y * timestep
}

/// Within one column, a later row always starts strictly later.
pub proof fn lemma_offset_increases_with_row(column: int, row1: int, row2: int, timestep: int)
    requires
        timestep > 0,
        row1 < row2,
    ensures
        spec_offset_minutes(column, row1, timestep) < spec_offset_minutes(column, row2, timestep),
{
    assert(row1 * timestep < row2 * timestep) by (nonlinear_arith)
        requires
            timestep > 0,
            row1 < row2,
    ;
}

/// A later column starts strictly after every slot of an earlier column,
/// provided the earlier slot lies within its day (its row offset is under
/// 24 hours).
pub proof fn lemma_offset_increases_with_column(
    column1: int,
    row1: int,
    column2: int,
    row2: int,
    timestep: int,
)
    requires
        timestep > 0,
        column1 < column2,
        0 <= row2,
        0 <= row1,
        row1 * timestep < 1440,
    ensures
        spec_offset_minutes(column1, row1, timestep) < spec_offset_minutes(
            column2,
            row2,
            timestep,
        ),
{
    assert(column1 * 1440 + 1440 <= column2 * 1440) by (nonlinear_arith)
        requires
            column1 < column2,
    ;
    assert(row2 * timestep >= 0) by (nonlinear_arith)
        requires
            timestep > 0,
            0 <= row2,
    ;
}

/// A bookable entity of the target system: a `(type, value)` identifier
/// pair.
#[derive(Debug)]
pub struct TEObject {
    pub type_id: String,
    pub object_id: String,
}

/// The two objects name the same entity.
pub open spec fn spec_obj_eq(a: TEObject, b: TEObject) -> bool {
    a.type_id@ == b.type_id@ && a.object_id@ == b.object_id@
}

impl TEObject {
    pub fn new(type_id: &str, id: &str) -> (r: TEObject)
        ensures
            r.type_id@ == type_id@,
            r.object_id@ == id@,
    {
        TEObject { type_id: type_id.to_owned(), object_id: id.to_owned() }
    }
}

impl Clone for TEObject {
    fn clone(&self) -> (r: Self)
        ensures
            r == *self,
    {
        TEObject { type_id: self.type_id.clone(), object_id: self.object_id.clone() }
    }
}

impl PartialEq for TEObject {
    fn eq(&self, other: &TEObject) -> bool {
        self.type_id == other.type_id && self.object_id == other.object_id
    }
}

impl vstd::std_specs::cmp::PartialEqSpecImpl for TEObject {
    open spec fn obeys_eq_spec() -> bool {
        true
    }

    open spec fn eq_spec(&self, other: &TEObject) -> bool {
        spec_obj_eq(*self, *other)
    }
}

/// Free-form metadata attached to a reservation; carried by the model and
/// the wire format, currently always empty.
#[derive(Debug)]
pub struct TEField {
    pub field_id: String,
    pub value: String,
}

impl Clone for TEField {
    fn clone(&self) -> (r: Self)
        ensures
            r == *self,
    {
        TEField { field_id: self.field_id.clone(), value: self.value.clone() }
    }
}

/// The wire-format fragment of one schedule object.
pub open spec fn spec_object_xml(o: TEObject) -> Seq<char> {
    "<object><type>"@ + o.type_id@ + "</type><value>"@ + o.object_id@ + "</value></object>"@
}

/// The wire-format fragment of one metadata field.
pub open spec fn spec_field_xml(f: TEField) -> Seq<char> {
    "<field><extid>"@ + f.field_id@ + "</extid><value>"@ + f.value@ + "</value></field>"@
}

impl TEObject {
    /// Serializes the object fragment.  Identifier text is interpolated
    /// verbatim, without escaping markup characters, matching the documents
    /// the target importer already accepts.
    pub fn to_xml(&self) -> (r: String)
        ensures
            r@ == spec_object_xml(*self),
    {
        let mut s = String::new();
        s.append("<object><type>");
        s.append(self.type_id.as_str());
        s.append("</type><value>");
        s.append(self.object_id.as_str());
        s.append("</value></object>");
        proof {
            assert(s@ =~= spec_object_xml(*self));
        }
        s
    }
}

impl TEField {
    /// Serializes the field fragment, unescaped like every other text slot.
    pub fn to_xml(&self) -> (r: String)
        ensures
            r@ == spec_field_xml(*self),
    {
        let mut s = String::new();
        s.append("<field><extid>");
        s.append(self.field_id.as_str());
        s.append("</extid><value>");
        s.append(self.value.as_str());
        s.append("</value></field>");
        proof {
            assert(s@ =~= spec_field_xml(*self));
        }
        s
    }
}

/// Builds the default color-object list: one `color_object` entry per
/// palette slot, numbered in palette order.
pub fn get_default_color_objects(palette_size: u8) -> (r: Vec<TEObject>)
    ensures
        r@.len() == palette_size as int,
        forall|i: int|
            0 <= i < palette_size as int ==> (#[trigger] r@[i]).type_id@ == "color_object"@
                && r@[i].object_id@ == "object_color_"@ + spec_decimal(i as nat),
{
    let mut r: Vec<TEObject> = Vec::new();
    let mut idx: u8 = 0;
    while idx < palette_size
        invariant
            idx <= palette_size,
            r@.len() == idx as int,
            forall|i: int|
                0 <= i < idx as int ==> (#[trigger] r@[i]).type_id@ == "color_object"@,
            forall|i: int|
                0 <= i < idx as int ==> (#[trigger] r@[i]).object_id@ == "object_color_"@
                    + spec_decimal(i as nat),
        decreases palette_size - idx,
    {
        let mut id = String::new();
        id.append("object_color_");
        id.append(u32_decimal(idx as u32).as_str());
        r.push(TEObject { type_id: "color_object".to_owned(), object_id: id });
        idx = idx + 1;
    }
    r
}

/// What a cell whose palette index equals the reserved sentinel value maps
/// to.  The choice is deliberate session configuration, never implied.
#[derive(Debug)]
pub enum SentinelPolicy {
    /// The sentinel index resolves like any other: to the color object at
    /// that position.
    Literal,
    /// Cells with the sentinel index produce no reservation at all.
    Skip,
    /// Cells with the sentinel index map to this dedicated object.
    Dedicated(TEObject),
}

/// Where the session metadata (login name, auth server, reservation mode)
/// lands in the document: once at the envelope level, or repeated inside
/// every reservation under a last-modified-by element as an older schema
/// variant had it.
#[derive(Clone, Copy, Debug, PartialEq, Eq, Structural)]
pub enum MetadataPlacement {
    Envelope,
    PerReservation,
}

/// Compiler-wide session configuration, constructed once per run and
/// read-only thereafter.
#[derive(Debug)]
pub struct ServerParams {
    pub login_name: String,
    pub auth_server: String,
    pub org: String,
    pub reservation_mode: String,
    pub canvas_object: TEObject,
    pub color_objects: Vec<TEObject>,
    pub start_datetime: Timestamp,
    pub sentinel_index: u8,
    pub sentinel_policy: SentinelPolicy,
    pub metadata_placement: MetadataPlacement,
}

/// One scheduled booking, created for one grid cell and never mutated: it
/// runs from `start_time + start_time_offset` for `duration` minutes.
#[derive(Debug)]
pub struct Reservation {
    pub start_time: Timestamp,
    pub objects: Vec<TEObject>,
    pub fields: Vec<TEField>,
    /// Minutes between the session start and this booking's begin.
    pub start_time_offset: u32,
    /// Minutes this booking lasts; its end is start + offset + duration.
    pub duration: u32,
    pub org: String,
}

/// The machine bounds a reservation must respect before it can be
/// serialized: a start that chrono's calendar accepts and an end offset
/// that fits the minute arithmetic.
pub open spec fn spec_reservation_wf(r: Reservation) -> bool {
    &&& r.start_time.valid()
    &&& r.start_time.year <= 9999
    &&& r.start_time_offset + r.duration <= u32::MAX
}

/// Both computed timestamps of the reservation fit the fixed four-digit
/// year of the wire format.
pub open spec fn spec_reservation_ok(r: Reservation) -> bool {
    &&& spec_add_minutes(r.start_time, r.start_time_offset as int).year <= 9999
    &&& spec_add_minutes(r.start_time, r.start_time_offset as int + r.duration as int).year
        <= 9999
}

/// The concatenated object fragments, in list order.
pub open spec fn spec_objects_xml(objs: Seq<TEObject>) -> Seq<char>
    decreases objs.len(),
{
    if objs.len() == 0 {
        Seq::empty()
    } else {
        spec_objects_xml(objs.drop_last()) + spec_object_xml(objs.last())
    }
}

/// The concatenated field fragments, in list order.
pub open spec fn spec_fields_xml(fields: Seq<TEField>) -> Seq<char>
    decreases fields.len(),
{
    if fields.len() == 0 {
        Seq::empty()
    } else {
        spec_fields_xml(fields.drop_last()) + spec_field_xml(fields.last())
    }
}

/// The legacy per-reservation metadata fragment.
pub open spec fn spec_modified_by_xml(login_name: Seq<char>, auth_server: Seq<char>) -> Seq<char> {
    "<modifiedby><loginname>"@ + login_name + "</loginname><authserver>"@ + auth_server
        + "</authserver></modifiedby>"@
}

/// The wire-format fragment of one reservation: begin and end timestamps at
/// minute resolution, the object list, the (possibly empty) field list and
/// the organization, plus the legacy metadata block when the session asks
/// for per-reservation placement.
pub open spec fn spec_reservation_xml(
    r: Reservation,
    placement: MetadataPlacement,
    login_name: Seq<char>,
    auth_server: Seq<char>,
) -> Seq<char> {
    "<reservation><begin>"@ + spec_format_timestamp(
        spec_add_minutes(r.start_time, r.start_time_offset as int),
    ) + "</begin><end>"@ + spec_format_timestamp(
        spec_add_minutes(r.start_time, r.start_time_offset as int + r.duration as int),
    ) + "</end><objects>"@ + spec_objects_xml(r.objects@) + "</objects><fields>"@
        + spec_fields_xml(r.fields@) + "</fields><organizations><organization>"@ + r.org@
        + "</organization></organizations>"@ + (match placement {
        MetadataPlacement::Envelope => Seq::<char>::empty(),
        MetadataPlacement::PerReservation => spec_modified_by_xml(login_name, auth_server),
    }) + "</reservation>"@
}

/// Serializes the object list of one reservation.
fn objects_to_xml(objs: &Vec<TEObject>) -> (r: String)
    ensures
        r@ == spec_objects_xml(objs@),
{
    let mut s = String::new();
    let mut i: usize = 0;
    while i < objs.len()
        invariant
            i <= objs@.len(),
            s@ == spec_objects_xml(objs@.subrange(0, i as int)),
        decreases objs@.len() - i,
    {
        s.append(objs[i].to_xml().as_str());
        proof {
            assert(objs@.subrange(0, i + 1).drop_last() =~= objs@.subrange(0, i as int));
            assert(objs@.subrange(0, i + 1).last() == objs@[i as int]);
        }
        i = i + 1;
    }
    proof {
        assert(objs@.subrange(0, objs@.len() as int) =~= objs@);
    }
    s
}

/// Serializes the field list of one reservation.
fn fields_to_xml(fields: &Vec<TEField>) -> (r: String)
    ensures
        r@ == spec_fields_xml(fields@),
{
    let mut s = String::new();
    let mut i: usize = 0;
    while i < fields.len()
        invariant
            i <= fields@.len(),
            s@ == spec_fields_xml(fields@.subrange(0, i as int)),
        decreases fields@.len() - i,
    {
        s.append(fields[i].to_xml().as_str());
        proof {
            assert(fields@.subrange(0, i + 1).drop_last() =~= fields@.subrange(0, i as int));
            assert(fields@.subrange(0, i + 1).last() == fields@[i as int]);
        }
        i = i + 1;
    }
    proof {
        assert(fields@.subrange(0, fields@.len() as int) =~= fields@);
    }
    s
}

impl Reservation {
    /// Serializes this reservation.  Fails with `FormatError` when either
    /// computed timestamp falls outside the fixed four-digit year, rather
    /// than emitting a truncated timestamp.
    pub fn to_xml(&self, placement: MetadataPlacement, login_name: &str, auth_server: &str) -> (r:
        Result<String, TeartError>)
        requires
            spec_reservation_wf(*self),
        ensures
            match r {
                Ok(s) => spec_reservation_ok(*self) && s@ == spec_reservation_xml(
                    *self,
                    placement,
                    login_name@,
                    auth_server@,
                ),
                Err(e) => !spec_reservation_ok(*self) && e == TeartError::FormatError,
            },
    {
        let begin_ts = add_minutes(&self.start_time, self.start_time_offset);
        if begin_ts.year > 9999 {
            return Err(TeartError::FormatError);
        }
        let end_ts = add_minutes(&self.start_time, self.start_time_offset + self.duration);
        if end_ts.year > 9999 {
            return Err(TeartError::FormatError);
        }
        let mut s = String::new();
        s.append("<reservation><begin>");
        s.append(format_timestamp(&begin_ts).as_str());
        s.append("</begin><end>");
        s.append(format_timestamp(&end_ts).as_str());
        s.append("</end><objects>");
        s.append(objects_to_xml(&self.objects).as_str());
        s.append("</objects><fields>");
        s.append(fields_to_xml(&self.fields).as_str());
        s.append("</fields><organizations><organization>");
        s.append(self.org.as_str());
        s.append("</organization></organizations>");
        match placement {
            MetadataPlacement::Envelope => {},
            MetadataPlacement::PerReservation => {
                s.append("<modifiedby><loginname>");
                s.append(login_name);
                s.append("</loginname><authserver>");
                s.append(auth_server);
                s.append("</authserver></modifiedby>");
            },
        }
        s.append("</reservation>");
        proof {
            assert(s@ =~= spec_reservation_xml(*self, placement, login_name@, auth_server@));
        }
        Ok(s)
    }
}

/// The cell produces no reservation: its index is the sentinel and the
/// session says to skip sentinel cells.
pub open spec fn spec_cell_is_skipped(color: u8, params: ServerParams) -> bool {
    color == params.sentinel_index && params.sentinel_policy is Skip
}

/// The cell's index resolves to no configured object, which aborts the
/// whole run.
pub open spec fn spec_cell_is_error(color: u8, params: ServerParams) -> bool {
    if color == params.sentinel_index {
        match params.sentinel_policy {
            SentinelPolicy::Literal => color as int >= params.color_objects@.len(),
            SentinelPolicy::Skip => false,
            SentinelPolicy::Dedicated(_) => false,
        }
    } else {
        color as int >= params.color_objects@.len()
    }
}

/// The schedule object a non-skipped, non-erroring cell resolves to.
pub open spec fn spec_cell_object(color: u8, params: ServerParams) -> TEObject {
    if color == params.sentinel_index {
        match params.sentinel_policy {
            SentinelPolicy::Dedicated(o) => o,
            _ => params.color_objects@[color as int],
        }
    } else {
        params.color_objects@[color as int]
    }
}

/// What the builder owes for one produced reservation: session start and
/// step carried over, the offset of its coordinate, no fields, and exactly
/// the canvas object followed by the cell's resolved object.
pub open spec fn spec_reservation_for_cell(
    res: Reservation,
    color: u8,
    column: int,
    row: int,
    timestep: u32,
    params: ServerParams,
) -> bool {
    &&& res.start_time == params.start_datetime
    &&& res.start_time_offset == spec_offset_minutes(column, row, timestep as int)
    &&& res.duration == timestep
    &&& res.org@ == params.org@
    &&& res.fields@.len() == 0
    &&& res.objects@.len() == 2
    &&& spec_obj_eq(res.objects@[0], params.canvas_object)
    &&& spec_obj_eq(res.objects@[1], spec_cell_object(color, params))
}

/// Maps one grid cell to its reservation: the sentinel policy first, then
/// the configured color object for the index.  An index with no configured
/// object is a `PaletteRangeError` and aborts the run.
pub fn convert_pixel_to_reservation(
    color: u8,
    coord: Point,
    timestep: u32,
    params: &ServerParams,
) -> (r: Result<Option<Reservation>, TeartError>)
    requires
        spec_offset_minutes(coord.x as int, coord.y as int, timestep as int) <= u32::MAX,
    ensures
        match r {
            Ok(opt) => match opt {
                Some(res) => !spec_cell_is_error(color, *params) && !spec_cell_is_skipped(
                    color,
                    *params,
                ) && spec_reservation_for_cell(
                    res,
                    color,
                    coord.x as int,
                    coord.y as int,
                    timestep,
                    *params,
                ),
                None => spec_cell_is_skipped(color, *params),
            },
            Err(e) => spec_cell_is_error(color, *params) && e == TeartError::PaletteRangeError(
                color,
            ),
        },
{
    let cell_object: TEObject;
    if color == params.sentinel_index {
        match &params.sentinel_policy {
            SentinelPolicy::Skip => {
                return Ok(None);
            },
            SentinelPolicy::Dedicated(o) => {
                cell_object = o.clone();
            },
            SentinelPolicy::Literal => {
                if (color as usize) < params.color_objects.len() {
                    cell_object = params.color_objects[color as usize].clone();
                } else {
                    return Err(TeartError::PaletteRangeError(color));
                }
            },
        }
    } else {
        if (color as usize) < params.color_objects.len() {
            cell_object = params.color_objects[color as usize].clone();
        } else {
            return Err(TeartError::PaletteRangeError(color));
        }
    }
    let mut objects: Vec<TEObject> = Vec::new();
    objects.push(params.canvas_object.clone());
    objects.push(cell_object);
    let res = Reservation {
        start_time: params.start_datetime,
        objects,
        fields: Vec::new(),
        start_time_offset: offset_minutes(&coord, timestep),
        duration: timestep,
        org: params.org.clone(),
    };
    Ok(Some(res))
}

/// Every reservation's computed timestamps fit the wire format.
pub open spec fn spec_envelope_ok(rs: Seq<Reservation>) -> bool {
    forall|i: int| 0 <= i < rs.len() ==> spec_reservation_ok(#[trigger] rs[i])
}

/// The concatenated reservation fragments, in row-major production order.
pub open spec fn spec_reservations_xml(
    rs: Seq<Reservation>,
    placement: MetadataPlacement,
    login_name: Seq<char>,
    auth_server: Seq<char>,
) -> Seq<char>
    decreases rs.len(),
{
    if rs.len() == 0 {
        Seq::empty()
    } else {
        spec_reservations_xml(rs.drop_last(), placement, login_name, auth_server)
            + spec_reservation_xml(rs.last(), placement, login_name, auth_server)
    }
}

/// The document envelope around the reservation fragments.  The canonical
/// schema carries the session metadata once here; the legacy variant leaves
/// the envelope bare and repeats the metadata inside every reservation.
pub open spec fn spec_envelope_xml(inner: Seq<char>, params: ServerParams) -> Seq<char> {
    match params.metadata_placement {
        MetadataPlacement::Envelope => "<tns:timeedit><loginname>"@ + params.login_name@
            + "</loginname><authserver>"@ + params.auth_server@
            + "</authserver><reservationmode>"@ + params.reservation_mode@
            + "</reservationmode>"@ + inner + "</tns:timeedit>"@,
        MetadataPlacement::PerReservation => "<tns:timeedit>"@ + inner + "</tns:timeedit>"@,
    }
}

/// The whole document for a reservation list.
pub open spec fn spec_payload_xml(rs: Seq<Reservation>, params: ServerParams) -> Seq<char> {
    spec_envelope_xml(
        spec_reservations_xml(
            rs,
            params.metadata_placement,
            params.login_name@,
            params.auth_server@,
        ),
        params,
    )
}

/// Serializes the whole document: the envelope in the session's metadata
/// placement around every reservation fragment in order.  Fails with
/// `FormatError`, producing nothing, as soon as one reservation does not
/// fit the timestamp format.
pub fn create_xml_payload(reservations: &Vec<Reservation>, params: &ServerParams) -> (r: Result<
    String,
    TeartError,
>)
    requires
        forall|i: int|
            0 <= i < reservations@.len() ==> spec_reservation_wf(#[trigger] reservations@[i]),
    ensures
        match r {
            Ok(s) => spec_envelope_ok(reservations@) && s@ == spec_payload_xml(
                reservations@,
                *params,
            ),
            Err(e) => !spec_envelope_ok(reservations@) && e == TeartError::FormatError,
        },
{
    let mut inner = String::new();
    let mut i: usize = 0;
    while i < reservations.len()
        invariant
            i <= reservations@.len(),
            forall|j: int|
                0 <= j < reservations@.len() ==> spec_reservation_wf(#[trigger] reservations@[j]),
            forall|j: int| 0 <= j < i ==> spec_reservation_ok(#[trigger] reservations@[j]),
            inner@ == spec_reservations_xml(
                reservations@.subrange(0, i as int),
                params.metadata_placement,
                params.login_name@,
                params.auth_server@,
            ),
        decreases reservations@.len() - i,
    {
        let fragment = match reservations[i].to_xml(
            params.metadata_placement,
            params.login_name.as_str(),
            params.auth_server.as_str(),
        ) {
            Ok(f) => f,
            Err(e) => {
                proof {
                    assert(!spec_reservation_ok(reservations@[i as int]));
                    assert(!spec_envelope_ok(reservations@));
                }
                return Err(e);
            },
        };
        inner.append(fragment.as_str());
        proof {
            assert(reservations@.subrange(0, i + 1).drop_last() =~= reservations@.subrange(
                0,
                i as int,
            ));
            assert(reservations@.subrange(0, i + 1).last() == reservations@[i as int]);
        }
        i = i + 1;
    }
    proof {
        assert(reservations@.subrange(0, reservations@.len() as int) =~= reservations@);
    }
    let mut s = String::new();
    match params.metadata_placement {
        MetadataPlacement::Envelope => {
            s.append("<tns:timeedit><loginname>");
            s.append(params.login_name.as_str());
            s.append("</loginname><authserver>");
            s.append(params.auth_server.as_str());
            s.append("</authserver><reservationmode>");
            s.append(params.reservation_mode.as_str());
            s.append("</reservationmode>");
            s.append(inner.as_str());
            s.append("</tns:timeedit>");
        },
        MetadataPlacement::PerReservation => {
            s.append("<tns:timeedit>");
            s.append(inner.as_str());
            s.append("</tns:timeedit>");
        },
    }
    proof {
        assert(s@ =~= spec_payload_xml(reservations@, *params));
    }
    Ok(s)
}

/// The slot offset of the cell with row-major linear index `i`.
pub open spec fn spec_cell_offset(i: int, width: int, timestep: int) -> int {
    spec_offset_minutes(i % width, i / width, timestep)
}

/// A cell either produces nothing or its two computed timestamps fit the
/// wire format.
pub open spec fn spec_cell_ok(
    color: u8,
    i: int,
    width: int,
    params: ServerParams,
    timestep: int,
) -> bool {
    spec_cell_is_skipped(color, params) || {
        let off = spec_cell_offset(i, width, timestep);
        spec_add_minutes(params.start_datetime, off).year <= 9999 && spec_add_minutes(
            params.start_datetime,
            off + timestep,
        ).year <= 9999
    }
}

/// The document fragment one grid cell contributes: nothing for a skipped
/// sentinel cell, otherwise one reservation fragment at the cell's slot.
pub open spec fn spec_cell_xml(
    color: u8,
    i: int,
    width: int,
    params: ServerParams,
    timestep: int,
) -> Seq<char> {
    if spec_cell_is_skipped(color, params) {
        Seq::empty()
    } else {
        let off = spec_cell_offset(i, width, timestep);
        "<reservation><begin>"@ + spec_format_timestamp(
            spec_add_minutes(params.start_datetime, off),
        ) + "</begin><end>"@ + spec_format_timestamp(
            spec_add_minutes(params.start_datetime, off + timestep),
        ) + "</end><objects>"@ + spec_object_xml(params.canvas_object) + spec_object_xml(
            spec_cell_object(color, params),
        ) + "</objects><fields>"@ + "</fields><organizations><organization>"@ + params.org@
            + "</organization></organizations>"@ + (match params.metadata_placement {
            MetadataPlacement::Envelope => Seq::<char>::empty(),
            MetadataPlacement::PerReservation => spec_modified_by_xml(
                params.login_name@,
                params.auth_server@,
            ),
        }) + "</reservation>"@
    }
}

/// The concatenated fragments of the first `n` grid cells.
pub open spec fn spec_cells_xml(
    grid: Seq<u8>,
    params: ServerParams,
    width: int,
    timestep: int,
    n: int,
) -> Seq<char>
    decreases n,
{
    if n <= 0 {
        Seq::empty()
    } else {
        spec_cells_xml(grid, params, width, timestep, n - 1) + spec_cell_xml(
            grid[n - 1],
            n - 1,
            width,
            params,
            timestep,
        )
    }
}

/// The first `n` grid cells all fit the wire format.
pub open spec fn spec_cells_ok(
    grid: Seq<u8>,
    params: ServerParams,
    width: int,
    timestep: int,
    n: int,
) -> bool {
    forall|k: int|
        0 <= k < n ==> spec_cell_ok(#[trigger] grid[k], k, width, params, timestep)
}

/// The position of the first grid cell whose index resolves to no
/// configured object, scanning in row-major order from `i`.
pub open spec fn spec_first_bad_cell_from(grid: Seq<u8>, params: ServerParams, i: int) -> Option<
    int,
>
    decreases grid.len() - i,
{
    if i < 0 || i >= grid.len() {
        None
    } else if spec_cell_is_error(grid[i], params) {
        Some(i)
    } else {
        spec_first_bad_cell_from(grid, params, i + 1)
    }
}

/// The session-level preconditions the compiler checks before it builds
/// anything: one configured object per palette slot, a grid of exactly
/// `width * height` cells, and a start datetime the calendar accepts.
pub open spec fn spec_session_config_ok(
    grid: Seq<u8>,
    dimensions: (u32, u32),
    params: ServerParams,
    palette_len: int,
) -> bool {
    &&& params.color_objects@.len() == palette_len
    &&& grid.len() == dimensions.0 as int * dimensions.1 as int
    &&& params.start_datetime.formattable()
}

/// The whole conversion succeeds: the configuration is coherent, every cell
/// resolves, and every produced timestamp fits the format.
pub open spec fn spec_convert_ok(
    grid: Seq<u8>,
    dimensions: (u32, u32),
    params: ServerParams,
    palette_len: int,
) -> bool {
    &&& spec_session_config_ok(grid, dimensions, params, palette_len)
    &&& spec_first_bad_cell_from(grid, params, 0) is None
    &&& spec_cells_ok(
        grid,
        params,
        dimensions.0 as int,
        TIME_STEP_MINUTES as int,
        grid.len() as int,
    )
}

/// The error a failing conversion surfaces: configuration mismatches first,
/// then the first unresolvable cell, then a timestamp that does not fit.
pub open spec fn spec_convert_error(
    grid: Seq<u8>,
    dimensions: (u32, u32),
    params: ServerParams,
    palette_len: int,
) -> TeartError {
    if params.color_objects@.len() != palette_len {
        TeartError::ConfigurationError(ConfigField::ColorObjects)
    } else if grid.len() != dimensions.0 as int * dimensions.1 as int {
        TeartError::ConfigurationError(ConfigField::GridDimensions)
    } else if !params.start_datetime.formattable() {
        TeartError::FormatError
    } else {
        match spec_first_bad_cell_from(grid, params, 0) {
            Some(i) => TeartError::PaletteRangeError(grid[i]),
            None => TeartError::FormatError,
        }
    }
}

/// The document of a whole successful run.
pub open spec fn spec_document_xml(
    grid: Seq<u8>,
    dimensions: (u32, u32),
    params: ServerParams,
) -> Seq<char> {
    spec_envelope_xml(
        spec_cells_xml(
            grid,
            params,
            dimensions.0 as int,
            TIME_STEP_MINUTES as int,
            grid.len() as int,
        ),
        params,
    )
}

/// A reservation built for a cell serializes to exactly that cell's
/// fragment, and fits the format exactly when the cell does.
proof fn lemma_cell_fragment(
    res: Reservation,
    color: u8,
    i: int,
    width: int,
    timestep: u32,
    params: ServerParams,
)
    requires
        width > 0,
        0 <= i,
        !spec_cell_is_skipped(color, params),
        spec_reservation_for_cell(res, color, i % width, i / width, timestep, params),
    ensures
        spec_reservation_xml(
            res,
            params.metadata_placement,
            params.login_name@,
            params.auth_server@,
        ) == spec_cell_xml(color, i, width, params, timestep as int),
        spec_reservation_ok(res) == spec_cell_ok(color, i, width, params, timestep as int),
{
    assert(res.objects@.drop_last().drop_last() =~= Seq::<TEObject>::empty());
    assert(spec_objects_xml(res.objects@.drop_last().drop_last()) == Seq::<char>::empty());
    assert(res.objects@.drop_last().last() == res.objects@[0]);
    assert(res.objects@.last() == res.objects@[1]);
    assert(spec_objects_xml(res.objects@.drop_last()) =~= spec_object_xml(res.objects@[0]));
    assert(spec_objects_xml(res.objects@) =~= spec_object_xml(res.objects@[0]) + spec_object_xml(
        res.objects@[1],
    ));
    assert(spec_object_xml(res.objects@[0]) == spec_object_xml(params.canvas_object));
    assert(spec_object_xml(res.objects@[1]) == spec_object_xml(spec_cell_object(color, params)));
    assert(res.fields@ =~= Seq::<TEField>::empty());
    assert(res.start_time_offset as int == spec_cell_offset(i, width, timestep as int));
    assert(spec_reservation_xml(
        res,
        params.metadata_placement,
        params.login_name@,
        params.auth_server@,
    ) =~= spec_cell_xml(color, i, width, params, timestep as int));
}

/// Appending one cell extends the concatenated fragments by that cell's
/// fragment.
proof fn lemma_cells_xml_step(grid: Seq<u8>, params: ServerParams, width: int, ts: int, i: int)
    requires
        0 <= i < grid.len(),
    ensures
        spec_cells_xml(grid, params, width, ts, i + 1) == spec_cells_xml(grid, params, width, ts, i)
            + spec_cell_xml(grid[i], i, width, params, ts),
{
}

/// The first `i + 1` cells fit the format exactly when the first `i` do and
/// cell `i` does.
proof fn lemma_cells_ok_step(grid: Seq<u8>, params: ServerParams, width: int, ts: int, i: int)
    requires
        0 <= i < grid.len(),
    ensures
        spec_cells_ok(grid, params, width, ts, i + 1) == (spec_cells_ok(grid, params, width, ts, i)
            && spec_cell_ok(grid[i], i, width, params, ts)),
{
    if spec_cells_ok(grid, params, width, ts, i) && spec_cell_ok(grid[i], i, width, params, ts) {
        assert forall|k: int| 0 <= k < i + 1 implies spec_cell_ok(
            #[trigger] grid[k],
            k,
            width,
            params,
            ts,
        ) by {
            if k < i {
                assert(spec_cell_ok(grid[k], k, width, params, ts));
            }
        }
    }
    if spec_cells_ok(grid, params, width, ts, i + 1) {
        assert(spec_cell_ok(grid[i], i, width, params, ts));
    }
}

/// A sequence is unchanged by appending nothing.
proof fn lemma_append_empty(s: Seq<char>)
    ensures
        s + Seq::<char>::empty() == s,
{
    assert(s + Seq::<char>::empty() =~= s);
}

/// Pushing a reservation extends the concatenated fragments by its
/// fragment, and keeps the batch well formatted exactly when the pushed one
/// is.
proof fn lemma_reservations_push(
    rs: Seq<Reservation>,
    res: Reservation,
    placement: MetadataPlacement,
    login_name: Seq<char>,
    auth_server: Seq<char>,
)
    ensures
        spec_reservations_xml(rs.push(res), placement, login_name, auth_server)
            == spec_reservations_xml(rs, placement, login_name, auth_server)
            + spec_reservation_xml(res, placement, login_name, auth_server),
        spec_envelope_ok(rs.push(res)) == (spec_envelope_ok(rs) && spec_reservation_ok(res)),
{
    assert(rs.push(res).drop_last() =~= rs);
    assert(rs.push(res).last() == res);
    if spec_envelope_ok(rs) && spec_reservation_ok(res) {
        assert forall|j: int| 0 <= j < rs.push(res).len() implies spec_reservation_ok(
            #[trigger] rs.push(res)[j],
        ) by {
            if j < rs.len() {
                assert(rs.push(res)[j] == rs[j]);
                assert(spec_reservation_ok(rs[j]));
            } else {
                assert(rs.push(res)[j] == res);
            }
        }
    }
    if spec_envelope_ok(rs.push(res)) {
        assert forall|j: int| 0 <= j < rs.len() implies spec_reservation_ok(
            #[trigger] rs[j],
        ) by {
            assert(rs.push(res)[j] == rs[j]);
            assert(spec_reservation_ok(rs.push(res)[j]));
        }
        assert(rs.push(res)[rs.len() as int] == res);
        assert(spec_reservation_ok(res));
    }
}

/// Compiles a quantized index grid into the final document.  Validates the
/// session against the palette before building anything, then maps every
/// cell in row-major order, then serializes; any failure aborts the run
/// with nothing produced.
pub fn convert_image_to_reservation(
    image: Vec<u8>,
    dimensions: (u32, u32),
    server_params: ServerParams,
    palette: &Vec<Color>,
) -> (r: Result<String, TeartError>)
    requires
        dimensions.0 as int * dimensions.1 as int <= u32::MAX,
        spec_offset_minutes(
            dimensions.0 as int - 1,
            dimensions.1 as int - 1,
            TIME_STEP_MINUTES as int,
        ) + TIME_STEP_MINUTES as int <= u32::MAX,
    ensures
        match r {
            Ok(s) => spec_convert_ok(image@, dimensions, server_params, palette@.len() as int)
                && s@ == spec_document_xml(image@, dimensions, server_params),
            Err(e) => !spec_convert_ok(image@, dimensions, server_params, palette@.len() as int)
                && e == spec_convert_error(
                image@,
                dimensions,
                server_params,
                palette@.len() as int,
            ),
        },
{
    if server_params.color_objects.len() != palette.len() {
        return Err(TeartError::ConfigurationError(ConfigField::ColorObjects));
    }
    let cells: u64 = (dimensions.0 as u64) * (dimensions.1 as u64);
    if (image.len() as u64) != cells {
        return Err(TeartError::ConfigurationError(ConfigField::GridDimensions));
    }
    if !server_params.start_datetime.is_valid() || server_params.start_datetime.year > 9999 {
        return Err(TeartError::FormatError);
    }
    let width = dimensions.0;
    let mut reservations: Vec<Reservation> = Vec::new();
    let mut i: usize = 0;
    while i < image.len()
        invariant
            i <= image@.len(),
            width == dimensions.0,
            image@.len() == dimensions.0 as int * dimensions.1 as int,
            image@.len() <= u32::MAX,
            spec_offset_minutes(
                dimensions.0 as int - 1,
                dimensions.1 as int - 1,
                TIME_STEP_MINUTES as int,
            ) + TIME_STEP_MINUTES as int <= u32::MAX,
            server_params.start_datetime.formattable(),
            server_params.color_objects@.len() == palette@.len(),
            spec_first_bad_cell_from(image@, server_params, 0) == spec_first_bad_cell_from(
                image@,
                server_params,
                i as int,
            ),
            forall|j: int|
                0 <= j < reservations@.len() ==> spec_reservation_wf(
                    #[trigger] reservations@[j],
                ),
            spec_envelope_ok(reservations@) == spec_cells_ok(
                image@,
                server_params,
                width as int,
                10,
                i as int,
            ),
            spec_reservations_xml(
                reservations@,
                server_params.metadata_placement,
                server_params.login_name@,
                server_params.auth_server@,
            ) == spec_cells_xml(image@, server_params, width as int, 10, i as int),
        decreases image@.len() - i,
    {
        let color = image[i];
        proof {
            lemma_index_roundtrip(i as int, width as int, dimensions.1 as int);
        }
        let coord = Point::new(i, dimensions);
        match convert_pixel_to_reservation(color, coord, TIME_STEP_MINUTES, &server_params) {
            Err(e) => {
                proof {
                    assert(spec_first_bad_cell_from(image@, server_params, i as int) == Some(
                        i as int,
                    ));
                }
                return Err(e);
            },
            Ok(None) => {
                proof {
                    lemma_cells_xml_step(image@, server_params, width as int, 10, i as int);
                    lemma_cells_ok_step(image@, server_params, width as int, 10, i as int);
                    lemma_append_empty(
                        spec_cells_xml(image@, server_params, width as int, 10, i as int),
                    );
                }
            },
            Ok(Some(res)) => {
                proof {
                    lemma_cell_fragment(
                        res,
                        color,
                        i as int,
                        width as int,
                        TIME_STEP_MINUTES,
                        server_params,
                    );
                    lemma_cells_xml_step(image@, server_params, width as int, 10, i as int);
                    lemma_cells_ok_step(image@, server_params, width as int, 10, i as int);
                    lemma_reservations_push(
                        reservations@,
                        res,
                        server_params.metadata_placement,
                        server_params.login_name@,
                        server_params.auth_server@,
                    );
                }
                reservations.push(res);
            },
        }
        i = i + 1;
    }
    match create_xml_payload(&reservations, &server_params) {
        Ok(s) => Ok(s),
        Err(e) => Err(e),
    }
}

/// The position of the first configured object naming the same entity as
/// `o`, scanning from `i`.
pub open spec fn spec_object_index_from(objs: Seq<TEObject>, o: TEObject, i: int) -> Option<int>
    decreases objs.len() - i,
{
    if i < 0 || i >= objs.len() {
        None
    } else if spec_obj_eq(objs[i], o) {
        Some(i)
    } else {
        spec_object_index_from(objs, o, i + 1)
    }
}

/// The position of `o` in the configured object order.
pub open spec fn spec_object_index(objs: Seq<TEObject>, o: TEObject) -> Option<int> {
    spec_object_index_from(objs, o, 0)
}

/// Looks an object up by configured order: the position of the first
/// configured object naming the same entity, if any.
pub fn object_index(color_objects: &Vec<TEObject>, object: &TEObject) -> (r: Option<usize>)
    ensures
        match r {
            Some(j) => spec_object_index(color_objects@, *object) == Some(j as int),
            None => spec_object_index(color_objects@, *object) is None,
        },
{
    let mut i: usize = 0;
    while i < color_objects.len()
        invariant
            i <= color_objects@.len(),
            spec_object_index_from(color_objects@, *object, 0) == spec_object_index_from(
                color_objects@,
                *object,
                i as int,
            ),
        decreases color_objects@.len() - i,
    {
        if color_objects[i] == *object {
            return Some(i);
        }
        i = i + 1;
    }
    None
}

proof fn lemma_object_index_from(objs: Seq<TEObject>, i: int, start: int)
    requires
        0 <= start <= i < objs.len(),
        forall|j: int, k: int|
            0 <= j < k < objs.len() ==> !spec_obj_eq(#[trigger] objs[j], #[trigger] objs[k]),
    ensures
        spec_object_index_from(objs, objs[i], start) == Some(i),
    decreases i - start,
{
    if start == i {
        assert(spec_obj_eq(objs[i], objs[i]));
    } else {
        assert(!spec_obj_eq(objs[start], objs[i]));
        lemma_object_index_from(objs, i, start + 1);
    }
}

/// Law: resolving an in-range palette index to its configured schedule
/// object and looking that object up again by configured order yields the
/// same index, provided no two configured objects name the same entity.
pub proof fn lemma_object_roundtrip(objs: Seq<TEObject>, i: int)
    requires
        0 <= i < objs.len(),
        forall|j: int, k: int|
            0 <= j < k < objs.len() ==> !spec_obj_eq(#[trigger] objs[j], #[trigger] objs[k]),
    ensures
        spec_object_index(objs, objs[i]) == Some(i),
{
    lemma_object_index_from(objs, i, 0);
}

/// Law: the compiler is deterministic — the document is a function of the
/// index grid and session parameters alone, so re-running it on the same
/// input produces byte-identical output.
pub proof fn lemma_convert_deterministic(
    out1: Seq<char>,
    out2: Seq<char>,
    grid: Seq<u8>,
    dimensions: (u32, u32),
    params: ServerParams,
)
    requires
        out1 == spec_document_xml(grid, dimensions, params),
        out2 == spec_document_xml(grid, dimensions, params),
    ensures
        out1 == out2,
{
}

/// Law: a cell whose index equals the reserved sentinel follows the
/// configured sentinel policy — skipped outright, mapped to the dedicated
/// object, or resolved literally by position.  The outcome depends only on
/// the index and the session, so it is the same for every such cell.
pub proof fn lemma_sentinel_policy(color: u8, params: ServerParams)
    requires
        color == params.sentinel_index,
    ensures
        match params.sentinel_policy {
            SentinelPolicy::Skip => spec_cell_is_skipped(color, params) && !spec_cell_is_error(
                color,
                params,
            ),
            SentinelPolicy::Dedicated(o) => !spec_cell_is_skipped(color, params)
                && !spec_cell_is_error(color, params) && spec_cell_object(color, params) == o,
            SentinelPolicy::Literal => !spec_cell_is_skipped(color, params) && (spec_cell_is_error(
                color,
                params,
            ) <==> color as int >= params.color_objects@.len()) && ((color as int)
                < params.color_objects@.len() ==> spec_cell_object(color, params)
                == params.color_objects@[color as int]),
        },
{
}

} // verus!
