//! Devices and their locations, and the rows of the database they come from.

use vstd::prelude::*;

use crate::clock::{reads_as, rfc3339_read, text_to_time, Moment, Timestamp};
use crate::device_id::{reads_as_id, text_to_id, uuid_read};

verus! {

/// What a device measured. Each number is the bit pattern of a 64-bit binary
/// floating point number.
#[derive(Clone, Copy, Debug, PartialEq, Eq)]
pub struct Reading {
    pub latitude: u64,
    pub longitude: u64,
    pub accuracy: Option<u64>,
    pub altitude: Option<u64>,
    pub heading: Option<u64>,
    pub speed: Option<u64>,
    pub battery_level: Option<u64>,
}

/// What a report of a location holds.
pub struct Place {
    pub id: Option<i64>,
    pub reading: Reading,
    pub captured_at: Moment,
    pub received_at: Moment,
}

/// A location that a device reported.
#[derive(Clone, Copy, Debug)]
pub struct Location {
    pub id: Option<i64>,
    pub reading: Reading,
    pub captured_at: Timestamp,
    pub received_at: Timestamp,
}

impl DeepView for Location {
    type V = Place;

    open spec fn deep_view(&self) -> Place {
        Place {
            id: self.id,
            reading: self.reading,
            captured_at: self.captured_at@,
            received_at: self.received_at@,
        }
    }
}

/// What there is to know of a device.
pub struct Profile {
    pub id: u128,
    pub name: Seq<char>,
    pub platform: Option<Seq<char>>,
    pub created_at: Moment,
    pub updated_at: Moment,
    pub last_location: Option<Place>,
}

/// A device with the last location it reported.
#[derive(Debug)]
pub struct Device {
    pub id: u128,
    pub name: String,
    pub platform: Option<String>,
    pub created_at: Timestamp,
    pub updated_at: Timestamp,
    pub last_location: Option<Location>,
}

impl DeepView for Device {
    type V = Profile;

    open spec fn deep_view(&self) -> Profile {
        Profile {
            id: self.id,
            name: self.name@,
            platform: self.platform.deep_view(),
            created_at: self.created_at@,
            updated_at: self.updated_at@,
            last_location: self.last_location.deep_view(),
        }
    }
}

/// A device as the admin page shows it.
pub struct AdminProfile {
    pub device: Profile,
    pub location_count: int,
    pub coordinates: (Seq<char>, Seq<char>),
}

/// A device with the number of its locations, and with the latitude and the
/// longitude of the last one as text with six decimals. Where the device has no
/// location the two texts stand for nothing.
#[derive(Debug)]
pub struct AdminDevice {
    pub device: Device,
    pub location_count: i64,
    pub coordinates: (String, String),
}

impl DeepView for AdminDevice {
    type V = AdminProfile;

    open spec fn deep_view(&self) -> AdminProfile {
        AdminProfile {
            device: self.device.deep_view(),
            location_count: self.location_count as int,
            coordinates: self.coordinates.deep_view(),
        }
    }
}

/// What a new device sends.
#[derive(Debug)]
pub struct RegisterDeviceRequest {
    pub id: Option<u128>,
    pub name: String,
    pub platform: Option<String>,
}

/// What a device sends to change its name or its platform.
#[derive(Debug)]
pub struct UpdateDeviceRequest {
    pub name: Option<String>,
    pub platform: Option<String>,
}

/// What a device sends to report where it is.
#[derive(Clone, Copy, Debug)]
pub struct LocationRequest {
    pub reading: Reading,
    pub captured_at: Option<Timestamp>,
}

/// How far back the track of a device is asked for.
#[derive(Clone, Copy, Debug)]
pub struct TrackQuery {
    pub days: Option<i64>,
}

/// The columns of a row of locations.
pub struct PlaceRow {
    pub id: i64,
    pub reading: Reading,
    pub captured_at: Seq<char>,
    pub received_at: Seq<char>,
}

/// A row of locations as the database gives it.
#[derive(Debug)]
pub struct LocationRow {
    pub id: i64,
    pub reading: Reading,
    pub captured_at: String,
    pub received_at: String,
}

impl DeepView for LocationRow {
    type V = PlaceRow;

    open spec fn deep_view(&self) -> PlaceRow {
        PlaceRow {
            id: self.id,
            reading: self.reading,
            captured_at: self.captured_at@,
            received_at: self.received_at@,
        }
    }
}

/// The columns of a row of devices, joined with the last location of each.
pub struct ProfileRow {
    pub id: Seq<char>,
    pub name: Seq<char>,
    pub platform: Option<Seq<char>>,
    pub created_at: Seq<char>,
    pub updated_at: Seq<char>,
    pub location: Option<PlaceRow>,
}

/// A row of devices as the database gives it, joined with the last location of
/// the device.
#[derive(Debug)]
pub struct DeviceRow {
    pub id: String,
    pub name: String,
    pub platform: Option<String>,
    pub created_at: String,
    pub updated_at: String,
    pub location: Option<LocationRow>,
}

impl DeepView for DeviceRow {
    type V = ProfileRow;

    open spec fn deep_view(&self) -> ProfileRow {
        ProfileRow {
            id: self.id@,
            name: self.name@,
            platform: self.platform.deep_view(),
            created_at: self.created_at@,
            updated_at: self.updated_at@,
            location: self.location.deep_view(),
        }
    }
}

/// The columns of a row of the admin page.
pub struct AdminProfileRow {
    pub device: ProfileRow,
    pub location_count: int,
    pub coordinates: (Seq<char>, Seq<char>),
}

/// A row of devices as the admin page needs it, with the number of locations,
/// and with the coordinates of the last one as text. Where there is none the two
/// texts stand for nothing.
#[derive(Debug)]
pub struct AdminDeviceRow {
    pub device: DeviceRow,
    pub location_count: i64,
    pub coordinates: (String, String),
}

impl DeepView for AdminDeviceRow {
    type V = AdminProfileRow;

    open spec fn deep_view(&self) -> AdminProfileRow {
        AdminProfileRow {
            device: self.device.deep_view(),
            location_count: self.location_count as int,
            coordinates: self.coordinates.deep_view(),
        }
    }
}

/// The message about a column whose text cannot be read.
pub open spec fn unreadable(detail: Seq<char>) -> Seq<char> {
    "Conversion error from type Text at index: 0, "@ + detail
}

/// The moment that a column stands for, or the message about it.
pub open spec fn moment_in(text: Seq<char>) -> Result<Moment, Seq<char>> {
    match rfc3339_read(text) {
        Ok(at) => Ok(Moment { secs: at.0, nanos: at.1 }),
        Err(detail) => Err(unreadable(detail)),
    }
}

/// The identifier that a column stands for, or the message about it.
pub open spec fn id_in(text: Seq<char>) -> Result<u128, Seq<char>> {
    match uuid_read(text) {
        Ok(id) => Ok(id),
        Err(detail) => Err(unreadable(detail)),
    }
}

/// The location in a row, or the message about the first column of it that
/// cannot be read.
pub open spec fn place_in(row: PlaceRow) -> Result<Place, Seq<char>> {
    match (moment_in(row.captured_at), moment_in(row.received_at)) {
        (Err(e), _) => Err(e),
        (_, Err(e)) => Err(e),
        (Ok(captured_at), Ok(received_at)) => Ok(
            Place { id: Some(row.id), reading: row.reading, captured_at, received_at },
        ),
    }
}

/// The last location in a row, or the message about it.
pub open spec fn last_place_in(row: Option<PlaceRow>) -> Result<Option<Place>, Seq<char>> {
    match row {
        None => Ok(None),
        Some(row) => match place_in(row) {
            Ok(place) => Ok(Some(place)),
            Err(e) => Err(e),
        },
    }
}

/// The device in a row, or the message about the first column that cannot be
/// read: those of the location come first, then the identifier, then the two
/// times of the device.
pub open spec fn profile_in(row: ProfileRow) -> Result<Profile, Seq<char>> {
    match (
        last_place_in(row.location),
        id_in(row.id),
        moment_in(row.created_at),
        moment_in(row.updated_at),
    ) {
        (Err(e), _, _, _) => Err(e),
        (_, Err(e), _, _) => Err(e),
        (_, _, Err(e), _) => Err(e),
        (_, _, _, Err(e)) => Err(e),
        (Ok(last_location), Ok(id), Ok(created_at), Ok(updated_at)) => Ok(
            Profile {
                id,
                name: row.name,
                platform: row.platform,
                created_at,
                updated_at,
                last_location,
            },
        ),
    }
}

/// The device of the admin page in a row, or the message about it.
pub open spec fn admin_profile_in(row: AdminProfileRow) -> Result<AdminProfile, Seq<char>> {
    match profile_in(row.device) {
        Ok(device) => Ok(
            AdminProfile {
                device,
                location_count: row.location_count,
                coordinates: row.coordinates,
            },
        ),
        Err(e) => Err(e),
    }
}

/// The `Display` of `rusqlite::Error::FromSqlConversionFailure` for a column of
/// type `Text` at index 0: a fixed head, then the `Display` of the error
/// within, which here is a given text.
#[verifier::external_body]
fn parse_error(detail: &str) -> (r: String)
    ensures
        r@ == unreadable(detail@),
{
    rusqlite::Error::FromSqlConversionFailure(0, rusqlite::types::Type::Text, detail.into())
        .to_string()
}

fn moment_of(text: &str) -> (r: Result<Timestamp, String>)
    ensures
        match (r, moment_in(text@)) {
            (Ok(at), Ok(named)) => at@ == named,
            (Err(e), Err(named)) => e@ == named,
            _ => false,
        },
{
    match text_to_time(text) {
        Ok(at) => Ok(at),
        Err(detail) => Err(parse_error(detail.as_str())),
    }
}

fn id_of(text: &str) -> (r: Result<u128, String>)
    ensures
        match (r, id_in(text@)) {
            (Ok(id), Ok(named)) => id == named,
            (Err(e), Err(named)) => e@ == named,
            _ => false,
        },
{
    match text_to_id(text) {
        Ok(id) => Ok(id),
        Err(detail) => Err(parse_error(detail.as_str())),
    }
}

/// The location in a row, or the message about the first column that cannot be
/// read.
pub fn row_to_location(row: &LocationRow) -> (r: Result<Location, String>)
    ensures
        match (r, place_in(row.deep_view())) {
            (Ok(location), Ok(named)) => location.deep_view() == named,
            (Err(e), Err(named)) => e@ == named,
            _ => false,
        },
{
    let captured_at = match moment_of(row.captured_at.as_str()) {
        Ok(at) => at,
        Err(e) => return Err(e),
    };
    let received_at = match moment_of(row.received_at.as_str()) {
        Ok(at) => at,
        Err(e) => return Err(e),
    };
    Ok(Location { id: Some(row.id), reading: row.reading, captured_at, received_at })
}

/// A copy of an optional text.
pub(crate) fn copied(text: &Option<String>) -> (r: Option<String>)
    ensures
        r.deep_view() == text.deep_view(),
{
    match text {
        Some(text) => Some(text.clone()),
        None => None,
    }
}

/// The device in a row, or the message about the first column that cannot be
/// read.
pub fn row_to_device(row: &DeviceRow) -> (r: Result<Device, String>)
    ensures
        match (r, profile_in(row.deep_view())) {
            (Ok(device), Ok(named)) => device.deep_view() == named,
            (Err(e), Err(named)) => e@ == named,
            _ => false,
        },
{
    let last_location = match &row.location {
        Some(location) => match row_to_location(location) {
            Ok(location) => Some(location),
            Err(e) => return Err(e),
        },
        None => None,
    };
    let id: u128 = match id_of(row.id.as_str()) {
        Ok(id) => id,
        Err(e) => return Err(e),
    };
    let created_at = match moment_of(row.created_at.as_str()) {
        Ok(at) => at,
        Err(e) => return Err(e),
    };
    let updated_at = match moment_of(row.updated_at.as_str()) {
        Ok(at) => at,
        Err(e) => return Err(e),
    };
    Ok(
        Device {
            id,
            name: row.name.clone(),
            platform: copied(&row.platform),
            created_at,
            updated_at,
            last_location,
        },
    )
}

/// The device of the admin page in a row, or the message about it.
pub fn row_to_admin_device(row: &AdminDeviceRow) -> (r: Result<AdminDevice, String>)
    ensures
        match (r, admin_profile_in(row.deep_view())) {
            (Ok(device), Ok(named)) => device.deep_view() == named,
            (Err(e), Err(named)) => e@ == named,
            _ => false,
        },
{
    match row_to_device(&row.device) {
        Ok(device) => Ok(
            AdminDevice {
                device,
                location_count: row.location_count,
                coordinates: (row.coordinates.0.clone(), row.coordinates.1.clone()),
            },
        ),
        Err(e) => Err(e),
    }
}

/// What a list of rows comes to: the items in them, in the same order; where
/// one cannot be read, the message about the first such row; where all of them
/// can but reading the list broke off behind them, the message about that.
pub open spec fn all_in<R, T>(
    rows: Seq<R>,
    item_in: spec_fn(R) -> Result<T, Seq<char>>,
    failure: Option<Seq<char>>,
) -> Result<Seq<T>, Seq<char>> {
    match (items_in(rows, item_in), failure) {
        (Err(e), _) => Err(e),
        (Ok(_), Some(e)) => Err(e),
        (Ok(items), None) => Ok(items),
    }
}

/// The items in a list of rows, or the message about the first row that cannot
/// be read.
pub open spec fn items_in<R, T>(
    rows: Seq<R>,
    item_in: spec_fn(R) -> Result<T, Seq<char>>,
) -> Result<Seq<T>, Seq<char>>
    decreases rows.len(),
{
    if rows.len() == 0 {
        Ok(Seq::empty())
    } else {
        match items_in(rows.drop_last(), item_in) {
            Err(e) => Err(e),
            Ok(items) => match item_in(rows.last()) {
                Err(e) => Err(e),
                Ok(item) => Ok(items.push(item)),
            },
        }
    }
}

proof fn lemma_failed_prefix<R, T>(
    rows: Seq<R>,
    item_in: spec_fn(R) -> Result<T, Seq<char>>,
    n: int,
)
    requires
        0 <= n <= rows.len(),
        items_in(rows.take(n), item_in) is Err,
    ensures
        items_in(rows, item_in) == items_in(rows.take(n), item_in),
    decreases rows.len(),
{
    if n == rows.len() {
        assert(rows.take(n) == rows);
    } else {
        assert(rows.drop_last().take(n) == rows.take(n));
        lemma_failed_prefix(rows.drop_last(), item_in, n);
    }
}

/// The devices in a list of rows.
pub fn rows_to_devices(rows: &Vec<DeviceRow>, failure: &Option<String>) -> (r: Result<
    Vec<Device>,
    String,
>)
    ensures
        match (
            r,
            all_in(rows.deep_view(), |row: ProfileRow| profile_in(row), failure.deep_view()),
        ) {
            (Ok(items), Ok(named)) => items.deep_view() == named,
            (Err(e), Err(named)) => e@ == named,
            _ => false,
        },
{
    let ghost named = |row: ProfileRow| profile_in(row);
    let ghost all = rows.deep_view();
    let mut items: Vec<Device> = Vec::new();
    let mut i: usize = 0;
    assert(all.take(0) == Seq::<ProfileRow>::empty());
    assert(items.deep_view() == Seq::<Profile>::empty());
    while i < rows.len()
        invariant
            i <= rows@.len(),
            all == rows.deep_view(),
            named == (|row: ProfileRow| profile_in(row)),
            items_in(all.take(i as int), named) is Ok,
            items_in(all.take(i as int), named)->Ok_0 == items.deep_view(),
        decreases rows@.len() - i,
    {
        let ghost before = items.deep_view();
        assert(all.take(i + 1).drop_last() == all.take(i as int));
        assert(all.take(i + 1).last() == rows@[i as int].deep_view());
        match row_to_device(&rows[i]) {
            Ok(item) => {
                items.push(item);
                assert(items.deep_view() == before.push(item.deep_view()));
            },
            Err(e) => {
                proof {
                    lemma_failed_prefix(all, named, i + 1);
                }
                return Err(e);
            },
        }
        i = i + 1;
    }
    assert(all.take(all.len() as int) == all);
    match failure {
        Some(e) => Err(e.clone()),
        None => Ok(items),
    }
}

/// The devices of the admin page in a list of rows.
pub fn rows_to_admin_devices(rows: &Vec<AdminDeviceRow>, failure: &Option<String>) -> (r: Result<
    Vec<AdminDevice>,
    String,
>)
    ensures
        match (
            r,
            all_in(
                rows.deep_view(),
                |row: AdminProfileRow| admin_profile_in(row),
                failure.deep_view(),
            ),
        ) {
            (Ok(items), Ok(named)) => items.deep_view() == named,
            (Err(e), Err(named)) => e@ == named,
            _ => false,
        },
{
    let ghost named = |row: AdminProfileRow| admin_profile_in(row);
    let ghost all = rows.deep_view();
    let mut items: Vec<AdminDevice> = Vec::new();
    let mut i: usize = 0;
    assert(all.take(0) == Seq::<AdminProfileRow>::empty());
    assert(items.deep_view() == Seq::<AdminProfile>::empty());
    while i < rows.len()
        invariant
            i <= rows@.len(),
            all == rows.deep_view(),
            named == (|row: AdminProfileRow| admin_profile_in(row)),
            items_in(all.take(i as int), named) is Ok,
            items_in(all.take(i as int), named)->Ok_0 == items.deep_view(),
        decreases rows@.len() - i,
    {
        let ghost before = items.deep_view();
        assert(all.take(i + 1).drop_last() == all.take(i as int));
        assert(all.take(i + 1).last() == rows@[i as int].deep_view());
        match row_to_admin_device(&rows[i]) {
            Ok(item) => {
                items.push(item);
                assert(items.deep_view() == before.push(item.deep_view()));
            },
            Err(e) => {
                proof {
                    lemma_failed_prefix(all, named, i + 1);
                }
                return Err(e);
            },
        }
        i = i + 1;
    }
    assert(all.take(all.len() as int) == all);
    match failure {
        Some(e) => Err(e.clone()),
        None => Ok(items),
    }
}

/// The locations in a list of rows.
pub fn rows_to_locations(rows: &Vec<LocationRow>, failure: &Option<String>) -> (r: Result<
    Vec<Location>,
    String,
>)
    ensures
        match (r, all_in(rows.deep_view(), |row: PlaceRow| place_in(row), failure.deep_view())) {
            (Ok(items), Ok(named)) => items.deep_view() == named,
            (Err(e), Err(named)) => e@ == named,
            _ => false,
        },
{
    let ghost named = |row: PlaceRow| place_in(row);
    let ghost all = rows.deep_view();
    let mut items: Vec<Location> = Vec::new();
    let mut i: usize = 0;
    assert(all.take(0) == Seq::<PlaceRow>::empty());
    assert(items.deep_view() == Seq::<Place>::empty());
    while i < rows.len()
        invariant
            i <= rows@.len(),
            all == rows.deep_view(),
            named == (|row: PlaceRow| place_in(row)),
            items_in(all.take(i as int), named) is Ok,
            items_in(all.take(i as int), named)->Ok_0 == items.deep_view(),
        decreases rows@.len() - i,
    {
        let ghost before = items.deep_view();
        assert(all.take(i + 1).drop_last() == all.take(i as int));
        assert(all.take(i + 1).last() == rows@[i as int].deep_view());
        match row_to_location(&rows[i]) {
            Ok(item) => {
                items.push(item);
                assert(items.deep_view() == before.push(item.deep_view()));
            },
            Err(e) => {
                proof {
                    lemma_failed_prefix(all, named, i + 1);
                }
                return Err(e);
            },
        }
        i = i + 1;
    }
    assert(all.take(all.len() as int) == all);
    match failure {
        Some(e) => Err(e.clone()),
        None => Ok(items),
    }
}

/// A location is what its row holds: the key, the numbers, and the two times in
/// their places. It cannot be read exactly where one of the times cannot.
pub proof fn law_location_is_its_row(row: PlaceRow)
    ensures
        match place_in(row) {
            Ok(place) => {
                &&& place.id == Some(row.id)
                &&& place.reading == row.reading
                &&& moment_in(row.captured_at) == Ok::<Moment, Seq<char>>(place.captured_at)
                &&& moment_in(row.received_at) == Ok::<Moment, Seq<char>>(place.received_at)
            },
            Err(e) => {
                ||| moment_in(row.captured_at) == Err::<Moment, Seq<char>>(e)
                ||| moment_in(row.captured_at) is Ok && moment_in(row.received_at) == Err::<
                    Moment,
                    Seq<char>,
                >(e)
            },
        },
{
}

/// A device is what its row holds: the identifier, the name, the platform, the
/// two times in their places, and the last location where the row has one. It
/// cannot be read exactly where one of them cannot.
pub proof fn law_device_is_its_row(row: ProfileRow)
    ensures
        match profile_in(row) {
            Ok(device) => {
                &&& id_in(row.id) == Ok::<u128, Seq<char>>(device.id)
                &&& device.name == row.name
                &&& device.platform == row.platform
                &&& moment_in(row.created_at) == Ok::<Moment, Seq<char>>(device.created_at)
                &&& moment_in(row.updated_at) == Ok::<Moment, Seq<char>>(device.updated_at)
                &&& row.location is None ==> device.last_location is None
                &&& row.location matches Some(location) ==> (device.last_location matches Some(
                    place,
                ) && place_in(location) == Ok::<Place, Seq<char>>(place))
            },
            Err(e) => {
                ||| row.location matches Some(location) && place_in(location) == Err::<
                    Place,
                    Seq<char>,
                >(e)
                ||| id_in(row.id) == Err::<u128, Seq<char>>(e)
                ||| moment_in(row.created_at) == Err::<Moment, Seq<char>>(e)
                ||| moment_in(row.updated_at) == Err::<Moment, Seq<char>>(e)
            },
        },
{
}

/// A device of the admin page is what its row holds, with the number and the
/// texts of the row.
pub proof fn law_admin_device_is_its_row(row: AdminProfileRow)
    ensures
        match admin_profile_in(row) {
            Ok(entry) => {
                &&& profile_in(row.device) == Ok::<Profile, Seq<char>>(entry.device)
                &&& entry.location_count == row.location_count
                &&& entry.coordinates == row.coordinates
            },
            Err(e) => profile_in(row.device) == Err::<Profile, Seq<char>>(e),
        },
{
}

/// A text that is read is read as the outside reader reads it, and one that
/// cannot be read is named with the outside reader's words behind a fixed head.
pub proof fn law_columns_are_read_as_they_are_read_outside(text: Seq<char>, at: Moment, id: u128)
    ensures
        reads_as(text, at) ==> moment_in(text) == Ok::<Moment, Seq<char>>(at),
        moment_in(text) matches Ok(read) ==> reads_as(text, read),
        moment_in(text) matches Err(e) ==> (rfc3339_read(text) matches Err(detail) && e
            == "Conversion error from type Text at index: 0, "@ + detail),
        reads_as_id(text, id) ==> id_in(text) == Ok::<u128, Seq<char>>(id),
        id_in(text) matches Ok(read) ==> reads_as_id(text, read),
        id_in(text) matches Err(e) ==> (uuid_read(text) matches Err(detail) && e
            == "Conversion error from type Text at index: 0, "@ + detail),
{
}

/// A list is whole or it is refused. Where it is read, every row has its item, in
/// the order of the rows, and nothing is added or left out, however many there
/// are. Where it is not, the message is that about the first row that cannot be
/// read; where all can, that about how reading broke off.
pub proof fn law_lists_are_whole<R, T>(
    rows: Seq<R>,
    item_in: spec_fn(R) -> Result<T, Seq<char>>,
    failure: Option<Seq<char>>,
)
    ensures
        match all_in(rows, item_in, failure) {
            Ok(items) => {
                &&& failure is None
                &&& items.len() == rows.len()
                &&& forall|i: int|
                    0 <= i < rows.len() ==> item_in(#[trigger] rows[i]) == Ok::<T, Seq<char>>(
                        items[i],
                    )
            },
            Err(e) => {
                ||| exists|k: int|
                    #![trigger rows[k]]
                    0 <= k < rows.len() && item_in(rows[k]) == Err::<T, Seq<char>>(e) && forall|
                        i: int,
                    |
                        0 <= i < k ==> item_in(#[trigger] rows[i]) is Ok
                ||| failure == Some(e) && forall|i: int|
                    0 <= i < rows.len() ==> item_in(#[trigger] rows[i]) is Ok
            },
        },
{
    lemma_items_are_whole(rows, item_in);
}

proof fn lemma_items_are_whole<R, T>(rows: Seq<R>, item_in: spec_fn(R) -> Result<T, Seq<char>>)
    ensures
        match items_in(rows, item_in) {
            Ok(items) => items.len() == rows.len() && forall|i: int|
                0 <= i < rows.len() ==> item_in(#[trigger] rows[i]) == Ok::<T, Seq<char>>(items[i]),
            Err(e) => exists|k: int|
                #![trigger rows[k]]
                0 <= k < rows.len() && item_in(rows[k]) == Err::<T, Seq<char>>(e) && forall|i: int|
                    0 <= i < k ==> item_in(#[trigger] rows[i]) is Ok,
        },
    decreases rows.len(),
{
    if rows.len() > 0 {
        let front = rows.drop_last();
        let last = rows.len() - 1;
        lemma_items_are_whole(front, item_in);
        match items_in(front, item_in) {
            Ok(items) => {
                assert forall|i: int| 0 <= i < last implies item_in(#[trigger] rows[i]) == Ok::<
                    T,
                    Seq<char>,
                >(items[i]) by {
                    assert(front[i] == rows[i]);
                }
                assert(rows[last] == rows.last());
            },
            Err(e) => {
                let k = choose|k: int|
                    #![trigger front[k]]
                    0 <= k < front.len() && item_in(front[k]) == Err::<T, Seq<char>>(e) && forall|
                        i: int,
                    |
                        0 <= i < k ==> item_in(#[trigger] front[i]) is Ok;
                assert(rows[k] == front[k]);
                assert forall|i: int| 0 <= i < k implies item_in(#[trigger] rows[i]) is Ok by {
                    assert(front[i] == rows[i]);
                }
            },
        }
    }
}

/// The views of locations, devices and their rows hold what these hold.
pub proof fn law_views_of_records_are_whole(
    location: Location,
    device: Device,
    entry: AdminDevice,
    location_row: LocationRow,
    row: DeviceRow,
    admin_row: AdminDeviceRow,
)
    ensures
        location.deep_view().id == location.id,
        location.deep_view().reading == location.reading,
        location.deep_view().captured_at == location.captured_at@,
        location.deep_view().received_at == location.received_at@,
        device.deep_view().id == device.id,
        device.deep_view().name == device.name@,
        device.platform matches Some(text) ==> device.deep_view().platform == Some(text@),
        device.platform is None ==> device.deep_view().platform is None,
        device.deep_view().created_at == device.created_at@,
        device.deep_view().updated_at == device.updated_at@,
        device.last_location matches Some(last) ==> device.deep_view().last_location == Some(
            last.deep_view(),
        ),
        device.last_location is None ==> device.deep_view().last_location is None,
        entry.deep_view().device == entry.device.deep_view(),
        entry.deep_view().location_count == entry.location_count,
        entry.deep_view().coordinates.0 == entry.coordinates.0@,
        entry.deep_view().coordinates.1 == entry.coordinates.1@,
        location_row.deep_view().id == location_row.id,
        location_row.deep_view().reading == location_row.reading,
        location_row.deep_view().captured_at == location_row.captured_at@,
        location_row.deep_view().received_at == location_row.received_at@,
        row.deep_view().id == row.id@,
        row.deep_view().name == row.name@,
        row.platform matches Some(text) ==> row.deep_view().platform == Some(text@),
        row.platform is None ==> row.deep_view().platform is None,
        row.deep_view().created_at == row.created_at@,
        row.deep_view().updated_at == row.updated_at@,
        row.location matches Some(last) ==> row.deep_view().location == Some(last.deep_view()),
        row.location is None ==> row.deep_view().location is None,
        admin_row.deep_view().device == admin_row.device.deep_view(),
        admin_row.deep_view().location_count == admin_row.location_count,
        admin_row.deep_view().coordinates.0 == admin_row.coordinates.0@,
        admin_row.deep_view().coordinates.1 == admin_row.coordinates.1@,
{
}

} // verus!
