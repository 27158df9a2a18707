//! Tests of the timestamp, date and time scalars, including the decoding
//! conventions of the JSON flavors served by the surrounding adapters.

use zset_store::timestamp::{
    date_from_string, date_to_string, datediff_day_Date_Date, extract_century_Timestamp,
    extract_day_Date, extract_day_Timestamp, extract_decade_Timestamp, extract_dow_Date,
    extract_dow_Timestamp, extract_doy_Timestamp, extract_epoch_Date, extract_epoch_Timestamp,
    extract_hour_Date, extract_hour_Time, extract_hour_Timestamp, extract_isodow_Timestamp,
    extract_isoyear_Timestamp, extract_microsecond_Time, extract_microsecond_Timestamp,
    extract_millennium_Timestamp,
    extract_millisecond_Time, extract_millisecond_Timestamp, extract_minute_Time,
    extract_minute_Timestamp, extract_month_Date, extract_month_Timestamp,
    extract_quarter_Timestamp,
    extract_second_Date, extract_second_Time, extract_second_Timestamp, extract_week_Timestamp,
    extract_year_Date, extract_year_Timestamp, floor_week_Timestamp, format_date__,
    minus_Date_DateN_ShortIntervalN, minus_Date_Date_LongInterval, minus_Date_Date_ShortInterval,
    minus_DateN_Date_LongIntervaNl, minus_DateN_DateN_LongIntervalN,
    minus_Timestamp_ShortInterval_Timestamp, minus_Timestamp_Timestamp_LongInterval,
    minus_Timestamp_Timestamp_ShortInterval, plus_Timestamp_ShortInterval, time_from_micros,
    time_from_string, time_to_micros, time_to_string, timestamp_from_string, timestamp_to_string,
    tumble_Timestamp_ShortInterval, tumble_Timestamp_ShortInterval_Time, Date, LongInterval,
    ShortInterval, Time, Timestamp,
};

/// The decoding the Debezium MySQL JSON flavor uses: dates as days since
/// the epoch, times as microseconds, timestamps as ISO strings.
#[test]
fn debezium() {
    let v: serde_json::Value = serde_json::from_str(
        r#"{"date": 16816, "time": 10800000000, "timestamp": "2018-06-20T13:37:03Z"}"#,
    )
    .unwrap();
    let date = Date::new(v["date"].as_i64().unwrap() as i32);
    let time = time_from_micros(v["time"].as_u64().unwrap());
    let timestamp =
        timestamp_from_string(v["timestamp"].as_str().unwrap(), "%Y-%m-%dT%H:%M:%S%Z").unwrap();
    assert_eq!(
        (date, time, timestamp),
        (Date::new(16816), Time::new(10800000000000), Timestamp::new(1529501823000))
    );
}

/// The rendering the Snowflake JSON flavor uses.
#[test]
fn snowflake_json() {
    let date = Date::new(19628);
    let time = Time::new(84075123000000);
    let timestamp = Timestamp::new(1529501823000);
    let mut fields = serde_json::Map::new();
    fields.insert(
        String::from("DATE"),
        serde_json::Value::String(date_to_string(date, "%Y-%m-%d").unwrap()),
    );
    fields.insert(
        String::from("TIME"),
        serde_json::Value::String(time_to_string(time, "%H:%M:%S%.3f").unwrap()),
    );
    fields.insert(
        String::from("TIMESTAMP"),
        serde_json::Value::String(
            timestamp_to_string(timestamp, "%Y-%m-%dT%H:%M:%S%.f%:z").unwrap(),
        ),
    );
    assert_eq!(
        serde_json::to_string(&serde_json::Value::Object(fields)).unwrap(),
        r#"{"DATE":"2023-09-28","TIME":"23:21:15.123","TIMESTAMP":"2018-06-20T13:37:03+00:00"}"#
    );
}

/// The default JSON flavor: dates, times and timestamps as plain
/// formatted strings, both directions.
#[test]
fn default_json() {
    let v: serde_json::Value = serde_json::from_str(
        r#"{"date": "2023-09-28", "time": "23:21:15.123", "timestamp": "2018-06-20 13:37:03"}"#,
    )
    .unwrap();
    let date = date_from_string(v["date"].as_str().unwrap(), "%Y-%m-%d").unwrap();
    let time = time_from_string(v["time"].as_str().unwrap(), "%H:%M:%S%.f").unwrap();
    let timestamp = timestamp_from_string(v["timestamp"].as_str().unwrap(), "%F %T%.f").unwrap();
    assert_eq!(
        (date, time, timestamp),
        (Date::new(19628), Time::new(84075123000000), Timestamp::new(1529501823000))
    );

    let mut fields = serde_json::Map::new();
    fields.insert(
        String::from("DATE"),
        serde_json::Value::String(date_to_string(date, "%Y-%m-%d").unwrap()),
    );
    fields.insert(
        String::from("TIME"),
        serde_json::Value::String(time_to_string(time, "%H:%M:%S%.3f").unwrap()),
    );
    fields.insert(
        String::from("TIMESTAMP"),
        serde_json::Value::String(timestamp_to_string(timestamp, "%F %T").unwrap()),
    );
    assert_eq!(
        serde_json::to_string(&serde_json::Value::Object(fields)).unwrap(),
        r#"{"DATE":"2023-09-28","TIME":"23:21:15.123","TIMESTAMP":"2018-06-20 13:37:03"}"#
    );
}

#[test]
fn timestamp_extracts() {
    // 2018-06-20 13:37:03.250 UTC, a Wednesday.
    let t = Timestamp::new(1529501823250);
    assert_eq!(extract_year_Timestamp(t), 2018);
    assert_eq!(extract_month_Timestamp(t), 6);
    assert_eq!(extract_day_Timestamp(t), 20);
    assert_eq!(extract_quarter_Timestamp(t), 2);
    assert_eq!(extract_decade_Timestamp(t), 201);
    assert_eq!(extract_century_Timestamp(t), 21);
    assert_eq!(extract_millennium_Timestamp(t), 3);
    assert_eq!(extract_isoyear_Timestamp(t), 2018);
    assert_eq!(extract_week_Timestamp(t), 25);
    assert_eq!(extract_dow_Timestamp(t), 4);
    assert_eq!(extract_isodow_Timestamp(t), 3);
    assert_eq!(extract_doy_Timestamp(t), 171);
    assert_eq!(extract_epoch_Timestamp(t), 1529501823);
    assert_eq!(extract_millisecond_Timestamp(t), 3250);
    assert_eq!(extract_microsecond_Timestamp(t), 3250000);
    assert_eq!(extract_second_Timestamp(t), 3);
    assert_eq!(extract_minute_Timestamp(t), 37);
    assert_eq!(extract_hour_Timestamp(t), 13);
}

#[test]
fn timestamp_extracts_before_epoch() {
    // 1969-12-31 00:00:00 UTC, a Wednesday, on a whole second.
    let t = Timestamp::new(-86400000);
    assert_eq!(extract_year_Timestamp(t), 1969);
    assert_eq!(extract_month_Timestamp(t), 12);
    assert_eq!(extract_day_Timestamp(t), 31);
    assert_eq!(extract_dow_Timestamp(t), 4);
    assert_eq!(extract_hour_Timestamp(t), 0);
    assert_eq!(extract_epoch_Timestamp(t), -86400);
}

#[test]
fn timestamp_interval_arithmetic() {
    let t = Timestamp::new(1_000_000);
    let i = ShortInterval::new(500);
    assert_eq!(plus_Timestamp_ShortInterval(t, i).milliseconds(), 1_000_500);
    assert_eq!(
        minus_Timestamp_ShortInterval_Timestamp(t, i).milliseconds(),
        999_500
    );
    let u = Timestamp::new(250_000);
    assert_eq!(minus_Timestamp_Timestamp_ShortInterval(t, u).milliseconds(), 750_000);
}

#[test]
fn timestamp_month_difference() {
    let may_5 = timestamp_from_string("2021-05-05 10:00:00", "%F %T").unwrap();
    let feb_3 = timestamp_from_string("2021-02-03 10:00:00", "%F %T").unwrap();
    assert_eq!(minus_Timestamp_Timestamp_LongInterval(may_5, feb_3).months(), 3);
    // The month count is not symmetric: counted from the later moment,
    // the not yet completed month subtracts one more.
    assert_eq!(minus_Timestamp_Timestamp_LongInterval(feb_3, may_5).months(), -4);
    let feb_6 = timestamp_from_string("2021-02-06 10:00:00", "%F %T").unwrap();
    assert_eq!(minus_Timestamp_Timestamp_LongInterval(may_5, feb_6).months(), 2);
}

#[test]
fn floor_week_goes_to_sunday_midnight() {
    // 2018-06-20 (Wednesday) floors to Sunday 2018-06-17 00:00:00.
    let t = Timestamp::new(1529501823250);
    let floored = floor_week_Timestamp(t);
    assert_eq!(floored, timestamp_from_string("2018-06-17 00:00:00", "%F %T").unwrap());
}

#[test]
fn tumble_rounds_to_window_start() {
    let t = Timestamp::new(1_000_123_456);
    let w = ShortInterval::new(60_000);
    assert_eq!(tumble_Timestamp_ShortInterval(t, w).milliseconds(), 1_000_080_000);
    let off = Time::new(30_000_000_000);
    let shifted = tumble_Timestamp_ShortInterval_Time(t, w, off);
    assert_eq!(shifted.milliseconds(), 1_000_110_000);
}

#[test]
fn date_extracts() {
    // 2016-01-15 is day 16815 since the epoch, a Friday.
    let d = Date::new(16815);
    assert_eq!(extract_year_Date(d), 2016);
    assert_eq!(extract_month_Date(d), 1);
    assert_eq!(extract_day_Date(d), 15);
    assert_eq!(extract_dow_Date(d), 6);
    assert_eq!(extract_epoch_Date(d), 16815 * 86400);
    assert_eq!(extract_second_Date(d), 0);
    assert_eq!(extract_hour_Date(d), 0);
    assert_eq!(Date::first_day_of_week(), 1);
    assert_eq!(d.to_timestamp(), Timestamp::new(16815i64 as i64 * 86400000));
}

#[test]
fn date_differences() {
    let later = date_from_string("2021-05-05", "%Y-%m-%d").unwrap();
    let earlier = date_from_string("2021-02-06", "%Y-%m-%d").unwrap();
    assert_eq!(minus_Date_Date_LongInterval(later, earlier).months(), 2);
    assert_eq!(minus_Date_Date_LongInterval(earlier, later).months(), -2);
    assert_eq!(datediff_day_Date_Date(later, earlier), 88);
    assert_eq!(
        minus_Date_Date_ShortInterval(later, earlier).milliseconds(),
        88i64 * 86400000
    );
    assert_eq!(
        minus_DateN_Date_LongIntervaNl(Some(later), earlier),
        Some(LongInterval::new(88))
    );
    assert_eq!(minus_DateN_DateN_LongIntervalN(None, Some(earlier)), None);
    assert_eq!(
        minus_Date_DateN_ShortIntervalN(later, Some(earlier)),
        Some(ShortInterval::new(88i64 * 86400000))
    );
}

#[test]
fn date_format_render() {
    let d = Date::new(19628);
    assert_eq!(format_date__(String::from("%d/%m/%Y"), d), "28/09/2023");
}

#[test]
fn time_extracts() {
    let t = Time::new(84075123456789);
    assert_eq!(extract_hour_Time(t), 23);
    assert_eq!(extract_minute_Time(t), 21);
    assert_eq!(extract_second_Time(t), 15);
    assert_eq!(extract_millisecond_Time(t), 15123);
    assert_eq!(extract_microsecond_Time(t), 15123456);
    assert_eq!(time_to_micros(t), 84075123456);
}

#[test]
fn parse_rejects_malformed_input() {
    assert_eq!(timestamp_from_string("not a time", "%F %T"), None);
    assert_eq!(date_from_string("2023-13-40", "%Y-%m-%d"), None);
    assert_eq!(time_from_string("25:99", "%H:%M:%S"), None);
}
