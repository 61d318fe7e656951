use daly_bms::api::chart::{aggregation_window, chart_available, chart_queries, flux_query, query_url, token_header, HistoryParams as ChartParams};
use daly_bms::api::et112::HistoryParams as MeterParams;
use daly_bms::api::influx_csv::{influx_csv_rows, influx_time_label};
use daly_bms::api::{check_write, password_matches, settings_retry_pause_ms, write_reply, LogsQuery, ResetCommand, WriteRefusal, WriteReply};
use daly_bms::error::DalyError;
use daly_bms::store::{LogEntry, RingBuffer, LOG_CAPACITY};

#[test]
fn write_password() {
    assert!(password_matches("12345678"));
    assert!(!password_matches("1234567"));
    assert!(!password_matches(""));
}

#[test]
fn write_checks_in_order() {
    assert_eq!(check_write("12345678", false, "0x28"), Ok(0x28));
    assert_eq!(check_write("12345678", false, " 2 "), Ok(2));
    assert_eq!(check_write("bad", true, "zz"), Err(WriteRefusal::WrongPassword));
    assert_eq!(check_write("12345678", true, "zz"), Err(WriteRefusal::ReadOnly));
    assert_eq!(check_write("12345678", false, "zz"), Err(WriteRefusal::BadAddress));
    assert_eq!(check_write("12345678", false, "256"), Err(WriteRefusal::BadAddress));
}

#[test]
fn reset_needs_confirmation_first() {
    let unconfirmed = ResetCommand { confirm: false, password: "bad".to_string() };
    assert_eq!(unconfirmed.check(true, "x"), Err(WriteRefusal::ConfirmRequired));
    let confirmed = ResetCommand { confirm: true, password: "12345678".to_string() };
    assert_eq!(confirmed.check(false, "1"), Ok(1));
    assert_eq!(confirmed.check(true, "1"), Err(WriteRefusal::ReadOnly));
}

#[test]
fn write_replies() {
    assert!(matches!(write_reply(Ok(())), WriteReply::Done));
    assert!(matches!(write_reply(Err(DalyError::Timeout { bms_id: 1, cmd: 0x21 })), WriteReply::Unacknowledged));
    assert!(matches!(write_reply(Err(DalyError::ReadOnly)), WriteReply::Failed(DalyError::ReadOnly)));
}

#[test]
fn settings_read_pauses() {
    assert_eq!(settings_retry_pause_ms(0), Some(300));
    assert_eq!(settings_retry_pause_ms(1), Some(300));
    assert_eq!(settings_retry_pause_ms(2), None);
}

#[test]
fn query_limits() {
    assert_eq!(LogsQuery { limit: None }.effective_limit(), 100);
    assert_eq!(LogsQuery { limit: Some(50) }.effective_limit(), 50);
    assert_eq!(LogsQuery { limit: Some(500) }.effective_limit(), 200);
    assert_eq!(MeterParams { limit: None }.effective_limit(), 360);
    assert_eq!(MeterParams { limit: Some(5000) }.effective_limit(), 1440);
    assert_eq!(ChartParams { minutes: None }.effective_minutes(), 60);
    assert_eq!(ChartParams { minutes: Some(0) }.effective_minutes(), 1);
    assert_eq!(ChartParams { minutes: Some(1000) }.effective_minutes(), 720);
    assert_eq!(ChartParams { minutes: Some(90) }.effective_minutes(), 90);
}

fn entry(i: usize) -> LogEntry {
    LogEntry { timestamp: format!("t{}", i), level: "INFO".to_string(), message: format!("m{}", i) }
}

#[test]
fn logs_most_recent_first() {
    let mut buf = RingBuffer::new(LOG_CAPACITY);
    for i in 0..250 {
        buf.push(entry(i));
    }
    assert_eq!(buf.len(), 200);
    let shown = LogsQuery { limit: Some(3) }.select(&buf);
    let msgs: Vec<&str> = shown.iter().map(|e| e.message.as_str()).collect();
    assert_eq!(msgs, vec!["m249", "m248", "m247"]);
    assert_eq!(LogsQuery { limit: None }.select(&buf).len(), 100);
}

#[test]
fn chart_windows_and_queries() {
    assert_eq!(aggregation_window(60), "1m");
    assert_eq!(aggregation_window(61), "5m");
    assert_eq!(aggregation_window(360), "5m");
    assert_eq!(aggregation_window(361), "10m");
    assert!(chart_available(true, "tok"));
    assert!(!chart_available(true, ""));
    assert!(!chart_available(false, "tok"));
    assert_eq!(
        flux_query("daly_bms", 60, "bms_status", "soc", "1m"),
        "from(bucket: \"daly_bms\") |> range(start: -60m) |> filter(fn: (r) => r._measurement == \"bms_status\" and r._field == \"soc\") |> aggregateWindow(every: 1m, fn: mean, createEmpty: false)"
    );
    let (solar, soc, load) = chart_queries("b", 400);
    assert!(solar.contains("\"solar_power\"") && solar.contains("\"solar_total\"") && solar.contains("every: 10m"));
    assert!(soc.contains("\"soc\"") && soc.contains("-400m"));
    assert!(load.contains("\"et112_status\"") && load.contains("\"power_w\""));
    assert_eq!(query_url("http://localhost:8086", "santuario"), "http://localhost:8086/api/v2/query?org=santuario");
    assert_eq!(token_header("abc"), "Token abc");
}

fn row(t: &str, v: &str) -> (String, String) {
    (t.to_string(), v.to_string())
}

#[test]
fn influx_csv_rows_of_one_table() {
    let csv = ",result,table,_start,_stop,_time,_value,_field,_measurement\r\n\
               ,_result,0,2024-05-01T09:00:00Z,2024-05-01T10:00:00Z,2024-05-01T09:15:00Z,42.5,soc,bms_status\r\n\
               ,_result,0,2024-05-01T09:00:00Z,2024-05-01T10:00:00Z,2024-05-01T09:16:00Z,43,soc,bms_status\r\n\r\n";
    assert_eq!(
        influx_csv_rows(csv),
        vec![row("2024-05-01T09:15:00Z", "42.5"), row("2024-05-01T09:16:00Z", "43")]
    );
}

#[test]
fn influx_csv_tables_and_annotations() {
    // A blank line ends a table; the next header names the columns again.
    let csv = "#group,false\n_time,x,_value\na,1,2\n\nz,_value,_time\n5,6,7\n";
    assert_eq!(influx_csv_rows(csv), vec![row("a", "2"), row("7", "6")]);
    // Data lines before any header, or after an annotation, are not rows.
    assert_eq!(influx_csv_rows("#datatype,string\n1,2\n"), Vec::<(String, String)>::new());
    // A header without the value column gives no rows.
    assert_eq!(influx_csv_rows("_time,a\nt,1\n"), Vec::<(String, String)>::new());
    // A short data line is skipped; a final line without a line break counts.
    assert_eq!(influx_csv_rows("_value,b,_time\nx\nv,w,t"), vec![row("t", "v")]);
    // The last column of a name wins; trailing carriage returns are removed.
    assert_eq!(influx_csv_rows("_time,_time,_value\r\r\n1,2,3\r\n"), vec![row("2", "3")]);
    assert_eq!(influx_csv_rows(""), Vec::<(String, String)>::new());
}

#[test]
fn influx_time_labels() {
    assert_eq!(influx_time_label("2024-05-01T09:15:00Z"), "09:15");
    assert_eq!(influx_time_label("2024-05-01T09:15:0"), "09:15");
    assert_eq!(influx_time_label("09:15"), "09:15");
    assert_eq!(influx_time_label(""), "");
}
