use dukascopy_rs::{
    DataSupplier, DukascopyService, Error, InMemoryDataSupplier, Kind, Tick,
};

// 2020-03-12T00:00:00Z
const DAY_START: i64 = 1583971200;

fn encode_record(offset_ms: u32, ask: u32, bid: u32, ask_vol_bits: u32, bid_vol_bits: u32) -> Vec<u8> {
    let mut bytes = Vec::new();
    for field in [offset_ms, ask, bid, ask_vol_bits, bid_vol_bits] {
        bytes.extend_from_slice(&field.to_be_bytes());
    }
    bytes
}

fn compress(bytes: &[u8]) -> Vec<u8> {
    let mut compressed = Vec::new();
    lzma_rs::lzma_compress(&mut &bytes[..], &mut compressed).unwrap();
    compressed
}

fn sample_record() -> Vec<u8> {
    encode_record(0x000000DA, 0x0001B4C7, 0x0001B4C4, 0x3F8F5C29, 0x3F400000)
}

struct FailingHourSupplier {
    failing_url_part: String,
    payload: Vec<u8>,
}

impl DataSupplier for FailingHourSupplier {
    fn fetch(&self, url: &str) -> Result<Option<Vec<u8>>, Error> {
        if url.contains(self.failing_url_part.as_str()) {
            Err(Error::new(Kind::Network, String::from("connection reset")))
        } else {
            Ok(Some(self.payload.clone()))
        }
    }
}

fn assert_close(actual: f64, expected: f64, epsilon: f64) {
    assert!(
        (actual - expected).abs() <= epsilon,
        "expected {expected}, got {actual}"
    );
}

#[test]
fn parses_bi5_file_to_ticks() {
    let compressed = compress(&sample_record());
    let service = DukascopyService::new(
        String::from(""),
        InMemoryDataSupplier { data: Some(compressed) },
    );

    // 2020-03-12T01:00Z .. 2020-03-12T02:00Z
    let ticks = service.download_ticks(String::from("EURGBP"), DAY_START + 3600, DAY_START + 7200);

    assert_eq!(ticks.len(), 1);
    let tick: &Tick = ticks[0].as_ref().unwrap();
    assert_eq!(tick.time, DAY_START + 3600 + 218);
    assert_eq!(tick.ask_scaled as f64 / 100_000f64, 1.11815);
    assert_eq!(tick.bid_scaled as f64 / 100_000f64, 1.11812);
    assert_close(f32::from_bits(tick.ask_volume_bits) as f64, 1.12, 0.000_001);
    assert_eq!(f32::from_bits(tick.bid_volume_bits) as f64, 0.75);
}

#[test]
fn downloads_full_day_of_hourly_files() {
    let mut two_records = sample_record();
    two_records.extend_from_slice(&encode_record(2000, 0x0001B4C8, 0x0001B4C5, 0, 0));
    let compressed = compress(&two_records);
    let service = DukascopyService::new(
        String::from(""),
        InMemoryDataSupplier { data: Some(compressed) },
    );

    // A full day: 24 hourly files with two records each.
    let ticks = service.download_ticks(String::from("EURGBP"), DAY_START, DAY_START + 24 * 3600);

    assert_eq!(ticks.len(), 48);
    for (i, item) in ticks.iter().enumerate() {
        let tick = item.as_ref().unwrap();
        let hour_secs = DAY_START + (i as i64 / 2) * 3600;
        if i % 2 == 0 {
            assert_eq!(tick.time, hour_secs + 218);
        } else {
            assert_eq!(tick.time, hour_secs + 2000);
        }
    }
}

#[test]
fn enumerates_hours_in_range() {
    let service = DukascopyService::new(
        String::from(""),
        InMemoryDataSupplier { data: None },
    );

    // 2020-03-12T00:00Z .. 2020-03-12T03:00Z
    let hours = service.compute_tick_download_times(DAY_START, DAY_START + 3 * 3600);
    assert_eq!(hours, vec![DAY_START, DAY_START + 3600, DAY_START + 7200]);

    let empty = service.compute_tick_download_times(DAY_START, DAY_START);
    assert!(empty.is_empty());
}

#[test]
fn misaligned_times_are_not_hour_aligned() {
    // A start at 00:15 is rejected before any fetch: the pipeline only
    // accepts hour-aligned bounds, which this check guards.
    assert!(!dukascopy_rs::is_hour_aligned(DAY_START + 15 * 60));
    assert!(!dukascopy_rs::is_hour_aligned(DAY_START + 1));
    assert!(dukascopy_rs::is_hour_aligned(DAY_START));
    assert!(dukascopy_rs::is_hour_aligned(DAY_START + 3600));
}

#[test]
fn absent_data_decompresses_to_empty_buffer() {
    let service = DukascopyService::new(
        String::from(""),
        InMemoryDataSupplier { data: None },
    );

    let buffer = service.decompress_data(None).unwrap();
    assert!(buffer.is_empty());

    let ticks = service.buffer_to_ticks(DAY_START, buffer);
    assert!(ticks.is_empty());

    // A whole request over absent data yields zero items and no error.
    let items = service.download_ticks(String::from("EURGBP"), DAY_START, DAY_START + 7200);
    assert!(items.is_empty());
}

#[test]
fn failed_hour_does_not_stop_later_hours() {
    let service = DukascopyService::new(
        String::from("base"),
        FailingHourSupplier {
            failing_url_part: String::from("/01h_ticks.bi5"),
            payload: compress(&sample_record()),
        },
    );

    // Three hours; the middle one fails with a network error.
    let items = service.download_ticks(String::from("EURGBP"), DAY_START, DAY_START + 3 * 3600);

    assert_eq!(items.len(), 3);
    assert!(items[0].is_ok());
    let err = items[1].as_ref().unwrap_err();
    assert!(matches!(err.kind, Kind::Network));
    assert_eq!(err.inner, "connection reset");
    let last = items[2].as_ref().unwrap();
    assert_eq!(last.time, DAY_START + 2 * 3600 + 218);
}

#[test]
fn corrupt_payload_yields_decode_error() {
    let service = DukascopyService::new(
        String::from(""),
        InMemoryDataSupplier { data: Some(vec![0xFF, 0xFF, 0xFF, 0xFF, 0xFF]) },
    );

    let items = service.download_ticks(String::from("EURGBP"), DAY_START, DAY_START + 3600);

    assert_eq!(items.len(), 1);
    let err = items[0].as_ref().unwrap_err();
    assert!(matches!(err.kind, Kind::Decode));
}

#[test]
fn builds_vendor_url_with_zero_indexed_month() {
    let service = DukascopyService::new(
        String::from("https://datafeed.dukascopy.com/datafeed"),
        InMemoryDataSupplier { data: None },
    );

    // 2020-03-12T13:00Z; the vendor counts January as month 00, so March is 02.
    let url = service.generate_tick_download_url(DAY_START + 13 * 3600, "EURGBP");
    assert_eq!(
        url,
        "https://datafeed.dukascopy.com/datafeed/EURGBP/2020/02/12/13h_ticks.bi5"
    );

    // 2021-01-01T00:00Z: month rolls to 00, new year.
    let url = service.generate_tick_download_url(1609459200, "USDJPY");
    assert_eq!(
        url,
        "https://datafeed.dukascopy.com/datafeed/USDJPY/2021/00/01/00h_ticks.bi5"
    );

    // 2020-02-29T23:00Z: a leap day decodes correctly.
    let url = service.generate_tick_download_url(1582934400 + 23 * 3600, "EURGBP");
    assert_eq!(
        url,
        "https://datafeed.dukascopy.com/datafeed/EURGBP/2020/01/29/23h_ticks.bi5"
    );

    // The very first supported hour: 1970-01-01T00:00Z.
    let url = service.generate_tick_download_url(0, "EURGBP");
    assert_eq!(
        url,
        "https://datafeed.dukascopy.com/datafeed/EURGBP/1970/00/01/00h_ticks.bi5"
    );

    // The very last supported hour: 9999-12-31T23:00Z.
    let url = service.generate_tick_download_url(dukascopy_rs::MAX_TIMESTAMP - 3600, "EURGBP");
    assert_eq!(
        url,
        "https://datafeed.dukascopy.com/datafeed/EURGBP/9999/11/31/23h_ticks.bi5"
    );
}

struct RecordingSupplier {
    log: std::cell::RefCell<Vec<String>>,
    payload: Vec<u8>,
}

impl DataSupplier for RecordingSupplier {
    fn fetch(&self, url: &str) -> Result<Option<Vec<u8>>, Error> {
        self.log.borrow_mut().push(String::from(url));
        Ok(Some(self.payload.clone()))
    }
}

#[test]
fn stream_fetches_one_hour_per_pull() {
    let service = DukascopyService::new(
        String::from("base"),
        RecordingSupplier {
            log: std::cell::RefCell::new(Vec::new()),
            payload: compress(&sample_record()),
        },
    );

    // Starting a download fetches nothing.
    let mut stream = service.start_download(String::from("EURGBP"), DAY_START, DAY_START + 3 * 3600);
    assert!(service.data_supplier.log.borrow().is_empty());
    assert!(!stream.is_done());

    // Each pull fetches exactly the next hour.
    let first = service.next_hour(&mut stream).unwrap();
    assert_eq!(service.data_supplier.log.borrow().len(), 1);
    assert_eq!(first.len(), 1);
    assert_eq!(first[0].as_ref().unwrap().time, DAY_START + 218);

    let second = service.next_hour(&mut stream).unwrap();
    assert_eq!(service.data_supplier.log.borrow().len(), 2);
    assert_eq!(second[0].as_ref().unwrap().time, DAY_START + 3600 + 218);
    assert_eq!(
        service.data_supplier.log.borrow()[1],
        "base/EURGBP/2020/02/12/01h_ticks.bi5"
    );

    // Abandoning the stream here fetches nothing more; draining it ends it.
    let third = service.next_hour(&mut stream).unwrap();
    assert_eq!(third.len(), 1);
    assert!(stream.is_done());
    assert!(service.next_hour(&mut stream).is_none());
    assert_eq!(service.data_supplier.log.borrow().len(), 3);
}

#[test]
fn drops_trailing_partial_record() {
    let mut bytes = sample_record();
    bytes.extend_from_slice(&[0x01, 0x02, 0x03]);
    let service = DukascopyService::new(
        String::from(""),
        InMemoryDataSupplier { data: None },
    );

    let ticks = service.buffer_to_ticks(DAY_START, bytes);
    assert_eq!(ticks.len(), 1);
    assert_eq!(ticks[0].time, DAY_START + 218);
}

#[test]
fn decodes_single_record_fields() {
    let bytes = sample_record();
    let tick = dukascopy_rs::decode_record(DAY_START, &bytes, 0);
    assert_eq!(tick.time, DAY_START + 218);
    assert_eq!(tick.ask_scaled, 0x0001B4C7);
    assert_eq!(tick.bid_scaled, 0x0001B4C4);
    assert_eq!(tick.ask_volume_bits, 0x3F8F5C29);
    assert_eq!(tick.bid_volume_bits, 0x3F400000);
}
