mod calendar;
mod error;
mod lzma;
mod parse;
mod service;
mod strfmt;
mod supplier;
mod tick;

pub use calendar::{
    civil_from_timestamp, civil_valid, days_before_month, days_before_year, days_in_month,
    days_in_year, hour_aligned, is_hour_aligned, is_leap_year, lemma_timestamp_of_injective,
    timestamp_of,
};
pub use error::{Error, Kind};
pub use lzma::lzma_of;
pub use parse::{
    be_bytes_of, be_u32, decode_record, lemma_empty_buffer_yields_no_ticks,
    lemma_parse_recovers_record, record_bytes_of, tick_of, ticks_of, MAX_TIMESTAMP,
};
pub use service::{
    download_hours, download_output_ok, fetch_view, hour_count, hour_outcome, is_url_for,
    lemma_failed_hour_is_isolated, ok_results, some_fetch_explains, url_for_civil,
    DukascopyService, TickStream,
};
pub use strfmt::{dec_rep, digit_char, push_decimal, push_two_digits, two_digit_rep};
pub use supplier::{DataSupplier, InMemoryDataSupplier, ReqwestDataSupplier};
pub use tick::Tick;
