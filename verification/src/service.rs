use vstd::prelude::*;

use vstd::arithmetic::div_mod::{
    lemma_div_by_multiple, lemma_fundamental_div_mod, lemma_mod_multiples_basic,
};
use vstd::seq_lib::lemma_flatten_concat;

use crate::calendar::{civil_valid, hour_aligned, timestamp_of};
use crate::error::{Error, Kind};
use crate::lzma::{lzma_decompress_bytes, lzma_of};
use crate::parse::{decode_record, ticks_of, MAX_TIMESTAMP};
use crate::strfmt::{dec_rep, push_decimal, push_two_digits, two_digit_rep};
use crate::supplier::DataSupplier;
use crate::tick::Tick;

verus! {

/// Number of hour buckets in the half-open range `[start, end)`.
pub open spec fn hour_count(start: int, end: int) -> int {
    if start < end {
        (end - start) / 3600
    } else {
        0
    }
}

/// The ordered hour buckets to fetch for the half-open range `[start, end)`.
pub open spec fn download_hours(start: int, end: int) -> Seq<i64>
    recommends
        hour_aligned(start),
        hour_aligned(end),
{
    Seq::new(hour_count(start, end) as nat, |i: int| (start + 3600 * i) as i64)
}

/// The vendor path for `instr` and the hour `h` of the civil date `y-m-d`:
/// `{base}/{instr}/{year}/{month - 1:02}/{day:02}/{hour:02}h_ticks.bi5`.
/// The month is emitted zero-indexed — the vendor counts January as 00.
pub open spec fn url_for_civil(
    base: Seq<char>,
    instr: Seq<char>,
    y: int,
    m: int,
    d: int,
    h: int,
) -> Seq<char> {
    base + "/"@ + instr + "/"@ + dec_rep(y) + "/"@ + two_digit_rep(m - 1) + "/"@ + two_digit_rep(d)
        + "/"@ + two_digit_rep(h) + "h_ticks.bi5"@
}

/// Whether `url` is the vendor path for the instrument and the hour bucket
/// at `ts` seconds since the Unix epoch.
pub open spec fn is_url_for(base: Seq<char>, instr: Seq<char>, ts: int, url: Seq<char>) -> bool {
    exists|y: int, m: int, d: int, h: int|
        #![trigger url_for_civil(base, instr, y, m, d, h)]
        civil_valid(y, m, d, h) && timestamp_of(y, m, d, h) == ts && url == url_for_civil(
            base,
            instr,
            y,
            m,
            d,
            h,
        )
}

/// The fetched payload as mathematical values.
pub open spec fn fetch_view(f: Result<Option<Vec<u8>>, Error>) -> Result<Option<Seq<u8>>, Error> {
    match f {
        Result::Ok(opt) => match opt {
            Option::Some(bytes) => Result::Ok(Option::Some(bytes@)),
            Option::None => Result::Ok(Option::None),
        },
        Result::Err(e) => Result::Err(e),
    }
}

/// Each tick wrapped as a successful output item, in order.
pub open spec fn ok_results(ticks: Seq<Tick>) -> Seq<Result<Tick, Error>> {
    Seq::new(ticks.len(), |i: int| Result::Ok(ticks[i]))
}

/// What one hour contributes to the output sequence, given what its fetch
/// returned: a fetch error is passed through as the hour's single item; no
/// data decodes to no items; present bytes decode to their ticks in record
/// order, or to a single `Decode` error when the stream is invalid.
pub open spec fn hour_outcome(
    hour_secs: int,
    fetched: Result<Option<Seq<u8>>, Error>,
    out: Seq<Result<Tick, Error>>,
) -> bool {
    match fetched {
        Result::Err(e) => out == seq![Result::<Tick, Error>::Err(e)],
        Result::Ok(opt) => match opt {
            Option::None => out == Seq::<Result<Tick, Error>>::empty(),
            Option::Some(bytes) => match lzma_of(bytes) {
                Option::Some(raw) => out == ok_results(ticks_of(hour_secs, raw)),
                Option::None => out.len() == 1 && (out[0] matches Result::Err(e) && e.kind
                    == Kind::Decode),
            },
        },
    }
}

/// Whether some per-hour fetch result explains `items` exactly, as
/// [`hour_outcome`] states.
pub open spec fn some_fetch_explains(hour_secs: int, items: Seq<Result<Tick, Error>>) -> bool {
    exists|fetched: Result<Option<Seq<u8>>, Error>| hour_outcome(hour_secs, fetched, items)
}

/// Whether `out` is a possible output of the whole pipeline over `hours`:
/// some sequence of per-hour fetch results explains it, hour by hour, in
/// order, each hour contributing exactly its own items.
pub open spec fn download_output_ok(
    hours: Seq<i64>,
    fetched: Seq<Result<Option<Seq<u8>>, Error>>,
    outs: Seq<Seq<Result<Tick, Error>>>,
    out: Seq<Result<Tick, Error>>,
) -> bool {
    &&& fetched.len() == hours.len()
    &&& outs.len() == hours.len()
    &&& forall|i: int|
        0 <= i < hours.len() ==> hour_outcome(hours[i] as int, #[trigger] fetched[i], outs[i])
    &&& out == outs.flatten()
}

/// Law: an hour whose fetch fails contributes exactly one error item
/// carrying that failure, and the hours before and after it contribute
/// their own items around it, unchanged — a failed hour never silences the
/// hours that follow.
pub proof fn lemma_failed_hour_is_isolated(
    hours: Seq<i64>,
    fetched: Seq<Result<Option<Seq<u8>>, Error>>,
    outs: Seq<Seq<Result<Tick, Error>>>,
    out: Seq<Result<Tick, Error>>,
    i: int,
)
    requires
        download_output_ok(hours, fetched, outs, out),
        0 <= i < hours.len(),
        fetched[i] is Err,
    ensures
        outs[i] == seq![Result::<Tick, Error>::Err(fetched[i]->Err_0)],
        out == outs.subrange(0, i).flatten() + outs[i] + outs.subrange(
            i + 1,
            outs.len() as int,
        ).flatten(),
{
    let pre = outs.subrange(0, i);
    let mid = seq![outs[i]];
    let post = outs.subrange(i + 1, outs.len() as int);
    assert(outs =~= pre + mid + post);
    lemma_flatten_concat(pre + mid, post);
    lemma_flatten_concat(pre, mid);
    mid.lemma_flatten_one_element();
    assert(out =~= pre.flatten() + outs[i] + post.flatten());
}

/// Turns requests for an instrument and an hour-aligned time range into the
/// decoded ticks of each vendor file in that range, one hour at a time,
/// through the given [`DataSupplier`].
pub struct DukascopyService<S: DataSupplier> {
    pub base_url: String,
    pub data_supplier: S,
}

/// One download request part-way through its hours: the hours from `next`
/// on are still unfetched. Each advance performs exactly one hour's
/// fetch-decompress-parse cycle, so a consumer that stops pulling causes no
/// further fetches.
pub struct TickStream {
    pub instrument: String,
    pub hours: Vec<i64>,
    pub next: usize,
}

impl TickStream {
    /// Every hour is a valid hour bucket and the cursor lies within bounds.
    pub open spec fn wf(self) -> bool {
        &&& self.next <= self.hours@.len()
        &&& forall|j: int|
            0 <= j < self.hours@.len() ==> 0 <= #[trigger] self.hours@[j] <= MAX_TIMESTAMP
                && hour_aligned(self.hours@[j] as int)
    }

    /// Whether all hours have been fetched.
    pub fn is_done(&self) -> (r: bool)
        ensures
            r == (self.next >= self.hours@.len()),
    {
        self.next >= self.hours.len()
    }
}

impl<S: DataSupplier> DukascopyService<S> {
    pub fn new(base_url: String, data_supplier: S) -> (s: DukascopyService<S>)
        ensures
            s.base_url == base_url,
            s.data_supplier == data_supplier,
    {
        DukascopyService { base_url, data_supplier }
    }

    /// The ordered hour buckets to fetch: `start`, `start + 1h`, ... up to
    /// but excluding `end`; empty when `end <= start`.
    pub fn compute_tick_download_times(&self, start: i64, end: i64) -> (hours: Vec<i64>)
        requires
            0 <= start <= MAX_TIMESTAMP,
            0 <= end <= MAX_TIMESTAMP,
            hour_aligned(start as int),
            hour_aligned(end as int),
        ensures
            hours@ == download_hours(start as int, end as int),
    {
        let mut hours: Vec<i64> = Vec::new();
        let mut cur: i64 = start;
        let ghost mut k: int = 0;
        while cur < end
            invariant
                0 <= start <= MAX_TIMESTAMP,
                0 <= end <= MAX_TIMESTAMP,
                hour_aligned(start as int),
                hour_aligned(end as int),
                0 <= k,
                cur == start + 3600 * k,
                cur <= end || cur == start,
                hours@.len() == k,
                forall|j: int| 0 <= j < k ==> hours@[j] == (start + 3600 * j) as i64,
            decreases end - cur,
        {
            proof {
                lemma_fundamental_div_mod(start as int, 3600);
                lemma_fundamental_div_mod(end as int, 3600);
                let s = start as int / 3600;
                let e = end as int / 3600;
                assert(end - cur == 3600 * (e - s - k));
                assert(end - cur >= 3600);
            }
            hours.push(cur);
            cur = cur + 3600;
            proof {
                k = k + 1;
            }
        }
        proof {
            assert(cur == end || k == 0);
            if start < end {
                assert(3600 * k == end - start);
                lemma_div_by_multiple(k, 3600);
                assert((k * 3600) / 3600 == k);
                assert(hour_count(start as int, end as int) == k);
            }
            assert(hours@ =~= download_hours(start as int, end as int));
        }
        hours
    }

    /// The vendor URL of the hour bucket at `time` for `instrument`, under
    /// this service's base URL.
    pub fn generate_tick_download_url(&self, time: i64, instrument: &str) -> (url: String)
        requires
            0 <= time,
            hour_aligned(time as int),
        ensures
            is_url_for(self.base_url@, instrument@, time as int, url@),
    {
        let (y, m, d, h) = crate::calendar::civil_from_timestamp(time);
        let mut url = self.base_url.clone();
        url.push_str("/");
        url.push_str(instrument);
        url.push_str("/");
        push_decimal(&mut url, y);
        url.push_str("/");
        push_two_digits(&mut url, m - 1);
        url.push_str("/");
        push_two_digits(&mut url, d);
        url.push_str("/");
        push_two_digits(&mut url, h);
        url.push_str("h_ticks.bi5");
        proof {
            assert(url@ == url_for_civil(
                self.base_url@,
                instrument@,
                y as int,
                m as int,
                d as int,
                h as int,
            ));
        }
        url
    }

    /// Decodes a fetched payload into a raw record buffer: absent data is an
    /// empty buffer (zero ticks, not an error); present bytes either
    /// decompress or fail with a `Decode` error carrying the decoder's cause.
    pub fn decompress_data(&self, bytes: Option<Vec<u8>>) -> (r: Result<Vec<u8>, Error>)
        ensures
            match bytes {
                Option::None => r matches Ok(buf) && buf@ == Seq::<u8>::empty(),
                Option::Some(b) => match lzma_of(b@) {
                    Option::Some(raw) => r matches Ok(buf) && buf@ == raw,
                    Option::None => r matches Err(e) && e.kind == Kind::Decode,
                },
            },
    {
        match bytes {
            Option::None => Ok(Vec::new()),
            Option::Some(b) => match lzma_decompress_bytes(&b) {
                Ok(buf) => Ok(buf),
                Err(msg) => Err(Error::new(Kind::Decode, msg)),
            },
        }
    }

    /// Splits a raw buffer into consecutive 20-byte records and decodes each
    /// into a tick; a trailing partial record is dropped.
    pub fn buffer_to_ticks(&self, hour_secs: i64, bytes: Vec<u8>) -> (ticks: Vec<Tick>)
        requires
            0 <= hour_secs <= MAX_TIMESTAMP,
        ensures
            ticks@ == ticks_of(hour_secs as int, bytes@),
    {
        let blen: usize = bytes.len();
        let n: usize = blen / 20;
        proof {
            lemma_fundamental_div_mod(blen as int, 20);
        }
        let mut ticks: Vec<Tick> = Vec::new();
        let mut i: usize = 0;
        while i < n
            invariant
                0 <= hour_secs <= MAX_TIMESTAMP,
                blen == bytes@.len(),
                n == bytes@.len() / 20,
                20 * (n as int) <= blen,
                i <= n,
                ticks@.len() == i,
                forall|j: int|
                    0 <= j < i ==> ticks@[j] == ticks_of(hour_secs as int, bytes@)[j],
            decreases n - i,
        {
            let t = decode_record(hour_secs, bytes.as_slice(), 20 * i);
            ticks.push(t);
            i = i + 1;
        }
        proof {
            assert(ticks@ =~= ticks_of(hour_secs as int, bytes@));
        }
        ticks
    }

    /// Runs the decode half of one hour's cycle on whatever the fetch
    /// returned: decompress, then parse. A fetch error stands as the hour's
    /// single output item; decode failure yields a single `Decode` error;
    /// otherwise every record of the hour becomes an `Ok` tick, in order.
    pub fn process_hour(&self, hour_secs: i64, fetched: Result<Option<Vec<u8>>, Error>) -> (out:
        Vec<Result<Tick, Error>>)
        requires
            0 <= hour_secs <= MAX_TIMESTAMP,
        ensures
            hour_outcome(hour_secs as int, fetch_view(fetched), out@),
    {
        let ghost fv = fetch_view(fetched);
        match fetched {
            Result::Err(e) => {
                let mut out: Vec<Result<Tick, Error>> = Vec::new();
                out.push(Err(e));
                proof {
                    let ee = fv->Err_0;
                    assert(out@ =~= seq![Result::<Tick, Error>::Err(ee)]);
                }
                out
            },
            Result::Ok(opt) => {
                match self.decompress_data(opt) {
                    Ok(buf) => {
                        let ticks = self.buffer_to_ticks(hour_secs, buf);
                        let mut out: Vec<Result<Tick, Error>> = Vec::new();
                        let mut i: usize = 0;
                        while i < ticks.len()
                            invariant
                                i <= ticks@.len(),
                                out@.len() == i,
                                forall|j: int|
                                    0 <= j < i ==> out@[j] == Result::<Tick, Error>::Ok(
                                        ticks@[j],
                                    ),
                            decreases ticks@.len() - i,
                        {
                            let t = ticks[i];
                            out.push(Ok(t));
                            i = i + 1;
                        }
                        proof {
                            assert(out@ =~= ok_results(ticks@));
                            if fv matches Result::Ok(o) && o is None {
                                assert(out@ =~= Seq::<Result<Tick, Error>>::empty());
                            }
                        }
                        out
                    },
                    Err(e) => {
                        let mut out: Vec<Result<Tick, Error>> = Vec::new();
                        out.push(Err(e));
                        out
                    },
                }
            },
        }
    }

    /// Begins a download of the half-open, hour-aligned range `[start, end)`
    /// for `instrument`: enumerates the hours to fetch and nothing more — no
    /// network activity happens until the stream is advanced.
    pub fn start_download(&self, instrument: String, start: i64, end: i64) -> (stream: TickStream)
        requires
            0 <= start <= MAX_TIMESTAMP,
            0 <= end <= MAX_TIMESTAMP,
            hour_aligned(start as int),
            hour_aligned(end as int),
        ensures
            stream.wf(),
            stream.hours@ == download_hours(start as int, end as int),
            stream.next == 0,
            stream.instrument == instrument,
    {
        let hours = self.compute_tick_download_times(start, end);
        proof {
            assert forall|j: int| 0 <= j < hours@.len() implies 0 <= #[trigger] hours@[j]
                <= MAX_TIMESTAMP && hour_aligned(hours@[j] as int) by {
                lemma_fundamental_div_mod((end - start) as int, 3600);
                lemma_fundamental_div_mod(start as int, 3600);
                let s = start as int / 3600;
                assert(start as int + 3600 * j == 3600 * (s + j));
                lemma_mod_multiples_basic(s + j, 3600);
            }
        }
        TickStream { instrument, hours, next: 0 }
    }

    /// Advances the stream by exactly one hour's fetch-decompress-parse
    /// cycle: fetches the next hour's file, decodes it, and hands back that
    /// hour's items; `None` once no hours remain. Some per-hour fetch result
    /// explains the items exactly, as [`hour_outcome`] states.
    pub fn next_hour(&self, stream: &mut TickStream) -> (out: Option<Vec<Result<Tick, Error>>>)
        requires
            old(stream).wf(),
        ensures
            final(stream).wf(),
            final(stream).instrument == old(stream).instrument,
            final(stream).hours == old(stream).hours,
            old(stream).next >= old(stream).hours@.len() ==> out is None && final(stream).next
                == old(stream).next,
            old(stream).next < old(stream).hours@.len() ==> {
                &&& final(stream).next == old(stream).next + 1
                &&& out matches Some(items) && some_fetch_explains(
                    old(stream).hours@[old(stream).next as int] as int,
                    items@,
                )
            },
    {
        if stream.next >= stream.hours.len() {
            return None;
        }
        let hour = stream.hours[stream.next];
        let url = self.generate_tick_download_url(hour, stream.instrument.as_str());
        let fetched = self.data_supplier.fetch(url.as_str());
        let ghost fv = fetch_view(fetched);
        let items = self.process_hour(hour, fetched);
        stream.next = stream.next + 1;
        proof {
            assert(hour == old(stream).hours@[old(stream).next as int]);
            assert(some_fetch_explains(hour as int, items@)) by {
                assert(hour_outcome(hour as int, fv, items@));
            }
        }
        Some(items)
    }

    /// Fetches, decompresses and parses every hour file of the half-open,
    /// hour-aligned range `[start, end)` for `instrument`, in hour order.
    /// Each hour contributes its decoded ticks in record order, or one error
    /// item in their place; a failed hour never stops the hours after it.
    pub fn download_ticks(&self, instrument: String, start: i64, end: i64) -> (out: Vec<
        Result<Tick, Error>,
    >)
        requires
            0 <= start <= MAX_TIMESTAMP,
            0 <= end <= MAX_TIMESTAMP,
            hour_aligned(start as int),
            hour_aligned(end as int),
        ensures
            exists|
                fetched: Seq<Result<Option<Seq<u8>>, Error>>,
                outs: Seq<Seq<Result<Tick, Error>>>,
            |
                download_output_ok(
                    download_hours(start as int, end as int),
                    fetched,
                    outs,
                    out@,
                ),
    {
        let mut stream = self.start_download(instrument, start, end);
        let mut out: Vec<Result<Tick, Error>> = Vec::new();
        let ghost mut fetched_g: Seq<Result<Option<Seq<u8>>, Error>> = Seq::empty();
        let ghost mut outs_g: Seq<Seq<Result<Tick, Error>>> = Seq::empty();
        while !stream.is_done()
            invariant
                stream.wf(),
                stream.hours@ == download_hours(start as int, end as int),
                fetched_g.len() == stream.next,
                outs_g.len() == stream.next,
                forall|j: int|
                    0 <= j < stream.next ==> hour_outcome(
                        stream.hours@[j] as int,
                        #[trigger] fetched_g[j],
                        outs_g[j],
                    ),
                out@ == outs_g.flatten(),
            decreases stream.hours@.len() - stream.next,
        {
            let ghost prev = stream.next as int;
            match self.next_hour(&mut stream) {
                Option::Some(mut items) => {
                    proof {
                        let fv = choose|fetched: Result<Option<Seq<u8>>, Error>|
                            hour_outcome(stream.hours@[prev] as int, fetched, items@);
                        fetched_g = fetched_g.push(fv);
                        outs_g.lemma_flatten_push(items@);
                        outs_g = outs_g.push(items@);
                    }
                    out.append(&mut items);
                },
                Option::None => {
                    return vstd::pervasive::unreached();
                },
            }
        }
        proof {
            assert(download_output_ok(
                download_hours(start as int, end as int),
                fetched_g,
                outs_g,
                out@,
            ));
        }
        out
    }
}

} // verus!
