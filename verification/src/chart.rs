use vstd::prelude::*;
use vstd::string::*;
use crate::text::push_char;

verus! {

/// The time scale and tick interval of a chart, in minutes: a day and a
/// quarter of an hour when given as 0.
pub fn chart_scales(timescale: u32, timeinterval: u32) -> (r: (u32, u32))
    ensures
        r.0 == (if timescale == 0 { 1440 } else { timescale }),
        r.1 == (if timeinterval == 0 { 15 } else { timeinterval }),
{
    (if timescale == 0 { 1440 } else { timescale }, if timeinterval == 0 { 15 } else { timeinterval })
}

/// The width of the chart line at minute `m`: 2 on the hour, else 1.
pub open spec fn tick_width(m: int) -> u32 {
    if m % 60 == 0 {
        2
    } else {
        1
    }
}

/// The tick marks of a chart: every `interval` minutes from 0 up to
/// `timescale`, each with its line width.
pub fn tick_marks(timescale: u32, interval: u32) -> (r: Vec<(u32, u32)>)
    requires
        interval > 0,
    ensures
        r@.len() == timescale / interval + 1,
        forall|i: int| 0 <= i < r@.len() ==> #[trigger] r@[i] == ((interval * i) as u32, tick_width(interval * i)),
{
    let mut out: Vec<(u32, u32)> = Vec::new();
    let mut m: u64 = 0;
    let ghost mut n: int = 0;
    while m <= timescale as u64
        invariant
            interval > 0,
            m == interval * n,
            0 <= n,
            n == out@.len(),
            n > 0 ==> interval * (n - 1) <= timescale,
            m <= timescale + interval,
            forall|i: int| 0 <= i < out@.len() ==> #[trigger] out@[i] == ((interval * i) as u32, tick_width(interval * i)),
        decreases timescale + interval - m,
    {
        let w: u32 = if m % 60 == 0 { 2 } else { 1 };
        out.push((m as u32, w));
        proof {
            assert(interval * (n + 1) == interval * n + interval) by (nonlinear_arith);
            n = n + 1;
        }
        m = m + interval as u64;
    }
    proof {
        assert(n >= 1) by (nonlinear_arith)
            requires m == interval * n, m > timescale, 0 <= n;
        let q = timescale as int / interval as int;
        assert(n - 1 == q) by (nonlinear_arith)
            requires
                interval * (n - 1) <= timescale,
                interval * n > timescale,
                q == timescale as int / interval as int,
                interval > 0,
                n >= 1;
    }
    out
}

/// The hours marked along the time line: every 60 minutes from 0 up to
/// `timescale`.
pub fn hour_marks(timescale: u32) -> (r: Vec<u32>)
    ensures
        r@.len() == timescale / 60 + 1,
        forall|i: int| 0 <= i < r@.len() ==> #[trigger] r@[i] == 60 * i,
{
    let ticks = tick_marks(timescale, 60);
    let mut out: Vec<u32> = Vec::new();
    let mut i: usize = 0;
    while i < ticks.len()
        invariant
            i <= ticks@.len(),
            ticks@.len() == timescale / 60 + 1,
            out@.len() == i,
            forall|j: int| 0 <= j < ticks@.len() ==> #[trigger] ticks@[j] == ((60 * j) as u32, tick_width(60 * j)),
            forall|j: int| 0 <= j < i ==> #[trigger] out@[j] == 60 * j,
        decreases ticks@.len() - i,
    {
        assert(ticks@[i as int].0 == (60 * i) as u32);
        assert(60 * i <= timescale) by (nonlinear_arith)
            requires i < timescale / 60 + 1, i >= 0;
        out.push(ticks[i].0);
        i = i + 1;
    }
    out
}

/// `s` can lose its last character as a byte string does: it has one, and
/// it takes a single byte.
pub open spec fn can_shorten(s: Seq<char>) -> bool {
    s.len() > 0 && (s.last() as u32) < 0x80
}

/// Whether `s` can lose its last character.
pub fn can_shorten_str(s: &str) -> (r: bool)
    ensures
        r == can_shorten(s@),
{
    let mut last: Option<char> = None;
    for c in it: s.chars()
        invariant
            it.seq() == s@,
            it.index() == 0 ==> last is None,
            it.index() > 0 ==> last == Some(s@[it.index() - 1]),
    {
        last = Some(c);
    }
    match last {
        None => false,
        Some(c) => (c as u32) < 0x80,
    }
}

/// `s` without its last character.
pub fn shorten(s: &str) -> (r: String)
    requires
        can_shorten(s@),
    ensures
        r@ == s@.drop_last(),
{
    let mut out = String::new();
    let mut pending: Option<char> = None;
    for c in it: s.chars()
        invariant
            it.seq() == s@,
            it.index() == 0 ==> pending is None && out@.len() == 0,
            it.index() > 0 ==> pending == Some(s@[it.index() - 1]) && out@ == s@.take(it.index() - 1),
    {
        let ghost i = it.index();
        match pending {
            Some(p) => {
                push_char(&mut out, p);
                proof {
                    assert(s@.take(i as int) =~= s@.take(i - 1).push(p));
                }
            },
            None => {
                proof {
                    assert(out@ =~= s@.take(0));
                }
            },
        }
        pending = Some(c);
    }
    proof {
        assert(s@.take(s@.len() - 1) =~= s@.drop_last());
    }
    out
}

/// One round of fitting a station's name into the label column: the name
/// stays when its measured width `lwid` fits in `labelsize`, else it loses
/// its last character and is measured again.
pub fn station_label_step(name: &str, lwid: i32, labelsize: u32) -> (r: Option<String>)
    requires
        lwid > (#[verifier::truncate] (labelsize as i32)) ==> can_shorten(name@),
    ensures
        lwid <= (#[verifier::truncate] (labelsize as i32)) ==> r is None,
        lwid > (#[verifier::truncate] (labelsize as i32)) ==> (r matches Some(s) && s@ == name@.drop_last()),
{
    if lwid <= #[verifier::truncate] (labelsize as i32) {
        None
    } else {
        Some(shorten(name))
    }
}

/// What fitting a storage track's "station:track" label does next.
#[derive(PartialEq, Eq, Structural, Clone, Copy, Debug)]
pub enum NameStep {
    /// Drop the station name's last character.
    ShortenStation,
    /// Drop the track name's last character.
    ShortenTrack,
    /// The label fits.
    Done,
}

/// The next step in fitting a storage track's label, from the width `l1`
/// of "station:track" and the width `l2` of "station:": the station name is
/// shortened while the label is too wide and "station:" takes more than
/// half the column; then the track name, while the label is too wide.
pub fn chart_name_step(l1: u32, l2: u32, labelsize: u32) -> (r: NameStep)
    ensures
        l1 > labelsize && 2 * l2 > labelsize ==> r == NameStep::ShortenStation,
        l1 > labelsize && 2 * l2 <= labelsize ==> r == NameStep::ShortenTrack,
        l1 <= labelsize ==> r == NameStep::Done,
{
    if l1 > labelsize && 2 * (l2 as u64) > labelsize as u64 {
        NameStep::ShortenStation
    } else if l1 > labelsize {
        NameStep::ShortenTrack
    } else {
        NameStep::Done
    }
}

/// The label of a storage track on the chart: "station:track".
pub fn chart_name(station: &str, track: &str) -> (r: String)
    ensures
        r@ == station@ + ":"@ + track@,
{
    let mut r = station.to_owned();
    r.append(":");
    r.append(track);
    r
}

/// The canvas tag of everything drawn for a train.
pub fn train_tag(number: &str) -> (r: String)
    ensures
        r@ == "Train:"@ + number@,
{
    let mut r = "Train:".to_owned();
    r.append(number);
    r
}

} // verus!
