//! The network telemetry aggregator: a richer snapshot of the wireless
//! state (SSID, signal strength, frequency, byte and packet counters) with
//! derived human-readable formatting and rate computation.
//!
//! The embedding program reads the wireless-statistics pseudo-file, runs the
//! link-status query and reads the per-interface counter files; this module
//! parses those texts and owns every derived computation.

use vstd::prelude::*;

use crate::errors::BlockError;
use crate::num::{
    dec_str, dec_val, digit_char, digit_str, int_str, is_i32_numeral, is_u64_numeral,
    parse_i32_str, parse_u64_str, signed_val, u64_to_string, unsigned_body,
};
use crate::text::{
    before_colon, contains_str, find_sub, find_sub_str, first_token, first_token_str, has_sub,
    lemma_find_sub_bound, lines_after, lines_of, lines_spec, trim_spec, trim_str,
};

verus! {

/// The first of the lines that mentions the given label somewhere.
pub open spec fn first_line_containing(ls: Seq<Seq<char>>, p: Seq<char>) -> Option<Seq<char>>
    decreases ls.len(),
{
    if ls.len() == 0 {
        None
    } else if has_sub(ls[0], p) {
        Some(ls[0])
    } else {
        first_line_containing(ls.skip(1), p)
    }
}

/// The text between the first occurrence of the label and the next one (or
/// the end of the line): what splitting at the label yields as its second
/// piece.
pub open spec fn label_segment(l: Seq<char>, p: Seq<char>) -> Seq<char>
    recommends
        has_sub(l, p),
{
    match find_sub(l, p) {
        Some(i) => {
            let rest = l.skip(i + p.len());
            match find_sub(rest, p) {
                Some(j) => rest.take(j),
                None => rest,
            }
        },
        None => Seq::empty(),
    }
}

/// Cuts the segment after the first occurrence of the label, up to its next
/// occurrence or the end of the line.
pub fn label_segment_str(l: &str, p: &str) -> (r: String)
    requires
        has_sub(l@, p@),
    ensures
        r@ == label_segment(l@, p@),
{
    let n = l.unicode_len();
    let m = p.unicode_len();
    let i = match find_sub_str(l, p) {
        Some(i) => i,
        None => {
            assert(false);
            0
        },
    };
    proof {
        lemma_find_sub_bound(l@, p@);
    }
    let rest = l.substring_char(i + m, n);
    assert(rest@ =~= l@.skip(i as int + m as int));
    match find_sub_str(rest, p) {
        Some(j) => {
            proof {
                lemma_find_sub_bound(rest@, p@);
            }
            let seg = rest.substring_char(0, j);
            assert(seg@ =~= rest@.take(j as int));
            seg.to_owned()
        },
        None => rest.to_owned(),
    }
}

/// The first line mentioning the label, as an owned string.
pub fn find_line_containing(s: &str, p: &str) -> (r: Option<String>)
    ensures
        match r {
            Some(l) => first_line_containing(lines_spec(s@), p@) == Some(l@) && has_sub(l@, p@),
            None => first_line_containing(lines_spec(s@), p@) is None,
        },
{
    let ls = lines_of(s);
    let ghost lsv = lines_spec(s@);
    assert(lsv.skip(0) =~= lsv);
    let mut i: usize = 0;
    while i < ls.len()
        invariant
            0 <= i <= ls.len(),
            lsv == lines_spec(s@),
            ls.deep_view() == lsv,
            first_line_containing(lsv, p@) == first_line_containing(lsv.skip(i as int), p@),
        decreases ls.len() - i,
    {
        assert(lsv.skip(i as int)[0] == lsv[i as int]);
        assert(lsv[i as int] == ls@[i as int]@);
        if contains_str(ls[i].as_str(), p) {
            return Some(ls[i].clone());
        }
        assert(lsv.skip(i as int).skip(1) =~= lsv.skip(i as int + 1));
        i = i + 1;
    }
    assert(lsv.skip(i as int) =~= Seq::<Seq<char>>::empty());
    None
}

/// The SSID the link-status output reports: the trimmed text after the
/// first `SSID:` label, or the sentinel when no line carries one.
pub open spec fn link_ssid_spec(link: Seq<char>) -> Seq<char> {
    match first_line_containing(lines_spec(link), "SSID:"@) {
        Some(l) => trim_spec(label_segment(l, "SSID:"@)),
        None => "Not Connected"@,
    }
}

/// Parses the SSID out of the link-status output.
pub fn ssid_from_link(link: &str) -> (r: String)
    ensures
        r@ == link_ssid_spec(link@),
{
    match find_line_containing(link, "SSID:") {
        Some(l) => {
            let seg = label_segment_str(l.as_str(), "SSID:");
            trim_str(seg.as_str())
        },
        None => "Not Connected".to_owned(),
    }
}

/// The signal strength the link-status output reports: on each line with a
/// `signal:` label, the first whitespace-separated field after it, taken
/// from the first line where that field parses as a signed integer.
pub open spec fn link_signal_scan(ls: Seq<Seq<char>>) -> Option<int>
    decreases ls.len(),
{
    if ls.len() == 0 {
        None
    } else {
        let next = link_signal_scan(ls.skip(1));
        if has_sub(ls[0], "signal:"@) {
            match first_token(label_segment(ls[0], "signal:"@)) {
                Some(t) => if is_i32_numeral(t) {
                    Some(signed_val(t))
                } else {
                    next
                },
                None => next,
            }
        } else {
            next
        }
    }
}

/// The reported signal strength in dBm, zero when nothing parsable appears.
pub open spec fn link_signal_spec(link: Seq<char>) -> int {
    match link_signal_scan(lines_spec(link)) {
        Some(v) => v,
        None => 0,
    }
}

/// Parses the signal strength out of the link-status output.
pub fn signal_from_link(link: &str) -> (r: i32)
    ensures
        r as int == link_signal_spec(link@),
{
    let ls = lines_of(link);
    let ghost lsv = lines_spec(link@);
    assert(lsv.skip(0) =~= lsv);
    let mut i: usize = 0;
    while i < ls.len()
        invariant
            0 <= i <= ls.len(),
            lsv == lines_spec(link@),
            ls.deep_view() == lsv,
            link_signal_scan(lsv) == link_signal_scan(lsv.skip(i as int)),
        decreases ls.len() - i,
    {
        assert(lsv.skip(i as int)[0] == lsv[i as int]);
        assert(lsv[i as int] == ls@[i as int]@);
        let line = &ls[i];
        assert(lsv.skip(i as int).skip(1) =~= lsv.skip(i as int + 1));
        if contains_str(line.as_str(), "signal:") {
            let seg = label_segment_str(line.as_str(), "signal:");
            match first_token_str(seg.as_str()) {
                Some(tok) => {
                    match parse_i32_str(tok.as_str()) {
                        Some(v) => {
                            return v;
                        },
                        None => {},
                    }
                },
                None => {},
            }
        }
        i = i + 1;
    }
    assert(lsv.skip(i as int) =~= Seq::<Seq<char>>::empty());
    0
}

/// The frequency the link-status output reports: the first field after the
/// first `freq:` label with the unit appended, or the unknown sentinel when
/// no line carries the label or the label has no field after it.
pub open spec fn link_frequency_spec(link: Seq<char>) -> Seq<char> {
    match first_line_containing(lines_spec(link), "freq:"@) {
        Some(l) => match first_token(label_segment(l, "freq:"@)) {
            Some(t) => t + " MHz"@,
            None => "Unknown"@,
        },
        None => "Unknown"@,
    }
}

/// Parses the frequency out of the link-status output.
pub fn frequency_from_link(link: &str) -> (r: String)
    ensures
        r@ == link_frequency_spec(link@),
{
    match find_line_containing(link, "freq:") {
        Some(l) => {
            let seg = label_segment_str(l.as_str(), "freq:");
            match first_token_str(seg.as_str()) {
                Some(t) => {
                    let mut r = t;
                    r.append(" MHz");
                    r
                },
                None => "Unknown".to_owned(),
            }
        },
        None => "Unknown".to_owned(),
    }
}

/// A counter file's value: the trimmed text parsed as an unsigned integer,
/// zero when it does not parse.
pub open spec fn counter_of(text: Seq<char>) -> u64 {
    if is_u64_numeral(trim_spec(text)) {
        dec_val(unsigned_body(trim_spec(text))) as u64
    } else {
        0
    }
}

/// Parses one per-interface counter file's text.
pub fn parse_counter(text: &str) -> (r: u64)
    ensures
        r == counter_of(text@),
{
    let t = trim_str(text);
    match parse_u64_str(t.as_str()) {
        Some(v) => v,
        None => 0,
    }
}

/// The interface the wireless-statistics pseudo-file reports: on the lines
/// after the two headers, the first non-empty trimmed name before a colon.
pub open spec fn iface_scan(ls: Seq<Seq<char>>) -> Option<Seq<char>>
    decreases ls.len(),
{
    if ls.len() == 0 {
        None
    } else {
        let name = trim_spec(before_colon(ls[0]));
        if name.len() > 0 {
            Some(name)
        } else {
            iface_scan(ls.skip(1))
        }
    }
}

/// Finds the active wireless interface in the pseudo-file text; fails with
/// the missing-resource condition when no non-header line names one.
pub fn wireless_interface(content: &str) -> (r: Result<String, BlockError>)
    ensures
        match iface_scan(lines_after(lines_spec(content@), 2)) {
            Some(n) => r matches Ok(s) && s@ == n,
            None => r matches Err(BlockError::MissingFile(m)) && m@
                == "No active wireless interface"@,
        },
{
    let ls = lines_of(content);
    let ghost lsv = lines_spec(content@);
    let mut i: usize = 2;
    if ls.len() <= 2 {
        assert(lines_after(lsv, 2) =~= Seq::<Seq<char>>::empty());
        return Err(BlockError::MissingFile("No active wireless interface".to_owned()));
    }
    while i < ls.len()
        invariant
            2 <= i <= ls.len(),
            lsv == lines_spec(content@),
            ls.deep_view() == lsv,
            iface_scan(lines_after(lsv, 2)) == iface_scan(lines_after(lsv, i as int)),
        decreases ls.len() - i,
    {
        assert(lines_after(lsv, i as int)[0] == lsv[i as int]);
        assert(lsv[i as int] == ls@[i as int]@);
        let (head, _) = crate::text::split_at_colon(ls[i].as_str());
        let name = trim_str(head.as_str());
        if name.as_str().unicode_len() > 0 {
            return Ok(name);
        }
        assert(lines_after(lsv, i as int).skip(1) =~= lines_after(lsv, i as int + 1));
        i = i + 1;
    }
    assert(lines_after(lsv, i as int) =~= Seq::<Seq<char>>::empty());
    Err(BlockError::MissingFile("No active wireless interface".to_owned()))
}

/// The four-level signal bar for a strength in dBm; each boundary selects
/// the higher tier inclusively.
pub open spec fn bars_spec(signal: int) -> Seq<char> {
    if signal >= -50 {
        "▂▄▆█"@
    } else if signal >= -60 {
        "▂▄▆_"@
    } else if signal >= -70 {
        "▂▄__"@
    } else if signal >= -80 {
        "▂___"@
    } else {
        "____"@
    }
}

/// Two decimal digits with a leading zero, as `{:02}` pads them.
pub open spec fn two_digit_str(f: nat) -> Seq<char>
    recommends
        f < 100,
{
    seq![digit_char(f / 10), digit_char(f % 10)]
}

/// A byte count scaled by a unit, printed with two decimals; the fraction is
/// rounded half up and carried into the whole part when it rounds to one.
pub open spec fn human_str(n: u64, unit: u64) -> Seq<char>
    recommends
        unit >= 2,
{
    let q0 = n as int / unit as int;
    let f0 = ((n as int % unit as int) * 100 + unit as int / 2) / unit as int;
    let q = if f0 == 100 {
        q0 + 1
    } else {
        q0
    };
    let f = if f0 == 100 {
        0
    } else {
        f0
    };
    dec_str(q as nat) + seq!['.'] + two_digit_str(f as nat)
}

/// A byte count in binary units: two-decimal kilo-, mega- or gigabytes for
/// a kilobyte and up, a bare integer with the byte suffix below that.
pub open spec fn bytes_human_spec(n: u64) -> Seq<char> {
    if n >= 1073741824 {
        human_str(n, 1073741824) + "GB"@
    } else if n >= 1048576 {
        human_str(n, 1048576) + "MB"@
    } else if n >= 1024 {
        human_str(n, 1024) + "KB"@
    } else {
        dec_str(n as nat) + "B"@
    }
}

/// The one-line display of a snapshot.
pub open spec fn display_spec(
    ssid: Seq<char>,
    signal: int,
    freq: Seq<char>,
    tx: u64,
    rx: u64,
) -> Seq<char> {
    "WiFi: "@ + ssid + seq![' '] + bars_spec(signal) + " ("@ + int_str(signal) + " dBm) | "@
        + freq + " | ↑"@ + bytes_human_spec(tx) + " ↓"@ + bytes_human_spec(rx)
}

/// An immutable point-in-time capture of the wireless state.
#[derive(Clone)]
pub struct WifiInfo {
    pub interface: String,
    pub ssid: String,
    pub signal_strength: i32,
    pub frequency: String,
    pub tx_bytes: u64,
    pub rx_bytes: u64,
    pub tx_packets: u64,
    pub rx_packets: u64,
}

impl WifiInfo {
    /// Builds a snapshot from the probes' raw texts: the
    /// wireless-statistics pseudo-file, the link-status query's output and
    /// the four per-interface counter files.  Fails only when the
    /// pseudo-file names no interface; everything else has a default.
    pub fn new(
        wireless: &str,
        link: &str,
        tx_bytes_text: &str,
        rx_bytes_text: &str,
        tx_packets_text: &str,
        rx_packets_text: &str,
    ) -> (r: Result<WifiInfo, BlockError>)
        ensures
            match iface_scan(lines_after(lines_spec(wireless@), 2)) {
                Some(name) => r matches Ok(info) && {
                    &&& info.interface@ == name
                    &&& info.ssid@ == link_ssid_spec(link@)
                    &&& info.signal_strength as int == link_signal_spec(link@)
                    &&& info.frequency@ == link_frequency_spec(link@)
                    &&& info.tx_bytes == counter_of(tx_bytes_text@)
                    &&& info.rx_bytes == counter_of(rx_bytes_text@)
                    &&& info.tx_packets == counter_of(tx_packets_text@)
                    &&& info.rx_packets == counter_of(rx_packets_text@)
                },
                None => r matches Err(BlockError::MissingFile(m)) && m@
                    == "No active wireless interface"@,
            },
    {
        let interface = match wireless_interface(wireless) {
            Ok(i) => i,
            Err(e) => {
                return Err(e);
            },
        };
        Ok(
            WifiInfo {
                interface,
                ssid: ssid_from_link(link),
                signal_strength: signal_from_link(link),
                frequency: frequency_from_link(link),
                tx_bytes: parse_counter(tx_bytes_text),
                rx_bytes: parse_counter(rx_bytes_text),
                tx_packets: parse_counter(tx_packets_text),
                rx_packets: parse_counter(rx_packets_text),
            },
        )
    }

    /// The visual signal bar for a strength in dBm.
    pub fn signal_to_bars(signal: i32) -> (r: &'static str)
        ensures
            r@ == bars_spec(signal as int),
    {
        if signal >= -50 {
            "▂▄▆█"
        } else if signal >= -60 {
            "▂▄▆_"
        } else if signal >= -70 {
            "▂▄__"
        } else if signal >= -80 {
            "▂___"
        } else {
            "____"
        }
    }

    /// A byte count in human-readable binary units.
    pub fn bytes_to_human(bytes: u64) -> (r: String)
        ensures
            r@ == bytes_human_spec(bytes),
    {
        if bytes >= 1073741824 {
            let mut r = human_with_unit(bytes, 1073741824);
            r.append("GB");
            r
        } else if bytes >= 1048576 {
            let mut r = human_with_unit(bytes, 1048576);
            r.append("MB");
            r
        } else if bytes >= 1024 {
            let mut r = human_with_unit(bytes, 1024);
            r.append("KB");
            r
        } else {
            let mut r = u64_to_string(bytes);
            r.append("B");
            r
        }
    }

    /// Composes the one-line display: SSID, signal bar, dBm value,
    /// frequency, and the transmitted and received totals.
    pub fn format_display(&self) -> (r: String)
        ensures
            r@ == display_spec(
                self.ssid@,
                self.signal_strength as int,
                self.frequency@,
                self.tx_bytes,
                self.rx_bytes,
            ),
    {
        let mut r = String::new();
        r.append("WiFi: ");
        r.append(self.ssid.as_str());
        r.append(" ");
        r.append(Self::signal_to_bars(self.signal_strength));
        r.append(" (");
        let dbm = crate::num::i32_to_string(self.signal_strength);
        r.append(dbm.as_str());
        r.append(" dBm) | ");
        r.append(self.frequency.as_str());
        r.append(" | ↑");
        let tx = Self::bytes_to_human(self.tx_bytes);
        r.append(tx.as_str());
        r.append(" ↓");
        let rx = Self::bytes_to_human(self.rx_bytes);
        r.append(rx.as_str());
        proof {
            reveal_strlit(" ");
            assert(r@ =~= display_spec(
                self.ssid@,
                self.signal_strength as int,
                self.frequency@,
                self.tx_bytes,
                self.rx_bytes,
            ));
        }
        r
    }

    /// The transferred bytes between two snapshots, `(transmitted,
    /// received)`.  The caller guards against counter resets: a newer
    /// snapshot must not have smaller counters.
    pub fn calculate_rate(&self, previous: &WifiInfo) -> (r: (u64, u64))
        requires
            previous.tx_bytes <= self.tx_bytes,
            previous.rx_bytes <= self.rx_bytes,
        ensures
            r.0 == self.tx_bytes - previous.tx_bytes,
            r.1 == self.rx_bytes - previous.rx_bytes,
    {
        (self.tx_bytes - previous.tx_bytes, self.rx_bytes - previous.rx_bytes)
    }
}

impl Default for WifiInfo {
    /// The disconnected snapshot.
    fn default() -> (r: Self)
        ensures
            r.interface@ == Seq::<char>::empty(),
            r.ssid@ == "Disconnected"@,
            r.signal_strength == 0,
            r.frequency@ == "N/A"@,
            r.tx_bytes == 0,
            r.rx_bytes == 0,
            r.tx_packets == 0,
            r.rx_packets == 0,
    {
        WifiInfo {
            interface: String::new(),
            ssid: "Disconnected".to_owned(),
            signal_strength: 0,
            frequency: "N/A".to_owned(),
            tx_bytes: 0,
            rx_bytes: 0,
            tx_packets: 0,
            rx_packets: 0,
        }
    }
}

/// The two-decimal scaled rendering of a byte count for one unit.
fn human_with_unit(n: u64, unit: u64) -> (r: String)
    requires
        unit == 1024 || unit == 1048576 || unit == 1073741824,
    ensures
        r@ == human_str(n, unit),
{
    let q0 = n / unit;
    let rem = n % unit;
    let f0 = (rem * 100 + unit / 2) / unit;
    assert(f0 <= 100) by (nonlinear_arith)
        requires
            0 <= rem < unit,
            2 <= unit,
            f0 as int == (rem as int * 100 + unit as int / 2) / (unit as int),
    ;
    assert(q0 < u64::MAX) by (nonlinear_arith)
        requires
            1024 <= unit,
            q0 == n as int / unit as int,
            n <= u64::MAX,
    ;
    let q: u64;
    let f: u64;
    if f0 == 100 {
        q = q0 + 1;
        f = 0;
    } else {
        q = q0;
        f = f0;
    }
    let mut r = u64_to_string(q);
    r.append(".");
    r.append(digit_str(f / 10));
    r.append(digit_str(f % 10));
    proof {
        reveal_strlit(".");
        assert(r@ =~= human_str(n, unit));
    }
    r
}

} // verus!
