//! The WiFi block: interface resolution with an ordered fallback chain,
//! SSID and signal-quality resolution, and the block's template rendering.
//!
//! The embedding program runs the detection probes (the device registry
//! walk, the wireless-listing utility, the SSID-query utilities) and reads
//! the wireless-statistics pseudo-file; this module makes every decision on
//! their outputs: which candidate wins, when the chain counts as exhausted,
//! and what the template renders in each state.

use vstd::prelude::*;

use crate::errors::BlockError;
use crate::num::{i32_to_string, int_str, is_i32_numeral, parse_i32_str, signed_val};
use crate::text::{
    before_colon, has_colon, lines_after, lines_of, lines_spec, replace_spec, replace_str,
    split_at_colon, str_eq, strip_trailing_dots, strip_trailing_dots_str, tokens, tokens_of,
    trim_spec, trim_str,
};

verus! {

/// One detection step of the wireless-statistics pseudo-file: the first
/// non-blank line that holds a colon and a non-empty name before it yields
/// that trimmed name.
pub open spec fn detect_scan(ls: Seq<Seq<char>>) -> Option<Seq<char>>
    decreases ls.len(),
{
    if ls.len() == 0 {
        None
    } else {
        let name = trim_spec(before_colon(ls[0]));
        if trim_spec(ls[0]).len() > 0 && has_colon(ls[0]) && name.len() > 0 {
            Some(name)
        } else {
            detect_scan(ls.skip(1))
        }
    }
}

/// What interface detection reads out of the wireless-statistics
/// pseudo-file: the first usable name after the two header lines.
pub open spec fn detect_from_wireless_spec(content: Seq<char>) -> Option<Seq<char>> {
    detect_scan(lines_after(lines_spec(content), 2))
}

/// Scans the wireless-statistics pseudo-file text for an interface name:
/// skips the two header lines, then takes the first line with a non-empty
/// trimmed name before a colon.
pub fn detect_from_wireless(content: &str) -> (r: Option<String>)
    ensures
        match r {
            Some(name) => detect_from_wireless_spec(content@) == Some(name@),
            None => detect_from_wireless_spec(content@) is None,
        },
{
    let ls = lines_of(content);
    let ghost lsv = lines_spec(content@);
    let mut i: usize = 2;
    if ls.len() <= 2 {
        assert(lines_after(lsv, 2) =~= Seq::<Seq<char>>::empty());
        return None;
    }
    while i < ls.len()
        invariant
            2 <= i <= ls.len(),
            lsv == lines_spec(content@),
            ls.deep_view() == lsv,
            detect_scan(lines_after(lsv, 2)) == detect_scan(lines_after(lsv, i as int)),
        decreases ls.len() - i,
    {
        assert(lines_after(lsv, i as int)[0] == lsv[i as int]);
        assert(lsv[i as int] == ls@[i as int]@);
        let line = &ls[i];
        let t = trim_str(line.as_str());
        let (name_raw, colon) = split_at_colon(line.as_str());
        let name = trim_str(name_raw.as_str());
        if t.as_str().unicode_len() > 0 && colon && name.as_str().unicode_len() > 0 {
            assert(detect_scan(lines_after(lsv, i as int)) == Some(name@));
            return Some(name);
        }
        assert(lines_after(lsv, i as int).skip(1) =~= lines_after(lsv, i as int + 1));
        i = i + 1;
    }
    assert(lines_after(lsv, i as int) =~= Seq::<Seq<char>>::empty());
    None
}

/// The quality token for an interface: the first line after the two headers
/// whose interface-name field — the trimmed text before the colon — equals
/// the interface and that has at least three whitespace-separated fields
/// yields its third field.
pub open spec fn quality_token_scan(ls: Seq<Seq<char>>, iface: Seq<char>) -> Option<Seq<char>>
    decreases ls.len(),
{
    if ls.len() == 0 {
        None
    } else if trim_spec(before_colon(ls[0])) == iface && tokens(ls[0]).len() >= 3 {
        Some(tokens(ls[0])[2])
    } else {
        quality_token_scan(ls.skip(1), iface)
    }
}

/// Link quality normalized to a percentage: the raw value over a maximum of
/// 70, rounded half up, clamped to `[0, 100]`.
pub open spec fn quality_percent(q: int) -> int {
    if q <= 0 {
        0
    } else if q >= 70 {
        100
    } else {
        (q * 100 + 35) / 70
    }
}

/// The normalized quality always lies in `[0, 100]`: a raw value of 70 or
/// more clamps to 100, zero or less to 0.
pub proof fn lemma_quality_percent_clamped(q: int)
    ensures
        0 <= quality_percent(q) <= 100,
        q >= 70 ==> quality_percent(q) == 100,
        q <= 0 ==> quality_percent(q) == 0,
{
    if 0 < q < 70 {
        assert(0 <= (q * 100 + 35) / 70 <= 100) by (nonlinear_arith)
            requires
                0 < q < 70,
        ;
    }
}

/// Normalizes a raw link quality to a percentage in `[0, 100]`.
pub fn quality_to_percent(q: i32) -> (r: i32)
    ensures
        r == quality_percent(q as int),
        0 <= r <= 100,
{
    proof {
        lemma_quality_percent_clamped(q as int);
    }
    if q <= 0 {
        0
    } else if q >= 70 {
        100
    } else {
        (q * 100 + 35) / 70
    }
}

/// Resolves the signal quality of an interface from the
/// wireless-statistics pseudo-file text: finds the line whose
/// interface-name field matches, strips the trailing period off its third
/// field, parses it and normalizes it.  Fails with the distinguished data
/// errors when no line matches or the field is not numeric.
pub fn signal_quality(content: &str, iface: &str) -> (r: Result<i32, BlockError>)
    ensures
        match quality_token_scan(lines_after(lines_spec(content@), 2), iface@) {
            None => r matches Err(BlockError::InvalidData(m)) && m@ == "Interface not found"@,
            Some(tok) => {
                let t = strip_trailing_dots(tok);
                if is_i32_numeral(t) {
                    r matches Ok(q) && q == quality_percent(signed_val(t))
                } else {
                    r matches Err(BlockError::InvalidData(m)) && m@ == "Invalid quality value"@
                }
            },
        },
{
    let ls = lines_of(content);
    let ghost lsv = lines_spec(content@);
    let mut i: usize = 2;
    if ls.len() <= 2 {
        assert(lines_after(lsv, 2) =~= Seq::<Seq<char>>::empty());
        return Err(BlockError::InvalidData("Interface not found".to_owned()));
    }
    while i < ls.len()
        invariant
            2 <= i <= ls.len(),
            lsv == lines_spec(content@),
            ls.deep_view() == lsv,
            quality_token_scan(lines_after(lsv, 2), iface@) == quality_token_scan(
                lines_after(lsv, i as int),
                iface@,
            ),
        decreases ls.len() - i,
    {
        assert(lines_after(lsv, i as int)[0] == lsv[i as int]);
        assert(lsv[i as int] == ls@[i as int]@);
        let line = &ls[i];
        let (head, _) = split_at_colon(line.as_str());
        let name = trim_str(head.as_str());
        if str_eq(name.as_str(), iface) {
            let toks = tokens_of(line.as_str());
            if toks.len() >= 3 {
                assert(toks.deep_view()[2] == toks@[2]@);
                let stripped = strip_trailing_dots_str(toks[2].as_str());
                assert(quality_token_scan(lines_after(lsv, i as int), iface@) == Some(
                    tokens(lsv[i as int])[2],
                ));
                match parse_i32_str(stripped) {
                    Some(q) => {
                        return Ok(quality_to_percent(q));
                    },
                    None => {
                        return Err(BlockError::InvalidData("Invalid quality value".to_owned()));
                    },
                }
            }
        }
        assert(lines_after(lsv, i as int).skip(1) =~= lines_after(lsv, i as int + 1));
        i = i + 1;
    }
    assert(lines_after(lsv, i as int) =~= Seq::<Seq<char>>::empty());
    Err(BlockError::InvalidData("Interface not found".to_owned()))
}

/// The device-registry step of detection: of the walked entries, each a
/// device name paired with whether it carries the wireless marker, the
/// first marked one wins.
pub open spec fn registry_scan(entries: Seq<(Seq<char>, bool)>) -> Option<Seq<char>>
    decreases entries.len(),
{
    if entries.len() == 0 {
        None
    } else if entries[0].1 {
        Some(entries[0].0)
    } else {
        registry_scan(entries.skip(1))
    }
}

/// Picks the first device-registry entry that carries the wireless marker.
/// The embedding program walks the registry directory and hands in each
/// entry's name with its marker flag, in directory order.
pub fn registry_pick(entries: &Vec<(String, bool)>) -> (r: Option<String>)
    ensures
        match r {
            Some(n) => registry_scan(entries.deep_view()) == Some(n@),
            None => registry_scan(entries.deep_view()) is None,
        },
{
    let ghost ev = entries.deep_view();
    assert(ev.skip(0) =~= ev);
    let mut i: usize = 0;
    while i < entries.len()
        invariant
            0 <= i <= entries.len(),
            ev == entries.deep_view(),
            registry_scan(ev) == registry_scan(ev.skip(i as int)),
        decreases entries.len() - i,
    {
        assert(ev.skip(i as int)[0] == ev[i as int]);
        assert(ev[i as int] == (entries@[i as int].0@, entries@[i as int].1));
        if entries[i].1 {
            return Some(entries[i].0.clone());
        }
        assert(ev.skip(i as int).skip(1) =~= ev.skip(i as int + 1));
        i = i + 1;
    }
    assert(ev.skip(i as int) =~= Seq::<(Seq<char>, bool)>::empty());
    None
}

/// The whole interface resolution chain of the block: a pinned name wins
/// unconditionally; then the device registry's candidate; then the trimmed
/// output of the wireless-listing utility; then the pseudo-file scan; and
/// the literal default last.  The chain never fails.
pub open spec fn interface_resolution(
    pinned: Option<Seq<char>>,
    registry: Option<Seq<char>>,
    listing: Option<Seq<char>>,
    wireless: Option<Seq<char>>,
) -> Seq<char> {
    match pinned {
        Some(p) => p,
        None => match registry {
            Some(n) => n,
            None => {
                let from_listing = match listing {
                    Some(out) => if trim_spec(out).len() > 0 {
                        Some(trim_spec(out))
                    } else {
                        None
                    },
                    None => None,
                };
                match from_listing {
                    Some(t) => t,
                    None => {
                        let from_wireless = match wireless {
                            Some(content) => detect_scan(lines_after(lines_spec(content), 2)),
                            None => None,
                        };
                        match from_wireless {
                            Some(n) => n,
                            None => "wlan0"@,
                        }
                    },
                }
            },
        },
    }
}

/// Resolves the interface name from the four strategies' raw results, in
/// priority order: the configured name, the device-registry walk's
/// candidate, the wireless-listing utility's output, the
/// wireless-statistics pseudo-file's text.  `None` stands for a strategy
/// that failed or was never run because an earlier one already succeeded.
pub fn resolve_interface(
    pinned: Option<&str>,
    registry: Option<&str>,
    listing: Option<&str>,
    wireless: Option<&str>,
) -> (r: String)
    ensures
        r@ == interface_resolution(
            match pinned {
                Some(p) => Some(p@),
                None => None,
            },
            match registry {
                Some(n) => Some(n@),
                None => None,
            },
            match listing {
                Some(o) => Some(o@),
                None => None,
            },
            match wireless {
                Some(c) => Some(c@),
                None => None,
            },
        ),
{
    if let Some(p) = pinned {
        return p.to_owned();
    }
    if let Some(n) = registry {
        return n.to_owned();
    }
    if let Some(out) = listing {
        if let Some(t) = crate::text::nonempty_trimmed(out) {
            return t;
        }
    }
    if let Some(content) = wireless {
        if let Some(n) = detect_from_wireless(content) {
            return n;
        }
    }
    "wlan0".to_owned()
}

/// A strategy's usable SSID: the trimmed output of its utility, when the
/// utility ran and printed something beyond whitespace.
pub open spec fn ssid_of_output(o: Option<&str>) -> Option<Seq<char>> {
    match o {
        Some(s) => if trim_spec(s@).len() > 0 {
            Some(trim_spec(s@))
        } else {
            None
        },
        None => None,
    }
}

/// First usable candidate of the ordered chain.
pub open spec fn first_usable(
    a: Option<Seq<char>>,
    b: Option<Seq<char>>,
    c: Option<Seq<char>>,
) -> Option<Seq<char>> {
    if a is Some {
        a
    } else if b is Some {
        b
    } else {
        c
    }
}

/// Resolves the SSID from the three strategies' raw outputs, in chain
/// order: the dedicated SSID-query utility, the link-status query, the
/// network-manager listing.  `None` stands for a strategy whose utility
/// failed or was never run because an earlier one already succeeded.
/// Exhaustion of the chain is the distinguished "not connected" condition.
pub fn choose_ssid(first: Option<&str>, second: Option<&str>, third: Option<&str>) -> (r: Result<
    String,
    BlockError,
>)
    ensures
        match first_usable(ssid_of_output(first), ssid_of_output(second), ssid_of_output(third)) {
            Some(t) => r matches Ok(s) && s@ == t,
            None => r matches Err(BlockError::CommandFailed(m)) && m@ == "Not connected"@,
        },
{
    if let Some(out) = first {
        let t = trim_str(out);
        if t.as_str().unicode_len() > 0 {
            return Ok(t);
        }
    }
    if let Some(out) = second {
        let t = trim_str(out);
        if t.as_str().unicode_len() > 0 {
            return Ok(t);
        }
    }
    if let Some(out) = third {
        let t = trim_str(out);
        if t.as_str().unicode_len() > 0 {
            return Ok(t);
        }
    }
    Err(BlockError::CommandFailed("Not connected".to_owned()))
}

/// The connected render: `{ssid}`, then `{quality}`, then `{}` as the
/// composite `"<ssid> <quality>%"`, substituted in that order.
pub open spec fn connected_render(fmt: Seq<char>, ssid: Seq<char>, q: int) -> Seq<char> {
    let qs = int_str(q);
    replace_spec(
        replace_spec(replace_spec(fmt, "{ssid}"@, ssid), "{quality}"@, qs),
        "{}"@,
        ssid + seq![' '] + qs + seq!['%'],
    )
}

/// The disconnected render: every token becomes its disconnected sentinel.
pub open spec fn disconnected_render(fmt: Seq<char>) -> Seq<char> {
    replace_spec(
        replace_spec(replace_spec(fmt, "{ssid}"@, "Disconnected"@), "{quality}"@, "0"@),
        "{}"@,
        "Disconnected"@,
    )
}

/// A non-empty template never renders to the empty string in the
/// disconnected state: every sentinel substituted is itself non-empty.
pub proof fn lemma_disconnected_render_nonempty(fmt: Seq<char>)
    requires
        fmt.len() > 0,
    ensures
        disconnected_render(fmt).len() > 0,
{
    reveal_strlit("Disconnected");
    reveal_strlit("0");
    let step1 = replace_spec(fmt, "{ssid}"@, "Disconnected"@);
    let step2 = replace_spec(step1, "{quality}"@, "0"@);
    crate::text::lemma_replace_nonempty(fmt, "{ssid}"@, "Disconnected"@);
    crate::text::lemma_replace_nonempty(step1, "{quality}"@, "0"@);
    crate::text::lemma_replace_nonempty(step2, "{}"@, "Disconnected"@);
}

/// The WiFi block of one bar: its format template, refresh interval,
/// display color and the optionally pinned interface name.
pub struct Wifi {
    pub format: String,
    pub interval_secs: u64,
    pub color: u32,
    pub interface: Option<String>,
}

impl Wifi {
    /// A block's refresh interval is always positive.
    pub fn new(format: &str, interval_secs: u64, color: u32, interface: Option<String>) -> (r:
        Wifi)
        requires
            interval_secs > 0,
        ensures
            r.format@ == format@,
            r.interval_secs == interval_secs,
            r.color == color,
            r.interface == interface,
    {
        Wifi { format: format.to_owned(), interval_secs, color, interface }
    }

    /// The fixed refresh period, in seconds.
    pub fn interval(&self) -> (r: u64)
        ensures
            r == self.interval_secs,
    {
        self.interval_secs
    }

    /// The fixed display color.
    pub fn color(&self) -> (r: u32)
        ensures
            r == self.color,
    {
        self.color
    }

    /// The interface to inspect: the pinned name wins unconditionally, then
    /// whatever detection produced, then the literal default.  This chain
    /// never fails.
    pub fn get_interface(&self, detected: Option<String>) -> (r: String)
        ensures
            match self.interface {
                Some(pinned) => r@ == pinned@,
                None => match detected {
                    Some(d) => r@ == d@,
                    None => r@ == "wlan0"@,
                },
            },
    {
        match &self.interface {
            Some(pinned) => pinned.clone(),
            None => match detected {
                Some(d) => d,
                None => "wlan0".to_owned(),
            },
        }
    }

    /// One render cycle from the resolved SSID and quality.  A resolved SSID
    /// renders the connected template, with a failed quality lookup shown as
    /// zero; an exhausted SSID chain renders the disconnected sentinels.
    /// Either way the render succeeds: a disconnected state is a valid
    /// display, not a collection failure.
    pub fn content(&self, ssid: Result<String, BlockError>, quality: Result<i32, BlockError>) -> (
        r: Result<String, BlockError>)
        ensures
            r is Ok,
            match ssid {
                Ok(s) => r matches Ok(out) && out@ == connected_render(
                    self.format@,
                    s@,
                    (match quality {
                        Ok(q) => q,
                        Err(_) => 0,
                    }) as int,
                ),
                Err(_) => r matches Ok(out) && out@ == disconnected_render(self.format@),
            },
    {
        proof {
            reveal_strlit("{ssid}");
            reveal_strlit("{quality}");
            reveal_strlit("{}");
            reveal_strlit(" ");
            reveal_strlit("%");
            reveal_strlit("Disconnected");
            reveal_strlit("0");
        }
        match ssid {
            Ok(s) => {
                let q: i32 = match quality {
                    Ok(q) => q,
                    Err(_) => 0,
                };
                let qs = i32_to_string(q);
                let mut composite = s.clone();
                composite.append(" ");
                composite.append(qs.as_str());
                composite.append("%");
                assert(composite@ =~= s@ + seq![' '] + int_str(q as int) + seq!['%']);
                let step1 = replace_str(self.format.as_str(), "{ssid}", s.as_str());
                let step2 = replace_str(step1.as_str(), "{quality}", qs.as_str());
                Ok(replace_str(step2.as_str(), "{}", composite.as_str()))
            },
            Err(_) => {
                let step1 = replace_str(self.format.as_str(), "{ssid}", "Disconnected");
                let step2 = replace_str(step1.as_str(), "{quality}", "0");
                Ok(replace_str(step2.as_str(), "{}", "Disconnected"))
            },
        }
    }
}

} // verus!
