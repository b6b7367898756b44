//! Hardware protocol backends.

use vstd::prelude::*;

pub mod bytes;
pub mod drawbridge;
pub mod greaseweazle;
pub mod reading;
pub mod supercard_pro;

use crate::error::{Error, ErrorView, Result};
use crate::flux::packed::{bits_fit, pack_bits};
use crate::flux::pll::PllDecoder;
use crate::flux::rotation::decode_bounded;
use crate::flux::{
    flux_to_revolution, flux_to_unaligned_revolution, overlap, packed, pll, rotation, FluxEvent,
    MAX_TRACK_BITS,
};
use crate::text;
use crate::text::{append_decimal, contains_text, lower_characters};
use crate::types::{
    BridgeConfig, DriveSelect, DriverKind, PortInfo, PortInfoView, PortSelection, ReadMode,
    TrackAddress,
};

verus! {

/// Most bytes read of one flux stream.
pub const MAX_STREAM_BYTES: usize = 0x10_0000;

/// How long a command may take, in milliseconds.
pub const COMMAND_TIMEOUT_MS: u64 = 2_000;

/// How long a flux transfer may take, in milliseconds.
pub const STREAM_TIMEOUT_MS: u64 = 3_000;

/// One revolution as a backend hands it over.
#[derive(Debug)]
pub struct RawCapture {
    /// Packed, most-significant-bit-first MFM words.
    pub words: Vec<u16>,
    /// Exact number of meaningful bits.
    pub bit_len: usize,
    /// Whether the capture runs from one index pulse to the next.
    pub index_aligned: bool,
}

/// What is wrong with a capture of `bit_len` bits in `words`, if anything.
pub open spec fn capture_problem(words: Seq<u16>, bit_len: int) -> Option<ErrorView> {
    if bit_len < 64 || !packed::fits(words, bit_len) {
        Some(
            ErrorView::Protocol(
                "backend returned invalid "@ + text::decimal(bit_len as nat) + "-bit capture in "@
                    + text::decimal(words.len()) + " words"@,
            ),
        )
    } else if bit_len > MAX_TRACK_BITS {
        Some(ErrorView::TrackTooLarge { bits: bit_len, limit: MAX_TRACK_BITS as int })
    } else {
        None
    }
}

/// Rejects a capture that is too short, too long, or larger than its words.
pub fn validate_capture(capture: &RawCapture) -> (result: Result<()>)
    ensures
        match capture_problem(capture.words@, capture.bit_len as int) {
            Some(expected) => result matches Err(error) && error@ == expected,
            None => result is Ok,
        },
{
    if capture.bit_len < 64 || !bits_fit(capture.words.len(), capture.bit_len) {
        let mut message = "backend returned invalid ".to_owned();
        append_decimal(&mut message, capture.bit_len as u64);
        message.append("-bit capture in ");
        append_decimal(&mut message, capture.words.len() as u64);
        message.append(" words");
        return Err(Error::Protocol(message));
    }
    if capture.bit_len > MAX_TRACK_BITS {
        return Err(Error::TrackTooLarge { bits: capture.bit_len, limit: MAX_TRACK_BITS });
    }
    Ok(())
}

/// One revolution cut out of a stream of transitions, and whether it runs from
/// one index pulse to the next.
pub open spec fn revolution_of(
    events: Seq<FluxEvent>,
    mode: ReadMode,
    high_density: bool,
) -> core::result::Result<(Seq<bool>, bool), ErrorView> {
    if mode == ReadMode::Fast {
        match rotation::oversize(pll::PllState::centred(), events) {
            Some(bits) => Err(ErrorView::TrackTooLarge { bits, limit: MAX_TRACK_BITS as int }),
            None => match overlap::unaligned_outcome(
                rotation::decoded(pll::PllState::centred(), events),
                high_density,
            ) {
                Ok(cells) => Ok((cells, false)),
                Err(problem) => Err(problem),
            },
        }
    } else {
        match rotation::oversize(
            rotation::warm_state(events),
            rotation::revolution_events(events),
        ) {
            Some(bits) => Err(ErrorView::TrackTooLarge { bits, limit: MAX_TRACK_BITS as int }),
            None => if rotation::revolution_bits(events).len() < rotation::MIN_REVOLUTION_BITS {
                Err(ErrorView::Protocol("flux stream did not contain a complete revolution"@))
            } else {
                Ok((rotation::revolution_bits(events), rotation::has_index(events)))
            },
        }
    }
}

/// Whether a capture holds exactly `cells`.
pub open spec fn holds(capture: RawCapture, cells: Seq<bool>, index_aligned: bool) -> bool {
    &&& packed::packs(capture.words@, cells)
    &&& capture.bit_len == cells.len()
    &&& capture.index_aligned == index_aligned
}

/// A revolution proved by its overlap is long enough, and shorter than what it
/// was cut from.
pub proof fn lemma_join_in_capture(bits: Seq<bool>, high_density: bool)
    requires
        !overlap::too_short(bits.len() as int, high_density),
    ensures
        match overlap::proven_join(bits, high_density) {
            Some(join) => 80_000 <= join <= bits.len(),
            None => true,
        },
{
    let lower = overlap::shortest_join(high_density);
    let upper = overlap::longest_join(bits.len() as int, high_density);
    overlap::lemma_best_join(bits, 0, lower, upper);
    overlap::lemma_best_join(bits, overlap::JOIN_SECOND_ANCHOR as int, lower, upper);
    overlap::lemma_best_join(bits, overlap::JOIN_THIRD_ANCHOR as int, lower, upper);
}

/// Every revolution that can be cut out of a stream is a valid capture.
pub proof fn law_cut_revolution_is_valid(
    events: Seq<FluxEvent>,
    mode: ReadMode,
    high_density: bool,
    capture: RawCapture,
)
    requires
        revolution_of(events, mode, high_density) matches Ok(cut) && holds(capture, cut.0, cut.1),
    ensures
        capture_problem(capture.words@, capture.bit_len as int) is None,
{
    if mode == ReadMode::Fast {
        lemma_join_in_capture(
            rotation::decoded(pll::PllState::centred(), events),
            high_density,
        );
    }
}

/// Cuts one revolution out of a stream of transitions.
pub fn cut_revolution(events: &[FluxEvent], mode: ReadMode, high_density: bool) -> (result: Result<
    RawCapture,
>)
    ensures
        match revolution_of(events@, mode, high_density) {
            Ok(cut) => result matches Ok(capture) && holds(capture, cut.0, cut.1),
            Err(expected) => result matches Err(error) && error@ == expected,
        },
{
    let capture = if mode == ReadMode::Fast {
        match flux_to_unaligned_revolution(events, high_density) {
            Ok((words, bit_len)) => RawCapture { words, bit_len, index_aligned: false },
            Err(error) => return Err(error),
        }
    } else {
        match flux_to_revolution(events) {
            Ok((words, bit_len, index_aligned)) => RawCapture { words, bit_len, index_aligned },
            Err(error) => return Err(error),
        }
    };
    proof {
        law_cut_revolution_is_valid(events@, mode, high_density, capture);
    }
    match validate_capture(&capture) {
        Ok(()) => Ok(capture),
        Err(error) => Err(error),
    }
}

/// The cells of a capture that is still arriving, if they fit a track.
pub open spec fn cells_so_far(events: Seq<FluxEvent>) -> Option<Seq<bool>> {
    if events.len() == 0 || rotation::oversize(pll::PllState::centred(), events) is Some {
        None
    } else {
        Some(rotation::decoded(pll::PllState::centred(), events))
    }
}

/// Decodes a capture that is still arriving.
pub fn track_so_far(events: &[FluxEvent]) -> (result: Option<RawCapture>)
    ensures
        match cells_so_far(events@) {
            Some(cells) => result matches Some(capture) && holds(capture, cells, false),
            None => result is None,
        },
{
    if events.len() == 0 {
        return None;
    }
    let mut pll = PllDecoder::new();
    assert(events@.subrange(0, events@.len() as int) == events@);
    match decode_bounded(&mut pll, events, 0, events.len()) {
        Ok(bits) => Some(
            RawCapture { words: pack_bits(&bits), bit_len: bits.len(), index_aligned: false },
        ),
        Err(_) => None,
    }
}

/// Whether a firmware version is older than another: the major numbers
/// decide, then the minor ones.
pub open spec fn older(version: (u8, u8), minimum: (u8, u8)) -> bool {
    version.0 < minimum.0 || (version.0 == minimum.0 && version.1 < minimum.1)
}

/// Compares two firmware versions.
pub fn firmware_before(version: (u8, u8), minimum: (u8, u8)) -> (before: bool)
    ensures
        before == older(version, minimum),
{
    version.0 < minimum.0 || (version.0 == minimum.0 && version.1 < minimum.1)
}

/// Firmware versions compare by their major numbers first: no minor number
/// makes up for an older major one, and of two versions exactly one is older
/// unless they are the same.
pub proof fn law_firmware_versions_are_ordered(left: (u8, u8), right: (u8, u8))
    ensures
        left.0 < right.0 ==> older(left, right),
        older(left, right) || older(right, left) || left == right,
        !(older(left, right) && older(right, left)),
{
}

/// The nearest track a mechanism with `max_cylinders` can reach.
pub open spec fn clamped(track: TrackAddress, max_cylinders: u8) -> TrackAddress {
    TrackAddress {
        cylinder: if track.cylinder < max_cylinders {
            track.cylinder
        } else if max_cylinders == 0 {
            0
        } else {
            (max_cylinders - 1) as u8
        },
        side: track.side,
    }
}

/// Limits a track to the cylinders of a mechanism.
pub fn clamp_track(track: TrackAddress, max_cylinders: u8) -> (result: TrackAddress)
    ensures
        result == clamped(track, max_cylinders),
{
    let last = max_cylinders.saturating_sub(1);
    TrackAddress {
        cylinder: if track.cylinder < last {
            track.cylinder
        } else {
            last
        },
        side: track.side,
    }
}

/// A clamped track is within the mechanism, on the side that was asked for, and
/// a track that is within it already stays as it is.
pub proof fn law_clamped_track_is_reachable(track: TrackAddress, max_cylinders: u8)
    requires
        max_cylinders > 0,
    ensures
        clamped(track, max_cylinders).cylinder < max_cylinders,
        clamped(track, max_cylinders).side == track.side,
        track.cylinder < max_cylinders ==> clamped(track, max_cylinders) == track,
{
}

/// Bus type and unit number of a drive-select line: one for the IBM PC bus,
/// two for Shugart.
pub open spec fn bus_and_unit(line: DriveSelect) -> (u8, u8) {
    match line {
        DriveSelect::PcA => (1, 0),
        DriveSelect::PcB => (1, 1),
        DriveSelect::Shugart0 => (2, 0),
        DriveSelect::Shugart1 => (2, 1),
        DriveSelect::Shugart2 => (2, 2),
        DriveSelect::Shugart3 => (2, 3),
    }
}

/// Returns the bus type and unit number of a drive-select line.
pub fn drive_selection(line: DriveSelect) -> (selection: (u8, u8))
    ensures
        selection == bus_and_unit(line),
{
    match line {
        DriveSelect::PcA => (1, 0),
        DriveSelect::PcB => (1, 1),
        DriveSelect::Shugart0 => (2, 0),
        DriveSelect::Shugart1 => (2, 1),
        DriveSelect::Shugart2 => (2, 2),
        DriveSelect::Shugart3 => (2, 3),
    }
}

/// The text a port is recognised by, in lower case.
pub open spec fn product_text(port: PortInfoView) -> Seq<char> {
    text::lowered(
        match port.product {
            Some(product) => product,
            None => port.display_name,
        },
    )
}

/// How likely a port is to hold a driver's interface; zero rules it out.
pub open spec fn likelihood(driver: DriverKind, port: PortInfoView) -> u8 {
    let product = product_text(port);
    match driver {
        DriverKind::Greaseweazle => if (port.vid == Some(0x1209u16) && port.pid == Some(0x4d69u16))
            || text::occurs(product, "greaseweazle"@) {
            100
        } else {
            0
        },
        DriverKind::SuperCardPro => if text::occurs(product, "supercard"@) || text::occurs(
            product,
            "scp-jim"@,
        ) {
            100
        } else {
            0
        },
        DriverKind::DrawBridge => if ("ftdi:"@).is_prefix_of(port.id) {
            90
        } else if text::occurs(product, "greaseweazle"@) || text::occurs(product, "supercard"@) || (
        port.vid == Some(0x1a86u16) && port.pid == Some(0x7523u16)) {
            0
        } else if port.vid is Some {
            20
        } else {
            5
        },
    }
}

/// Whether a port reports the given USB identifiers.
fn has_usb_id(port: &PortInfo, vid: u16, pid: u16) -> (result: bool)
    ensures
        result == (port.vid == Some(vid) && port.pid == Some(pid)),
{
    match (port.vid, port.pid) {
        (Some(v), Some(p)) => v == vid && p == pid,
        _ => false,
    }
}

/// Scores how likely a port is to hold a driver's interface.
pub fn port_score(driver: DriverKind, port: &PortInfo) -> (score: u8)
    ensures
        score == likelihood(driver, port@),
{
    let product = match &port.product {
        Some(product) => lower_characters(product),
        None => lower_characters(&port.display_name),
    };
    match driver {
        DriverKind::Greaseweazle => {
            if has_usb_id(port, 0x1209, 0x4d69) || contains_text(&product, "greaseweazle") {
                100
            } else {
                0
            }
        },
        DriverKind::SuperCardPro => {
            if contains_text(&product, "supercard") || contains_text(&product, "scp-jim") {
                100
            } else {
                0
            }
        },
        DriverKind::DrawBridge => {
            if port.id.is_direct_ftdi() {
                90
            } else if contains_text(&product, "greaseweazle") || contains_text(
                &product,
                "supercard",
            ) || has_usb_id(port, 0x1a86, 0x7523) {
                0
            } else if port.vid.is_some() {
                20
            } else {
                5
            }
        },
    }
}

/// Views of a list of ports.
pub open spec fn port_views(ports: Seq<PortInfo>) -> Seq<PortInfoView> {
    ports.map_values(|port: PortInfo| port@)
}

/// Ports of one exact score, in the order they were found.
pub open spec fn scoring(driver: DriverKind, ports: Seq<PortInfoView>, score: u8) -> Seq<
    PortInfoView,
> {
    ports.filter(|port: PortInfoView| likelihood(driver, port) == score)
}

/// Ports scoring from `top` down to one, best first; ports of equal score stay
/// in the order they were found.
pub open spec fn ranked(driver: DriverKind, ports: Seq<PortInfoView>, top: u8) -> Seq<PortInfoView>
    decreases top,
{
    if top == 0 {
        Seq::empty()
    } else {
        scoring(driver, ports, top) + ranked(driver, ports, (top - 1) as u8)
    }
}

/// Candidates come best first, and every one of them can hold the interface.
pub proof fn law_candidates_are_ranked(driver: DriverKind, ports: Seq<PortInfoView>, top: u8)
    ensures
        forall|i: int|
            0 <= i < ranked(driver, ports, top).len() ==> 0 < likelihood(
                driver,
                #[trigger] ranked(driver, ports, top)[i],
            ) <= top,
        forall|i: int, j: int|
            0 <= i < j < ranked(driver, ports, top).len() ==> likelihood(
                driver,
                #[trigger] ranked(driver, ports, top)[i],
            ) >= likelihood(driver, #[trigger] ranked(driver, ports, top)[j]),
    decreases top,
{
    if top > 0 {
        let best = scoring(driver, ports, top);
        let rest = ranked(driver, ports, (top - 1) as u8);
        let whole = ranked(driver, ports, top);
        law_candidates_are_ranked(driver, ports, (top - 1) as u8);
        broadcast use vstd::seq_lib::group_filter_ensures;
        assert forall|i: int| 0 <= i < best.len() implies likelihood(driver, #[trigger] best[i])
            == top by {
            assert(ports.filter(|port: PortInfoView| likelihood(driver, port) == top).contains(
                best[i],
            ));
        }
        assert forall|i: int| 0 <= i < whole.len() implies 0 < likelihood(
            driver,
            #[trigger] whole[i],
        ) <= top by {
            if i < best.len() {
                assert(whole[i] == best[i]);
            } else {
                assert(whole[i] == rest[i - best.len()]);
            }
        }
        assert forall|i: int, j: int| 0 <= i < j < whole.len() implies likelihood(
            driver,
            #[trigger] whole[i],
        ) >= likelihood(driver, #[trigger] whole[j]) by {
            if i < best.len() {
                assert(whole[i] == best[i]);
            } else {
                assert(whole[i] == rest[i - best.len()]);
                assert(whole[j] == rest[j - best.len()]);
            }
        }
    }
}

/// A port is a candidate exactly if it can hold the interface.
pub proof fn law_every_likely_port_is_tried(
    driver: DriverKind,
    ports: Seq<PortInfoView>,
    port: PortInfoView,
    top: u8,
)
    requires
        ports.contains(port),
        0 < likelihood(driver, port) <= top,
    ensures
        ranked(driver, ports, top).contains(port),
    decreases top,
{
    let best = scoring(driver, ports, top);
    let rest = ranked(driver, ports, (top - 1) as u8);
    let whole = ranked(driver, ports, top);
    if likelihood(driver, port) == top {
        let chosen = |port: PortInfoView| likelihood(driver, port) == top;
        let at = choose|i: int| 0 <= i < ports.len() && ports[i] == port;
        assert(chosen(ports[at]));
        ports.lemma_filter_contains(chosen, at);
        assert(best.contains(port));
        let i = choose|i: int| 0 <= i < best.len() && best[i] == port;
        assert(whole[i] == port);
    } else {
        law_every_likely_port_is_tried(driver, ports, port, (top - 1) as u8);
        let i = choose|i: int| 0 <= i < rest.len() && rest[i] == port;
        assert(whole[best.len() + i] == port);
    }
}

/// Appends the ports of one exact score.
fn append_scoring(driver: DriverKind, ports: &[PortInfo], score: u8, out: &mut Vec<PortInfo>)
    ensures
        port_views(final(out)@) == port_views(old(out)@) + scoring(
            driver,
            port_views(ports@),
            score,
        ),
{
    let ghost start = port_views(out@);
    let ghost views = port_views(ports@);
    let ghost wanted = |port: PortInfoView| likelihood(driver, port) == score;
    let mut i: usize = 0;
    assert(views.take(0) == Seq::<PortInfoView>::empty());
    proof {
        reveal(Seq::filter);
    }
    assert(port_views(out@) == start + views.take(0).filter(wanted));
    while i < ports.len()
        invariant
            i <= ports@.len(),
            views == port_views(ports@),
            wanted == (|port: PortInfoView| likelihood(driver, port) == score),
            port_views(out@) == start + views.take(i as int).filter(wanted),
        decreases ports@.len() - i,
    {
        let ghost before = views.take(i as int);
        let ghost now = views.take(i + 1);
        assert(now.drop_last() == before);
        assert(now.last() == ports@[i as int]@);
        proof {
            reveal(Seq::filter);
        }
        if port_score(driver, &ports[i]) == score {
            let ghost old_out = out@;
            out.push(ports[i].clone());
            assert(port_views(out@) == port_views(old_out).push(ports@[i as int]@));
            assert(now.filter(wanted) == before.filter(wanted).push(ports@[i as int]@));
            assert(start + now.filter(wanted) == (start + before.filter(wanted)).push(
                ports@[i as int]@,
            ));
        } else {
            assert(now.filter(wanted) == before.filter(wanted));
        }
        i += 1;
    }
    assert(views.take(views.len() as int) == views);
}

/// Orders visible ports by how likely they are to hold a driver's interface,
/// leaving out those that cannot.
pub fn rank_candidates(driver: DriverKind, ports: &[PortInfo]) -> (result: Vec<PortInfo>)
    ensures
        port_views(result@) == ranked(driver, port_views(ports@), 255),
{
    let mut out: Vec<PortInfo> = Vec::new();
    let mut score: u8 = 255;
    let ghost views = port_views(ports@);
    assert(port_views(out@) + ranked(driver, views, 255) == ranked(driver, views, 255));
    while score > 0
        invariant
            views == port_views(ports@),
            port_views(out@) + ranked(driver, views, score) == ranked(driver, views, 255),
        decreases score,
    {
        let ghost before = port_views(out@);
        append_scoring(driver, ports, score, &mut out);
        assert(port_views(out@) + ranked(driver, views, (score - 1) as u8) == before + (scoring(
            driver,
            views,
            score,
        ) + ranked(driver, views, (score - 1) as u8)));
        score -= 1;
    }
    assert(port_views(out@) == ranked(driver, views, 255));
    out
}

/// The single candidate of an exact selection.
pub open spec fn exact_view(id: Seq<char>) -> PortInfoView {
    PortInfoView {
        id,
        display_name: id,
        vid: None,
        pid: None,
        serial_number: None,
        product: None,
    }
}

/// Ports to try for a configuration, in order.
///
/// An exact selection is the only candidate, whether or not it is visible.
pub fn candidates(config: &BridgeConfig, visible: &[PortInfo]) -> (result: Vec<PortInfo>)
    ensures
        port_views(result@) == match config.port {
            PortSelection::Exact(id) => seq![exact_view(id@)],
            PortSelection::Auto => ranked(config.driver, port_views(visible@), 255),
        },
{
    match &config.port {
        PortSelection::Exact(id) => {
            let only = PortInfo {
                id: id.clone(),
                display_name: id.as_str().to_owned(),
                vid: None,
                pid: None,
                serial_number: None,
                product: None,
            };
            let result = vec![only];
            assert(port_views(result@) == seq![exact_view(id@)]);
            result
        },
        PortSelection::Auto => rank_candidates(config.driver, visible),
    }
}

/// Progress of trying candidate ports one after another.
#[derive(Debug)]
pub struct OpenAttempt {
    driver: DriverKind,
    exact: bool,
    last_error: Option<Error>,
}

impl OpenAttempt {
    /// The driver sought.
    pub closed spec fn driver(self) -> DriverKind {
        self.driver
    }

    /// Whether only one port may be used.
    pub closed spec fn exact(self) -> bool {
        self.exact
    }

    /// The failure of the latest candidate, if any has failed.
    pub closed spec fn last_error(self) -> Option<ErrorView> {
        match self.last_error {
            Some(error) => Some(error@),
            None => None,
        }
    }

    /// Starts trying candidates, which an automatic selection needs at least
    /// one of.
    pub fn start(config: &BridgeConfig, candidate_count: usize) -> (result: Result<OpenAttempt>)
        ensures
            match result {
                Ok(attempt) => {
                    &&& candidate_count > 0
                    &&& attempt.driver() == config.driver
                    &&& attempt.exact() == (config.port is Exact)
                    &&& attempt.last_error() is None
                },
                Err(error) => candidate_count == 0 && error@ == ErrorView::PortNotFound(
                    "no candidate ports are visible for "@ + config.driver.token(),
                ),
            },
    {
        if candidate_count == 0 {
            let mut message = "no candidate ports are visible for ".to_owned();
            message.append(config.driver.as_str());
            return Err(Error::PortNotFound(message));
        }
        let exact = match &config.port {
            PortSelection::Exact(_) => true,
            PortSelection::Auto => false,
        };
        Ok(OpenAttempt { driver: config.driver, exact, last_error: None })
    }

    /// Notes that a candidate could not be opened; an exact selection fails
    /// with it, an automatic one goes on to the next.
    pub fn failed(&mut self, error: Error) -> (result: Result<()>)
        ensures
            final(self).driver() == old(self).driver(),
            final(self).exact() == old(self).exact(),
            if old(self).exact() {
                &&& result matches Err(reported)
                &&& reported@ == error@
                &&& final(self).last_error() == old(self).last_error()
            } else {
                &&& result is Ok
                &&& final(self).last_error() == Some(error@)
            },
    {
        if self.exact {
            return Err(error);
        }
        self.last_error = Some(error);
        Ok(())
    }

    /// The error of an attempt whose candidates have all failed.
    pub fn exhausted(self) -> (error: Error)
        ensures
            error@ == match self.last_error() {
                Some(last) => last,
                None => ErrorView::PortNotFound(
                    "no "@ + self.driver().token() + " interface responded"@,
                ),
            },
    {
        match self.last_error {
            Some(error) => error,
            None => {
                let mut message = "no ".to_owned();
                message.append(self.driver.as_str());
                message.append(" interface responded");
                Error::PortNotFound(message)
            },
        }
    }
}

/// What to do to the lines of a transport.
#[derive(Debug, Clone, Copy, PartialEq, Eq, Structural)]
pub enum LineStep {
    /// Set the data-terminal-ready line.
    Dtr(bool),
    /// Set the request-to-send line.
    Rts(bool),
    /// Wait for some milliseconds.
    Pause(u64),
    /// Discard whatever was received or is still to be sent.
    Purge,
}

/// How opening goes on after an interface was asked who it is.
#[derive(Debug)]
pub enum Greeting<T> {
    /// Go on with what it answered.
    Proceed(T),
    /// Recover, and ask once more.
    Again,
    /// Fail.
    Fail(Error),
}

/// Decides how opening goes on: an interface that does not answer its first
/// greeting gets one more.
pub fn greeted<T>(attempt: u8, answer: Result<T>) -> (greeting: Greeting<T>)
    ensures
        match answer {
            Ok(value) => greeting == Greeting::Proceed(value),
            Err(error) => if attempt == 0 {
                greeting == Greeting::<T>::Again
            } else {
                greeting matches Greeting::Fail(reported) && reported@ == error@
            },
        },
{
    match answer {
        Ok(value) => Greeting::Proceed(value),
        Err(error) => if attempt == 0 {
            Greeting::Again
        } else {
            Greeting::Fail(error)
        },
    }
}

/// A port that calls itself an interface of another kind is not taken for a
/// DrawBridge, unless it is opened as a direct one.
pub proof fn law_recognised_port_is_not_mistaken(port: PortInfoView)
    requires
        !("ftdi:"@).is_prefix_of(port.id),
        text::occurs(product_text(port), "greaseweazle"@) || text::occurs(
            product_text(port),
            "supercard"@,
        ),
    ensures
        likelihood(DriverKind::DrawBridge, port) == 0,
        likelihood(DriverKind::Greaseweazle, port) == 100 || likelihood(
            DriverKind::SuperCardPro,
            port,
        ) == 100,
{
}

/// No two lines are the same unit of the same bus.
pub proof fn law_lines_are_apart(left: DriveSelect, right: DriveSelect)
    ensures
        bus_and_unit(left) == bus_and_unit(right) ==> left == right,
        bus_and_unit(left).0 == 1 <==> left == DriveSelect::PcA || left == DriveSelect::PcB,
        bus_and_unit(left).1 < 4,
{
}

/// A version is older than another where it is the smaller number, the major part
/// counting 256 times the minor one.
pub proof fn law_versions_compare_as_numbers(left: (u8, u8), right: (u8, u8))
    ensures
        older(left, right) <==> left.0 * 256 + left.1 < right.0 * 256 + right.1,
{
}

} // verus!
