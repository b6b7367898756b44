//! Public value types.

use vstd::prelude::*;

use crate::error::{Error, ErrorView, Result};
use crate::text;
use crate::text::{begins_with, characters, is_white_space, quoted, same_text, to_lower};

verus! {

/// Optional facilities implemented by a bridge driver.
#[derive(Debug, Clone, Copy, PartialEq, Eq, Hash, Structural)]
pub struct Capabilities {
    /// Automatic serial-port discovery.
    pub auto_detect_port: bool,
    /// IBM PC Drive A/Drive B cable selection.
    pub pc_drive_select: bool,
    /// Shugart drive-select lines 0 through 3.
    pub shugart_drive_select: bool,
    /// High-density media.
    pub high_density: bool,
    /// Direct access to an FTDI USB interface.
    pub direct_ftdi: bool,
}

impl Capabilities {
    /// The stable numeric form of a set of facilities.
    pub open spec fn numeric(self) -> int {
        (if self.auto_detect_port {
            2int
        } else {
            0
        }) + (if self.pc_drive_select {
            4int
        } else {
            0
        }) + (if self.shugart_drive_select {
            8int
        } else {
            0
        }) + (if self.high_density {
            16int
        } else {
            0
        }) + (if self.direct_ftdi {
            32int
        } else {
            0
        })
    }

    /// Returns the stable numeric form: one bit per facility.
    pub fn bits(self) -> (bits: u32)
        ensures
            bits == self.numeric(),
    {
        (if self.auto_detect_port {
            2u32
        } else {
            0
        }) + (if self.pc_drive_select {
            4u32
        } else {
            0
        }) + (if self.shugart_drive_select {
            8u32
        } else {
            0
        }) + (if self.high_density {
            16u32
        } else {
            0
        }) + (if self.direct_ftdi {
            32u32
        } else {
            0
        })
    }

    /// Whether every facility of `other` is among these.
    pub open spec fn includes(self, other: Capabilities) -> bool {
        &&& other.auto_detect_port ==> self.auto_detect_port
        &&& other.pc_drive_select ==> self.pc_drive_select
        &&& other.shugart_drive_select ==> self.shugart_drive_select
        &&& other.high_density ==> self.high_density
        &&& other.direct_ftdi ==> self.direct_ftdi
    }

    /// Returns whether every facility of `other` is among these.
    pub fn contains(self, other: Capabilities) -> (result: bool)
        ensures
            result == self.includes(other),
    {
        (!other.auto_detect_port || self.auto_detect_port) && (!other.pc_drive_select
            || self.pc_drive_select) && (!other.shugart_drive_select || self.shugart_drive_select)
            && (!other.high_density || self.high_density) && (!other.direct_ftdi
            || self.direct_ftdi)
    }
}

/// A supported hardware protocol.
#[derive(Debug, Clone, Copy, PartialEq, Eq, Hash, Structural)]
#[non_exhaustive]
pub enum DriverKind {
    /// DrawBridge/Arduino floppy interfaces.
    DrawBridge,
    /// Greaseweazle interfaces.
    Greaseweazle,
    /// SuperCard Pro interfaces.
    SuperCardPro,
}

/// Whether a character counts when a driver is named.
pub open spec fn counts_in_name(c: char) -> bool {
    c != ' ' && c != '-' && c != '_'
}

/// A driver name without separators, in lower case.
pub open spec fn normalized_name(name: Seq<char>) -> Seq<char> {
    text::lowered(name.filter(|c: char| counts_in_name(c)))
}

/// A name of lower-case letters is its own normal form.
proof fn lemma_plain_name(name: Seq<char>)
    requires
        forall|i: int| 0 <= i < name.len() ==> 'a' <= #[trigger] name[i] <= 'z',
    ensures
        normalized_name(name) == name,
    decreases name.len(),
{
    reveal(Seq::filter);
    if name.len() > 0 {
        let shorter = name.drop_last();
        assert forall|i: int| 0 <= i < shorter.len() implies 'a' <= #[trigger] shorter[i]
            <= 'z' by {
            assert(shorter[i] == name[i]);
        }
        lemma_plain_name(shorter);
        let kept = |c: char| counts_in_name(c);
        assert('a' <= name[name.len() - 1] <= 'z');
        assert(name.filter(kept) == shorter.filter(kept).push(name.last()));
        assert(text::lowered(name.filter(kept)) == text::lowered(shorter.filter(kept)).push(
            text::lower(name.last()),
        ));
        assert(shorter.push(name.last()) == name);
    } else {
        assert(name.filter(|c: char| counts_in_name(c)) == Seq::<char>::empty());
        assert(text::lowered(Seq::<char>::empty()) == name);
    }
}

/// The stable token of a driver names that driver.
pub proof fn law_token_names_its_driver(kind: DriverKind)
    ensures
        DriverKind::named(kind.token()) == Some(kind),
{
    reveal_strlit("drawbridge");
    reveal_strlit("arduino");
    reveal_strlit("greaseweazle");
    reveal_strlit("supercardpro");
    reveal_strlit("scp");
    lemma_plain_name(kind.token());
    assert("greaseweazle"@[0] != "supercardpro"@[0]);
}

impl DriverKind {
    /// The stable configuration token.
    pub open spec fn token(self) -> Seq<char> {
        match self {
            DriverKind::DrawBridge => "drawbridge"@,
            DriverKind::Greaseweazle => "greaseweazle"@,
            DriverKind::SuperCardPro => "supercardpro"@,
        }
    }

    /// The driver a name stands for, if any.
    pub open spec fn named(name: Seq<char>) -> Option<DriverKind> {
        let plain = normalized_name(name);
        if plain == "drawbridge"@ || plain == "arduino"@ {
            Some(DriverKind::DrawBridge)
        } else if plain == "greaseweazle"@ {
            Some(DriverKind::Greaseweazle)
        } else if plain == "supercardpro"@ || plain == "scp"@ {
            Some(DriverKind::SuperCardPro)
        } else {
            None
        }
    }

    /// Returns the stable configuration token.
    pub fn as_str(self) -> (token: &'static str)
        ensures
            token@ == self.token(),
    {
        match self {
            DriverKind::DrawBridge => "drawbridge",
            DriverKind::Greaseweazle => "greaseweazle",
            DriverKind::SuperCardPro => "supercardpro",
        }
    }

    /// Reads a driver name, ignoring case, spaces, hyphens, and underscores.
    ///
    /// Only ASCII letters are folded: no other character folds to a letter of
    /// these names.
    pub fn parse(value: &str) -> (result: Result<DriverKind>)
        ensures
            match DriverKind::named(value@) {
                Some(kind) => result matches Ok(found) && found == kind,
                None => result matches Err(error) && error@ == ErrorView::InvalidConfig(
                    "unknown driver kind "@ + text::debug_text(value@),
                ),
            },
    {
        let source = characters(value);
        let ghost wanted = |c: char| counts_in_name(c);
        let mut plain: Vec<char> = Vec::new();
        let mut i: usize = 0;
        assert(source@.take(0) == Seq::<char>::empty());
        proof {
            reveal_with_fuel(Seq::filter, 2);
        }
        assert(plain@ == text::lowered(source@.take(0).filter(wanted)));
        while i < source.len()
            invariant
                i <= source@.len(),
                wanted == (|c: char| counts_in_name(c)),
                plain@ == text::lowered(source@.take(i as int).filter(wanted)),
            decreases source@.len() - i,
        {
            let ghost before = source@.take(i as int);
            let ghost now = source@.take(i + 1);
            let c = source[i];
            assert(now.drop_last() == before);
            assert(now.last() == c);
            proof {
                reveal_with_fuel(Seq::filter, 2);
            }
            if c != ' ' && c != '-' && c != '_' {
                let ghost old_plain = plain@;
                plain.push(to_lower(c));
                assert(now.filter(wanted) == before.filter(wanted).push(c));
                assert(plain@ == text::lowered(now.filter(wanted)));
            } else {
                assert(now.filter(wanted) == before.filter(wanted));
            }
            i += 1;
        }
        assert(source@.take(source@.len() as int) == source@);
        if same_text(&plain, "drawbridge") || same_text(&plain, "arduino") {
            Ok(DriverKind::DrawBridge)
        } else if same_text(&plain, "greaseweazle") {
            Ok(DriverKind::Greaseweazle)
        } else if same_text(&plain, "supercardpro") || same_text(&plain, "scp") {
            Ok(DriverKind::SuperCardPro)
        } else {
            let mut message = "unknown driver kind ".to_owned();
            message.append(&quoted(value));
            Err(Error::InvalidConfig(message))
        }
    }
}

impl core::str::FromStr for DriverKind {
    type Err = Error;

    fn from_str(value: &str) -> (result: Result<DriverKind>)
        ensures
            match DriverKind::named(value@) {
                Some(kind) => result matches Ok(found) && found == kind,
                None => result matches Err(error) && error@ == ErrorView::InvalidConfig(
                    "unknown driver kind "@ + text::debug_text(value@),
                ),
            },
    {
        DriverKind::parse(value)
    }
}

/// Static description of a driver.
#[derive(Debug, Clone, Copy, PartialEq, Eq)]
pub struct DriverInfo {
    /// Stable driver identifier.
    pub kind: DriverKind,
    /// User-facing name.
    pub name: &'static str,
    /// Hardware manufacturer or project.
    pub manufacturer: &'static str,
    /// Project information URL.
    pub url: &'static str,
    /// Optional facilities supported by the driver.
    pub capabilities: Capabilities,
}

/// The facilities of a driver.
pub open spec fn driver_capabilities(kind: DriverKind) -> Capabilities {
    match kind {
        DriverKind::DrawBridge => Capabilities {
            auto_detect_port: true,
            pc_drive_select: false,
            shugart_drive_select: false,
            high_density: true,
            direct_ftdi: true,
        },
        DriverKind::Greaseweazle => Capabilities {
            auto_detect_port: true,
            pc_drive_select: true,
            shugart_drive_select: true,
            high_density: true,
            direct_ftdi: false,
        },
        DriverKind::SuperCardPro => Capabilities {
            auto_detect_port: true,
            pc_drive_select: true,
            shugart_drive_select: false,
            high_density: true,
            direct_ftdi: false,
        },
    }
}

/// Whether `info` describes the driver `kind`.
pub open spec fn describes(info: DriverInfo, kind: DriverKind) -> bool {
    &&& info.kind == kind
    &&& info.capabilities == driver_capabilities(kind)
    &&& info.name@ == match kind {
        DriverKind::DrawBridge => "DrawBridge"@,
        DriverKind::Greaseweazle => "Greaseweazle"@,
        DriverKind::SuperCardPro => "SuperCard Pro"@,
    }
    &&& info.manufacturer@ == match kind {
        DriverKind::DrawBridge => "RobSmithDev"@,
        DriverKind::Greaseweazle => "Keir Fraser"@,
        DriverKind::SuperCardPro => "CBMSTUFF.COM"@,
    }
    &&& info.url@ == match kind {
        DriverKind::DrawBridge => "https://amiga.robsmithdev.co.uk/"@,
        DriverKind::Greaseweazle => "https://github.com/keirf/greaseweazle"@,
        DriverKind::SuperCardPro => "https://www.cbmstuff.com/"@,
    }
}

/// Returns descriptions of the supported drivers, most mature first.
pub fn drivers() -> (table: Vec<DriverInfo>)
    ensures
        table@.len() == 3,
        describes(table@[0], DriverKind::Greaseweazle),
        describes(table@[1], DriverKind::DrawBridge),
        describes(table@[2], DriverKind::SuperCardPro),
{
    vec![
        DriverInfo {
            kind: DriverKind::Greaseweazle,
            name: "Greaseweazle",
            manufacturer: "Keir Fraser",
            url: "https://github.com/keirf/greaseweazle",
            capabilities: Capabilities {
                auto_detect_port: true,
                pc_drive_select: true,
                shugart_drive_select: true,
                high_density: true,
                direct_ftdi: false,
            },
        },
        DriverInfo {
            kind: DriverKind::DrawBridge,
            name: "DrawBridge",
            manufacturer: "RobSmithDev",
            url: "https://amiga.robsmithdev.co.uk/",
            capabilities: Capabilities {
                auto_detect_port: true,
                pc_drive_select: false,
                shugart_drive_select: false,
                high_density: true,
                direct_ftdi: true,
            },
        },
        DriverInfo {
            kind: DriverKind::SuperCardPro,
            name: "SuperCard Pro",
            manufacturer: "CBMSTUFF.COM",
            url: "https://www.cbmstuff.com/",
            capabilities: Capabilities {
                auto_detect_port: true,
                pc_drive_select: true,
                shugart_drive_select: false,
                high_density: true,
                direct_ftdi: false,
            },
        },
    ]
}

/// A stable serial or direct-FTDI port identifier.
#[derive(Debug, PartialEq, Eq, Hash, PartialOrd, Ord)]
pub struct PortId {
    text: String,
}

/// Whether a text can identify a port: not blank, and without NUL.
pub open spec fn identifies_port(value: Seq<char>) -> bool {
    &&& exists|i: int| 0 <= i < value.len() && !text::is_space(#[trigger] value[i])
    &&& forall|i: int| 0 <= i < value.len() ==> #[trigger] value[i] != '\0'
}

impl View for PortId {
    type V = Seq<char>;

    closed spec fn view(&self) -> Seq<char> {
        self.text@
    }
}

impl Clone for PortId {
    fn clone(&self) -> (copy: Self)
        ensures
            copy@ == self@,
    {
        proof {
            use_type_invariant(self);
        }
        PortId { text: self.text.clone() }
    }
}

impl PortId {
    #[verifier::type_invariant]
    spec fn acceptable(self) -> bool {
        identifies_port(self.text@)
    }

    /// Creates an identifier from a system port path or FluxBridge `ftdi:`
    /// token.
    pub fn new(value: &str) -> (result: Result<PortId>)
        ensures
            match result {
                Ok(id) => identifies_port(value@) && id@ == value@,
                Err(error) => !identifies_port(value@) && error@ == ErrorView::InvalidConfig(
                    "a port identifier must be non-empty and contain no NUL"@,
                ),
            },
    {
        let chars = characters(value);
        let mut blank = true;
        let mut clean = true;
        let mut i: usize = 0;
        while i < chars.len()
            invariant
                i <= chars@.len(),
                chars@ == value@,
                blank == (forall|j: int| 0 <= j < i ==> text::is_space(#[trigger] chars@[j])),
                clean == (forall|j: int| 0 <= j < i ==> #[trigger] chars@[j] != '\0'),
            decreases chars@.len() - i,
        {
            if !is_white_space(chars[i]) {
                blank = false;
            }
            if chars[i] == '\0' {
                clean = false;
            }
            i += 1;
        }
        if blank || !clean {
            return Err(
                Error::InvalidConfig(
                    "a port identifier must be non-empty and contain no NUL".to_owned(),
                ),
            );
        }
        assert(identifies_port(value@)) by {
            let j = choose|j: int| 0 <= j < chars@.len() && !text::is_space(#[trigger] chars@[j]);
            assert(!text::is_space(value@[j]));
        }
        Ok(PortId { text: value.to_owned() })
    }

    /// Returns the persistent identifier text.
    pub fn as_str(&self) -> (value: &str)
        ensures
            value@ == self@,
            identifies_port(value@),
    {
        proof {
            use_type_invariant(self);
        }
        self.text.as_str()
    }

    /// Returns whether this selects a direct FTDI interface.
    pub fn is_direct_ftdi(&self) -> (direct: bool)
        ensures
            direct == ("ftdi:"@).is_prefix_of(self@),
    {
        begins_with(&characters(self.text.as_str()), "ftdi:")
    }
}

impl core::str::FromStr for PortId {
    type Err = Error;

    fn from_str(value: &str) -> (result: Result<PortId>)
        ensures
            match result {
                Ok(id) => identifies_port(value@) && id@ == value@,
                Err(error) => !identifies_port(value@) && error@ == ErrorView::InvalidConfig(
                    "a port identifier must be non-empty and contain no NUL"@,
                ),
            },
    {
        PortId::new(value)
    }
}

/// Information about an enumerated port.
#[derive(Debug, PartialEq, Eq)]
pub struct PortInfo {
    /// Stable identifier used in [`PortSelection`].
    pub id: PortId,
    /// User-facing port label.
    pub display_name: String,
    /// USB vendor identifier, when reported by the operating system.
    pub vid: Option<u16>,
    /// USB product identifier, when reported by the operating system.
    pub pid: Option<u16>,
    /// USB serial number, when reported.
    pub serial_number: Option<String>,
    /// USB product name, when reported.
    pub product: Option<String>,
}

/// A [`PortInfo`] with its texts as character sequences.
pub struct PortInfoView {
    /// See [`PortInfo::id`].
    pub id: Seq<char>,
    /// See [`PortInfo::display_name`].
    pub display_name: Seq<char>,
    /// See [`PortInfo::vid`].
    pub vid: Option<u16>,
    /// See [`PortInfo::pid`].
    pub pid: Option<u16>,
    /// See [`PortInfo::serial_number`].
    pub serial_number: Option<Seq<char>>,
    /// See [`PortInfo::product`].
    pub product: Option<Seq<char>>,
}

/// An optional text as a character sequence.
pub open spec fn optional_text(value: Option<String>) -> Option<Seq<char>> {
    match value {
        Some(text) => Some(text@),
        None => None,
    }
}

/// Copies an optional text.
pub(crate) fn copy_text(value: &Option<String>) -> (copy: Option<String>)
    ensures
        optional_text(copy) == optional_text(*value),
{
    match value {
        Some(text) => Some(text.clone()),
        None => None,
    }
}

impl Clone for PortInfo {
    fn clone(&self) -> (copy: PortInfo)
        ensures
            copy@ == self@,
    {
        PortInfo {
            id: self.id.clone(),
            display_name: self.display_name.clone(),
            vid: self.vid,
            pid: self.pid,
            serial_number: copy_text(&self.serial_number),
            product: copy_text(&self.product),
        }
    }
}

impl View for PortInfo {
    type V = PortInfoView;

    open spec fn view(&self) -> PortInfoView {
        PortInfoView {
            id: self.id@,
            display_name: self.display_name@,
            vid: self.vid,
            pid: self.pid,
            serial_number: optional_text(self.serial_number),
            product: optional_text(self.product),
        }
    }
}

/// How a bridge port is selected.
#[derive(Debug, Clone, PartialEq, Eq, Default)]
pub enum PortSelection {
    /// Probe suitable visible ports with bounded timeouts.
    #[default]
    Auto,
    /// Open one exact port and do not fall back to another.
    Exact(PortId),
}

/// Capture strategy.
#[derive(Debug, Clone, Copy, PartialEq, Eq, Default, Structural)]
pub enum ReadMode {
    /// Capture without waiting for the index pulse.
    Fast,
    /// Capture an index-aligned revolution.
    #[default]
    Compatible,
    /// Wait briefly for a capture when none is already ready.
    Stalling,
}

/// Media density selection.
#[derive(Debug, Clone, Copy, PartialEq, Eq, Default, Structural)]
pub enum DensityMode {
    /// Detect density from the interface and disk.
    #[default]
    Auto,
    /// Force double density.
    Double,
    /// Force high density.
    High,
}

/// Physical drive-select line.
#[derive(Debug, Clone, Copy, PartialEq, Eq, Default, Structural)]
pub enum DriveSelect {
    /// IBM PC Drive A.
    #[default]
    PcA,
    /// IBM PC Drive B.
    PcB,
    /// Shugart select 0.
    Shugart0,
    /// Shugart select 1.
    Shugart1,
    /// Shugart select 2.
    Shugart2,
    /// Shugart select 3.
    Shugart3,
}

impl DriveSelect {
    /// The name of a drive-select line.
    pub open spec fn label(self) -> Seq<char> {
        match self {
            DriveSelect::PcA => "PcA"@,
            DriveSelect::PcB => "PcB"@,
            DriveSelect::Shugart0 => "Shugart0"@,
            DriveSelect::Shugart1 => "Shugart1"@,
            DriveSelect::Shugart2 => "Shugart2"@,
            DriveSelect::Shugart3 => "Shugart3"@,
        }
    }

    /// Returns the name of this drive-select line.
    pub fn name(self) -> (name: &'static str)
        ensures
            name@ == self.label(),
    {
        match self {
            DriveSelect::PcA => "PcA",
            DriveSelect::PcB => "PcB",
            DriveSelect::Shugart0 => "Shugart0",
            DriveSelect::Shugart1 => "Shugart1",
            DriveSelect::Shugart2 => "Shugart2",
            DriveSelect::Shugart3 => "Shugart3",
        }
    }
}

/// A disk surface.
#[derive(Debug, Clone, Copy, PartialEq, Eq, Hash, Default, Structural)]
pub enum Side {
    /// Lower surface, conventionally side 0.
    #[default]
    Lower,
    /// Upper surface, conventionally side 1.
    Upper,
}

impl Side {
    /// Returns the conventional numeric side.
    pub fn number(self) -> (number: u8)
        ensures
            number == (if self == Side::Lower {
                0u8
            } else {
                1u8
            }),
    {
        match self {
            Side::Lower => 0,
            Side::Upper => 1,
        }
    }
}

impl From<bool> for Side {
    fn from(value: bool) -> (side: Side) {
        if value {
            Side::Upper
        } else {
            Side::Lower
        }
    }
}

impl vstd::std_specs::convert::FromSpecImpl<bool> for Side {
    open spec fn obeys_from_spec() -> bool {
        true
    }

    open spec fn from_spec(value: bool) -> Side {
        if value {
            Side::Upper
        } else {
            Side::Lower
        }
    }
}

impl From<Side> for bool {
    fn from(value: Side) -> (upper: bool) {
        value == Side::Upper
    }
}

impl vstd::std_specs::convert::FromSpecImpl<Side> for bool {
    open spec fn obeys_from_spec() -> bool {
        true
    }

    open spec fn from_spec(value: Side) -> bool {
        value == Side::Upper
    }
}

/// A physical cylinder and side.
#[derive(Debug, Clone, Copy, PartialEq, Eq, Hash, Default, Structural)]
pub struct TrackAddress {
    /// Zero-based cylinder.
    pub cylinder: u8,
    /// Disk surface.
    pub side: Side,
}

/// Physical drive mechanism reported by the interface.
#[derive(Debug, Clone, Copy, PartialEq, Eq, Default, Structural)]
pub enum DriveType {
    /// 3.5-inch double-density drive.
    #[default]
    Dd35,
    /// 3.5-inch high-density drive, also able to use DD media.
    Hd35,
    /// 5.25-inch single-density drive.
    Sd525,
}

/// Configuration used to open one bridge.
#[derive(Debug, Clone, PartialEq, Eq)]
pub struct BridgeConfig {
    /// Hardware protocol.
    pub driver: DriverKind,
    /// Capture strategy.
    pub mode: ReadMode,
    /// Density selection.
    pub density: DensityMode,
    /// Physical drive-select line.
    pub drive: DriveSelect,
    /// Port selection.
    pub port: PortSelection,
    /// Whether idle time is spent capturing other tracks.
    pub auto_cache: bool,
    /// Maximum duration for a stalling read, in nanoseconds.
    pub stall_timeout: u64,
}

impl Default for BridgeConfig {
    fn default() -> (config: BridgeConfig)
        ensures
            config.driver == DriverKind::DrawBridge,
            config.mode == ReadMode::Compatible,
            config.density == DensityMode::Auto,
            config.drive == DriveSelect::PcA,
            config.port == PortSelection::Auto,
            !config.auto_cache,
            config.stall_timeout == 450_000_000,
    {
        BridgeConfig {
            driver: DriverKind::DrawBridge,
            mode: ReadMode::Compatible,
            density: DensityMode::Auto,
            drive: DriveSelect::PcA,
            port: PortSelection::Auto,
            auto_cache: false,
            stall_timeout: 450_000_000,
        }
    }
}

/// The first description of `kind` in a driver table.
pub open spec fn find_driver(table: Seq<DriverInfo>, kind: DriverKind) -> Option<DriverInfo>
    decreases table.len(),
{
    if table.len() == 0 {
        None
    } else if table[0].kind == kind {
        Some(table[0])
    } else {
        find_driver(table.drop_first(), kind)
    }
}

/// Whether a drive-select line is available with some facilities.
pub open spec fn line_supported(drive: DriveSelect, capabilities: Capabilities) -> bool {
    match drive {
        DriveSelect::PcA => true,
        DriveSelect::PcB => capabilities.pc_drive_select,
        _ => capabilities.shugart_drive_select,
    }
}

impl BridgeConfig {
    /// Why this configuration does not suit a driver table, if it does not.
    pub open spec fn problem(self, table: Seq<DriverInfo>) -> Option<ErrorView> {
        match find_driver(table, self.driver) {
            None => Some(
                ErrorView::InvalidConfig(self.driver.token() + " support is not compiled in"@),
            ),
            Some(info) => if !line_supported(self.drive, info.capabilities) {
                Some(
                    ErrorView::InvalidConfig(
                        self.driver.token() + " does not support "@ + self.drive.label(),
                    ),
                )
            } else if self.density == DensityMode::High && !info.capabilities.high_density {
                Some(
                    ErrorView::InvalidConfig(
                        self.driver.token() + " does not support high-density media"@,
                    ),
                )
            } else if self.stall_timeout == 0 {
                Some(ErrorView::InvalidConfig("stall timeout must be greater than zero"@))
            } else {
                None
            },
        }
    }

    /// Validates this configuration against a driver table.
    pub fn validate_against(&self, table: &[DriverInfo]) -> (result: Result<()>)
        ensures
            match self.problem(table@) {
                Some(expected) => result matches Err(error) && error@ == expected,
                None => result is Ok,
            },
    {
        let mut i: usize = 0;
        assert(table@.skip(0) == table@);
        while i < table.len() && table[i].kind != self.driver
            invariant
                i <= table@.len(),
                find_driver(table@, self.driver) == find_driver(table@.skip(i as int), self.driver),
            decreases table@.len() - i,
        {
            assert(table@.skip(i as int).drop_first() == table@.skip(i + 1));
            i += 1;
        }
        if i == table.len() {
            let mut message = self.driver.as_str().to_owned();
            message.append(" support is not compiled in");
            return Err(Error::InvalidConfig(message));
        }
        let capabilities = table[i].capabilities;
        let supported = match self.drive {
            DriveSelect::PcA => true,
            DriveSelect::PcB => capabilities.pc_drive_select,
            DriveSelect::Shugart0
            | DriveSelect::Shugart1
            | DriveSelect::Shugart2
            | DriveSelect::Shugart3 => capabilities.shugart_drive_select,
        };
        if !supported {
            let mut message = self.driver.as_str().to_owned();
            message.append(" does not support ");
            message.append(self.drive.name());
            return Err(Error::InvalidConfig(message));
        }
        if self.density == DensityMode::High && !capabilities.high_density {
            let mut message = self.driver.as_str().to_owned();
            message.append(" does not support high-density media");
            return Err(Error::InvalidConfig(message));
        }
        if self.stall_timeout == 0 {
            return Err(
                Error::InvalidConfig("stall timeout must be greater than zero".to_owned()),
            );
        }
        Ok(())
    }

    /// Validates this configuration against the selected driver.
    pub fn validate(&self) -> (result: Result<()>)
        ensures
            if !line_supported(self.drive, driver_capabilities(self.driver)) {
                result matches Err(error) && error@ == ErrorView::InvalidConfig(
                    self.driver.token() + " does not support "@ + self.drive.label(),
                )
            } else if self.stall_timeout == 0 {
                result matches Err(error) && error@ == ErrorView::InvalidConfig(
                    "stall timeout must be greater than zero"@,
                )
            } else {
                result is Ok
            },
    {
        let table = drivers();
        proof {
            reveal_with_fuel(find_driver, 4);
        }
        self.validate_against(&table)
    }
}

/// Whether a capture can safely be replayed as a ring.
#[derive(Debug, Clone, Copy, PartialEq, Eq, Structural)]
pub enum CaptureQuality {
    /// The interface captured from one index pulse to the next.
    IndexAligned,
    /// An index-less capture decoded as a complete valid AmigaDOS track.
    VerifiedAmigaDos {
        /// Number of distinct valid sectors.
        sectors: u8,
    },
    /// The join could not be proven seamless; consume this capture once.
    Unverified,
}

impl CaptureQuality {
    /// Returns whether the capture can be retained and replayed.
    pub fn reusable(self) -> (reusable: bool)
        ensures
            reusable == (self != CaptureQuality::Unverified),
    {
        match self {
            CaptureQuality::Unverified => false,
            _ => true,
        }
    }
}

/// One complete captured revolution.
#[derive(Debug, PartialEq, Eq)]
pub struct TrackCapture {
    words: Vec<u16>,
    bit_len: usize,
    quality: CaptureQuality,
    generation: u64,
}

/// A [`TrackCapture`] with its words as a sequence.
pub struct TrackCaptureView {
    /// Packed, most-significant-bit-first MFM words.
    pub words: Seq<u16>,
    /// Exact number of meaningful bits.
    pub bit_len: int,
    /// Validation result for the revolution boundary.
    pub quality: CaptureQuality,
    /// Monotonic capture number.
    pub generation: int,
}

impl View for TrackCapture {
    type V = TrackCaptureView;

    closed spec fn view(&self) -> TrackCaptureView {
        TrackCaptureView {
            words: self.words@,
            bit_len: self.bit_len as int,
            quality: self.quality,
            generation: self.generation as int,
        }
    }
}

impl Clone for TrackCapture {
    fn clone(&self) -> (copy: TrackCapture)
        ensures
            copy@ == self@,
    {
        let words = self.words.clone();
        assert(words@ == self.words@);
        TrackCapture {
            words,
            bit_len: self.bit_len,
            quality: self.quality,
            generation: self.generation,
        }
    }
}

impl TrackCapture {
    /// Assembles a capture.
    pub fn new(
        words: Vec<u16>,
        bit_len: usize,
        quality: CaptureQuality,
        generation: u64,
    ) -> (capture: TrackCapture)
        ensures
            capture@ == (TrackCaptureView {
                words: words@,
                bit_len: bit_len as int,
                quality,
                generation: generation as int,
            }),
    {
        TrackCapture { words, bit_len, quality, generation }
    }

    /// Packed, most-significant-bit-first MFM words.
    pub fn words(&self) -> (words: &[u16])
        ensures
            words@ == self@.words,
    {
        self.words.as_slice()
    }

    /// Consumes the capture and returns its packed MFM words.
    pub fn into_words(self) -> (words: Vec<u16>)
        ensures
            words@ == self@.words,
    {
        self.words
    }

    /// Exact number of meaningful bits before the revolution wraps.
    pub fn bit_len(&self) -> (bits: usize)
        ensures
            bits == self@.bit_len,
    {
        self.bit_len
    }

    /// Validation result for the revolution boundary.
    pub fn quality(&self) -> (quality: CaptureQuality)
        ensures
            quality == self@.quality,
    {
        self.quality
    }

    /// Monotonic capture number assigned by this bridge.
    pub fn generation(&self) -> (generation: u64)
        ensures
            generation == self@.generation,
    {
        self.generation
    }
}

/// Snapshot of the most recently observed drive state.
#[derive(Debug, Clone, Copy, PartialEq, Eq, Structural)]
pub struct DriveStatus {
    /// Worker and transport are healthy.
    pub working: bool,
    /// Drive is ready for track operations.
    pub ready: bool,
    /// A disk is present.
    pub disk_present: bool,
    /// The disk's write-protect tab is closed.
    pub write_protected: bool,
    /// The motor is running.
    pub motor_running: bool,
    /// Last confirmed physical cylinder.
    pub cylinder: u8,
    /// Last confirmed surface.
    pub side: Side,
    /// Drive mechanism type.
    pub drive_type: DriveType,
    /// Highest addressable cylinder count.
    pub max_cylinders: u8,
}

impl DriveStatus {
    /// The state assumed of a drive before it has been asked.
    pub open spec fn assumed() -> DriveStatus {
        DriveStatus {
            working: true,
            ready: false,
            disk_present: false,
            write_protected: true,
            motor_running: false,
            cylinder: 0,
            side: Side::Lower,
            drive_type: DriveType::Dd35,
            max_cylinders: 84,
        }
    }
}

impl Default for DriveStatus {
    fn default() -> (status: DriveStatus)
        ensures
            status == DriveStatus::assumed(),
    {
        DriveStatus {
            working: true,
            ready: false,
            disk_present: false,
            write_protected: true,
            motor_running: false,
            cylinder: 0,
            side: Side::Lower,
            drive_type: DriveType::Dd35,
            max_cylinders: 84,
        }
    }
}

/// Identifier assigned to an asynchronous write.
#[derive(Debug, Clone, Copy, PartialEq, Eq, Hash, Structural)]
pub struct WriteId(pub(crate) u64);

impl WriteId {
    /// The bridge-local numeric identifier.
    pub closed spec fn value(self) -> u64 {
        self.0
    }

    /// Returns the bridge-local numeric identifier.
    pub fn get(self) -> (value: u64)
        ensures
            value == self.value(),
    {
        self.0
    }

    /// Numbers a write.
    pub(crate) fn numbered(value: u64) -> (id: WriteId)
        ensures
            id.value() == value,
    {
        WriteId(value)
    }
}

/// An asynchronous write request.
#[derive(Debug, Clone, PartialEq, Eq)]
pub struct WriteRequest {
    /// Destination track.
    pub track: TrackAddress,
    /// Packed, most-significant-bit-first MFM words.
    pub words: Vec<u16>,
    /// Exact number of meaningful bits in `words`.
    pub bit_len: usize,
    /// Rotational bit position at which writing began.
    pub start_bit: usize,
}

/// An event produced by the worker.
#[derive(Debug)]
#[non_exhaustive]
pub enum BridgeEvent {
    /// The interface observed a disk insertion or removal.
    DiskChanged {
        /// Whether a disk is now present.
        present: bool,
    },
    /// A submitted write completed on the device.
    WriteCompleted {
        /// Write identifier.
        id: WriteId,
        /// Destination track.
        track: TrackAddress,
        /// Number of bits physically submitted.
        bit_len: usize,
    },
    /// A submitted write failed after it had been accepted.
    WriteFailed {
        /// Write identifier.
        id: WriteId,
        /// Destination track.
        track: TrackAddress,
        /// Failure.
        error: Error,
    },
    /// The interface disconnected or the worker stopped.
    Disconnected(Error),
}

/// A [`BridgeEvent`] with its error viewed.
pub enum BridgeEventView {
    /// See [`BridgeEvent::DiskChanged`].
    DiskChanged { present: bool },
    /// See [`BridgeEvent::WriteCompleted`].
    WriteCompleted { id: WriteId, track: TrackAddress, bit_len: int },
    /// See [`BridgeEvent::WriteFailed`].
    WriteFailed { id: WriteId, track: TrackAddress, error: ErrorView },
    /// See [`BridgeEvent::Disconnected`].
    Disconnected(ErrorView),
}

impl View for BridgeEvent {
    type V = BridgeEventView;

    open spec fn view(&self) -> BridgeEventView {
        match *self {
            BridgeEvent::DiskChanged { present } => BridgeEventView::DiskChanged { present },
            BridgeEvent::WriteCompleted { id, track, bit_len } => {
                BridgeEventView::WriteCompleted { id, track, bit_len: bit_len as int }
            },
            BridgeEvent::WriteFailed { id, track, error } => BridgeEventView::WriteFailed {
                id,
                track,
                error: error@,
            },
            BridgeEvent::Disconnected(error) => BridgeEventView::Disconnected(error@),
        }
    }
}

/// Every facility has a bit of its own in the numeric form.
pub proof fn law_facilities_have_bits(capabilities: Capabilities)
    ensures
        capabilities.numeric() % 2 == 0,
        capabilities.numeric() / 2 % 2 == 1 <==> capabilities.auto_detect_port,
        capabilities.numeric() / 4 % 2 == 1 <==> capabilities.pc_drive_select,
        capabilities.numeric() / 8 % 2 == 1 <==> capabilities.shugart_drive_select,
        capabilities.numeric() / 16 % 2 == 1 <==> capabilities.high_density,
        capabilities.numeric() / 32 == 1 <==> capabilities.direct_ftdi,
        capabilities.numeric() < 64,
{
}

/// A DrawBridge has one drive, a SuperCard Pro the two of a PC cable, and a
/// Greaseweazle every line.
pub proof fn law_lines_of_a_driver(kind: DriverKind, drive: DriveSelect)
    ensures
        line_supported(drive, driver_capabilities(kind)) <==> match kind {
            DriverKind::DrawBridge => drive == DriveSelect::PcA,
            DriverKind::SuperCardPro => drive == DriveSelect::PcA || drive == DriveSelect::PcB,
            DriverKind::Greaseweazle => true,
        },
{
}

} // verus!
