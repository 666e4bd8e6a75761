//! The virtual network interface.

use crate::document::lemma_lookup_at;
use crate::document::table_view;
use crate::document::Lookup;
use crate::document::Value;
use crate::document::ValueView;
use crate::error::outcome_view;
use crate::error::ConfigError;
use crate::error::ConfigErrorView;
use crate::error::Field;
use std::convert::From;
use tun_tap::Mode;
use vstd::prelude::*;
use vstd::std_specs::convert::FromSpecImpl;

verus! {

/// The kind of virtual interface that the daemon opens.
#[derive(Clone, Copy, Debug, Ord, PartialOrd, Eq, PartialEq, Structural)]
pub enum InterfaceConfigMode {
    Tap,
    Tun,
}

impl InterfaceConfigMode {
    /// The mode that `name` names: `tap` or `tun`.
    pub open spec fn of_name(name: Seq<char>) -> Option<InterfaceConfigMode> {
        if name == "tap"@ {
            Some(InterfaceConfigMode::Tap)
        } else if name == "tun"@ {
            Some(InterfaceConfigMode::Tun)
        } else {
            None
        }
    }

    /// The name of the mode in a document.
    pub open spec fn spec_name(self) -> Seq<char> {
        match self {
            InterfaceConfigMode::Tap => "tap"@,
            InterfaceConfigMode::Tun => "tun"@,
        }
    }

    /// The name of a mode names that mode.
    pub proof fn lemma_round_trip(self)
        ensures
            InterfaceConfigMode::of_name(self.spec_name()) == Some(self),
    {
        reveal_strlit("tap");
        reveal_strlit("tun");
        assert("tap"@[1] != "tun"@[1]);
    }

    /// Reads a mode from its name.
    pub fn from_name(name: &String) -> (mode: Option<InterfaceConfigMode>)
        ensures
            mode == InterfaceConfigMode::of_name(name@),
    {
        if *name == String::from_str("tap") {
            Some(InterfaceConfigMode::Tap)
        } else if *name == String::from_str("tun") {
            Some(InterfaceConfigMode::Tun)
        } else {
            None
        }
    }

    /// The name of the mode in a document.
    pub fn name(self) -> (name: &'static str)
        ensures
            name@ == self.spec_name(),
    {
        match self {
            InterfaceConfigMode::Tap => "tap",
            InterfaceConfigMode::Tun => "tun",
        }
    }
}

impl From<InterfaceConfigMode> for Mode {
    fn from(mode: InterfaceConfigMode) -> (opened: Mode) {
        match mode {
            InterfaceConfigMode::Tap => Mode::Tap,
            InterfaceConfigMode::Tun => Mode::Tun,
        }
    }
}

impl FromSpecImpl<InterfaceConfigMode> for Mode {
    open spec fn obeys_from_spec() -> bool {
        true
    }

    open spec fn from_spec(mode: InterfaceConfigMode) -> Mode {
        match mode {
            InterfaceConfigMode::Tap => Mode::Tap,
            InterfaceConfigMode::Tun => Mode::Tun,
        }
    }
}

/// The virtual interface: its kind, the pattern of its name, and its MTU.
#[derive(Clone, Debug)]
pub struct InterfaceConfig {
    pub mode: InterfaceConfigMode,
    pub name: String,
    pub mtu: u32,
}

/// The mathematical model of an [`InterfaceConfig`].
pub struct InterfaceView {
    pub mode: InterfaceConfigMode,
    pub name: Seq<char>,
    pub mtu: u32,
}

impl InterfaceView {
    /// The interface of a document that does not describe one: a TAP device
    /// named by the pattern `bw%d`, with an MTU of 1400.
    pub open spec fn default_view() -> InterfaceView {
        InterfaceView { mode: InterfaceConfigMode::Tap, name: "bw%d"@, mtu: 1400 }
    }
}

impl InterfaceView {
    /// The interface that a table of a document describes. A field that is
    /// missing takes its default; one of the wrong kind, a mode that is
    /// neither `tap` nor `tun`, or an MTU out of range, is an error at that
    /// field.
    pub open spec fn from_document(doc: ValueView) -> Result<InterfaceView, ConfigErrorView> {
        let mode = doc.text("mode"@);
        let name = doc.text("name"@);
        let mtu = doc.integer("mtu"@, 0, 0xffff_ffff);
        if !(doc is Table) {
            Err(ConfigErrorView::MalformedDocument(Field::Interface))
        } else if mode is Mismatch || (mode matches Lookup::Found(text)
            && InterfaceConfigMode::of_name(text) is None) {
            Err(ConfigErrorView::MalformedDocument(Field::InterfaceMode))
        } else if name is Mismatch {
            Err(ConfigErrorView::MalformedDocument(Field::InterfaceName))
        } else if mtu is Mismatch {
            Err(ConfigErrorView::MalformedDocument(Field::InterfaceMtu))
        } else {
            Ok(
                InterfaceView {
                    mode: match mode {
                        Lookup::Found(text) => InterfaceConfigMode::of_name(text).unwrap(),
                        _ => InterfaceConfigMode::Tap,
                    },
                    name: name.or("bw%d"@),
                    mtu: mtu.or(1400) as u32,
                },
            )
        }
    }

    /// The table that describes the interface, with every field written out.
    pub open spec fn to_document(self) -> ValueView {
        ValueView::Table(
            seq![
                ("mode"@, ValueView::Text(self.mode.spec_name())),
                ("name"@, ValueView::Text(self.name)),
                ("mtu"@, ValueView::Integer(self.mtu as int)),
            ],
        )
    }

    /// Reading the table that describes an interface gives the interface back.
    pub proof fn lemma_round_trip(self)
        ensures
            InterfaceView::from_document(self.to_document()) == Ok::<
                InterfaceView,
                ConfigErrorView,
            >(self),
    {
        reveal_strlit("mode");
        reveal_strlit("name");
        reveal_strlit("mtu");
        assert("mode"@.len() == 4 && "name"@.len() == 4 && "mtu"@.len() == 3);
        assert("mode"@[0] != "name"@[0]);
        self.mode.lemma_round_trip();
        let entries = self.to_document()->Table_0;
        lemma_lookup_at(entries, "mode"@, 0);
        lemma_lookup_at(entries, "name"@, 1);
        lemma_lookup_at(entries, "mtu"@, 2);
    }
}

impl View for InterfaceConfig {
    type V = InterfaceView;

    open spec fn view(&self) -> InterfaceView {
        InterfaceView { mode: self.mode, name: self.name@, mtu: self.mtu }
    }
}

impl InterfaceConfig {
    /// The name pattern of an interface that is given none.
    pub fn default_name() -> (name: String)
        ensures
            name@ == "bw%d"@,
    {
        String::from_str("bw%d")
    }

    /// The MTU of an interface that is given none.
    pub fn default_mtu() -> (mtu: u32)
        ensures
            mtu == 1400,
    {
        1400
    }

    /// The mode of an interface that is given none.
    pub fn default_mode() -> (mode: InterfaceConfigMode)
        ensures
            mode == InterfaceConfigMode::Tap,
    {
        InterfaceConfigMode::Tap
    }
}

impl InterfaceConfig {
    /// Reads the interface from its table in a document.
    pub fn from_document(doc: &Value) -> (interface: Result<InterfaceConfig, ConfigError>)
        ensures
            outcome_view(interface) == InterfaceView::from_document(doc@),
    {
        if !doc.is_table() {
            return Err(ConfigError::MalformedDocument(Field::Interface));
        }
        let mode = match doc.get_text("mode") {
            Lookup::Missing => InterfaceConfig::default_mode(),
            Lookup::Found(text) => match InterfaceConfigMode::from_name(text) {
                Some(mode) => mode,
                None => {
                    return Err(ConfigError::MalformedDocument(Field::InterfaceMode));
                },
            },
            Lookup::Mismatch => {
                return Err(ConfigError::MalformedDocument(Field::InterfaceMode));
            },
        };
        let name = match doc.get_text("name") {
            Lookup::Missing => InterfaceConfig::default_name(),
            Lookup::Found(text) => text.clone(),
            Lookup::Mismatch => {
                return Err(ConfigError::MalformedDocument(Field::InterfaceName));
            },
        };
        let mtu = match doc.get_integer("mtu", 0, 0xffff_ffff) {
            Lookup::Missing => InterfaceConfig::default_mtu(),
            Lookup::Found(number) => number as u32,
            Lookup::Mismatch => {
                return Err(ConfigError::MalformedDocument(Field::InterfaceMtu));
            },
        };
        Ok(InterfaceConfig { mode, name, mtu })
    }

    /// Writes the interface as a table of a document.
    pub fn to_document(&self) -> (doc: Value)
        ensures
            doc@ == self@.to_document(),
    {
        let entries = vec![
            Value::entry("mode", Value::Text(String::from_str(self.mode.name()))),
            Value::entry("name", Value::Text(self.name.clone())),
            Value::entry("mtu", Value::Integer(self.mtu as i64)),
        ];
        proof {
            assert(table_view(entries@) =~= self@.to_document()->Table_0);
        }
        Value::table(entries)
    }
}

impl Default for InterfaceConfig {
    fn default() -> (config: InterfaceConfig)
        ensures
            config@ == InterfaceView::default_view(),
    {
        InterfaceConfig {
            mode: InterfaceConfig::default_mode(),
            name: InterfaceConfig::default_name(),
            mtu: InterfaceConfig::default_mtu(),
        }
    }
}

} // verus!
