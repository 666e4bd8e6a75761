//! The selection of the packet router.

use crate::document::lemma_lookup_at;
use crate::document::lemma_lookup_none;
use crate::document::table_view;
use crate::document::Lookup;
use crate::document::Value;
use crate::document::ValueView;
use crate::error::outcome_view;
use crate::error::ConfigError;
use crate::error::ConfigErrorView;
use crate::error::Field;
use vstd::prelude::*;

verus! {

/// The strategy that routes packets: the one built in, or a Python script.
#[derive(Clone, Copy, Debug, PartialEq, Eq, Structural)]
pub enum RouterChoice {
    Dumb,
    Python,
}

impl RouterChoice {
    /// The router that `name` names: `dumb` or `python`.
    pub open spec fn of_name(name: Seq<char>) -> Option<RouterChoice> {
        if name == "dumb"@ {
            Some(RouterChoice::Dumb)
        } else if name == "python"@ {
            Some(RouterChoice::Python)
        } else {
            None
        }
    }

    /// The name of the router in a document.
    pub open spec fn spec_name(self) -> Seq<char> {
        match self {
            RouterChoice::Dumb => "dumb"@,
            RouterChoice::Python => "python"@,
        }
    }

    /// The name of a router names that router.
    pub proof fn lemma_round_trip(self)
        ensures
            RouterChoice::of_name(self.spec_name()) == Some(self),
    {
        reveal_strlit("dumb");
        reveal_strlit("python");
        assert("dumb"@.len() == 4 && "python"@.len() == 6);
    }

    /// Reads a router from its name.
    pub fn from_name(name: &String) -> (choice: Option<RouterChoice>)
        ensures
            choice == RouterChoice::of_name(name@),
    {
        if *name == String::from_str("dumb") {
            Some(RouterChoice::Dumb)
        } else if *name == String::from_str("python") {
            Some(RouterChoice::Python)
        } else {
            None
        }
    }

    /// The name of the router in a document.
    pub fn name(self) -> (name: &'static str)
        ensures
            name@ == self.spec_name(),
    {
        match self {
            RouterChoice::Dumb => "dumb",
            RouterChoice::Python => "python",
        }
    }
}

/// What the scripted router needs: the path of its script.
#[derive(Clone, Debug)]
pub struct PythonRouterConfig {
    pub script: String,
}

/// The router in use, and the script where one was given.
#[derive(Clone, Debug)]
pub struct RouterConfig {
    pub name: RouterChoice,
    pub python: Option<PythonRouterConfig>,
}

/// The mathematical model of a [`RouterConfig`]; `python` is the script's path.
pub struct RouterView {
    pub name: RouterChoice,
    pub python: Option<Seq<char>>,
}

impl RouterView {
    /// The router of a document that does not select one: the built-in one,
    /// without a script.
    pub open spec fn default_view() -> RouterView {
        RouterView { name: RouterChoice::Dumb, python: None }
    }
}

impl RouterView {
    /// Whether the router has what it needs: the scripted router has a
    /// script.
    pub open spec fn well_formed(self) -> bool {
        self.name == RouterChoice::Python ==> self.python is Some
    }

    /// The router that a table of a document describes. A missing name
    /// selects the built-in router, and a name that is not known is
    /// rejected with that name. A script is kept whichever router is
    /// selected; the scripted router cannot do without one.
    pub open spec fn from_document(doc: ValueView) -> Result<RouterView, ConfigErrorView> {
        let name = doc.text("name"@);
        let choice = match name {
            Lookup::Found(text) => RouterChoice::of_name(text),
            _ => Some(RouterChoice::Dumb),
        };
        if !(doc is Table) {
            Err(ConfigErrorView::MalformedDocument(Field::Router))
        } else if name is Mismatch {
            Err(ConfigErrorView::MalformedDocument(Field::RouterName))
        } else if choice is None {
            Err(ConfigErrorView::UnknownVariant(name->Found_0))
        } else {
            match doc.field("python"@) {
                None => if choice == Some(RouterChoice::Python) {
                    Err(ConfigErrorView::MalformedDocument(Field::RouterPython))
                } else {
                    Ok(RouterView { name: choice.unwrap(), python: None })
                },
                Some(payload) => match payload.text("script"@) {
                    Lookup::Found(script) => Ok(
                        RouterView { name: choice.unwrap(), python: Some(script) },
                    ),
                    _ => Err(ConfigErrorView::MalformedDocument(Field::RouterPythonScript)),
                },
            }
        }
    }

    /// The table that describes the router: its name, and the script where
    /// there is one.
    pub open spec fn to_document(self) -> ValueView {
        let entries = seq![("name"@, ValueView::Text(self.name.spec_name()))];
        match self.python {
            Some(script) => ValueView::Table(
                entries.push(
                    ("python"@, ValueView::Table(seq![("script"@, ValueView::Text(script))])),
                ),
            ),
            None => ValueView::Table(entries),
        }
    }

    /// Reading the table that describes a router gives the router back.
    pub proof fn lemma_round_trip(self)
        requires
            self.well_formed(),
        ensures
            RouterView::from_document(self.to_document()) == Ok::<RouterView, ConfigErrorView>(
                self,
            ),
    {
        reveal_strlit("name");
        reveal_strlit("python");
        reveal_strlit("script");
        assert("name"@.len() == 4 && "python"@.len() == 6 && "script"@.len() == 6);
        self.name.lemma_round_trip();
        let entries = self.to_document()->Table_0;
        lemma_lookup_at(entries, "name"@, 0);
        match self.python {
            Some(script) => {
                lemma_lookup_at(entries, "python"@, 1);
                lemma_lookup_at(seq![("script"@, ValueView::Text(script))], "script"@, 0);
            },
            None => {
                lemma_lookup_none(entries, "python"@);
            },
        }
    }
}

impl View for RouterConfig {
    type V = RouterView;

    open spec fn view(&self) -> RouterView {
        RouterView {
            name: self.name,
            python: match self.python {
                Some(payload) => Some(payload.script@),
                None => None,
            },
        }
    }
}

impl RouterConfig {
    /// The router that is used where none is selected.
    pub fn default_name() -> (name: RouterChoice)
        ensures
            name == RouterChoice::Dumb,
    {
        RouterChoice::Dumb
    }

    /// The script of a router that is given none.
    pub fn default_python() -> (python: Option<PythonRouterConfig>)
        ensures
            python is None,
    {
        None
    }
}

impl RouterConfig {
    /// Reads the router from its table in a document.
    pub fn from_document(doc: &Value) -> (router: Result<RouterConfig, ConfigError>)
        ensures
            outcome_view(router) == RouterView::from_document(doc@),
    {
        if !doc.is_table() {
            return Err(ConfigError::MalformedDocument(Field::Router));
        }
        let name = match doc.get_text("name") {
            Lookup::Missing => RouterConfig::default_name(),
            Lookup::Found(text) => match RouterChoice::from_name(text) {
                Some(choice) => choice,
                None => {
                    return Err(ConfigError::UnknownVariant(text.clone()));
                },
            },
            Lookup::Mismatch => {
                return Err(ConfigError::MalformedDocument(Field::RouterName));
            },
        };
        match doc.get("python") {
            None => match name {
                RouterChoice::Python => Err(ConfigError::MalformedDocument(Field::RouterPython)),
                RouterChoice::Dumb => Ok(
                    RouterConfig { name, python: RouterConfig::default_python() },
                ),
            },
            Some(payload) => match payload.get_text("script") {
                Lookup::Found(script) => Ok(
                    RouterConfig {
                        name,
                        python: Some(PythonRouterConfig { script: script.clone() }),
                    },
                ),
                _ => Err(ConfigError::MalformedDocument(Field::RouterPythonScript)),
            },
        }
    }

    /// Writes the router as a table of a document.
    pub fn to_document(&self) -> (doc: Value)
        ensures
            doc@ == self@.to_document(),
    {
        let mut entries = vec![
            Value::entry("name", Value::Text(String::from_str(self.name.name()))),
        ];
        match &self.python {
            Some(payload) => {
                let inner = vec![Value::entry("script", Value::Text(payload.script.clone()))];
                proof {
                    assert(table_view(inner@) =~= seq![
                        ("script"@, ValueView::Text(payload.script@)),
                    ]);
                }
                entries.push(Value::entry("python", Value::table(inner)));
            },
            None => {},
        }
        proof {
            assert(table_view(entries@) =~= self@.to_document()->Table_0);
        }
        Value::table(entries)
    }
}

impl Default for RouterConfig {
    fn default() -> (config: RouterConfig)
        ensures
            config@ == RouterView::default_view(),
    {
        RouterConfig { name: RouterConfig::default_name(), python: RouterConfig::default_python() }
    }
}

} // verus!
