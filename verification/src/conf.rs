//! Configuration of the bar.
//!
//! The configuration file is optional: when it is missing, the hardcoded
//! default is used. An invalid file is a hard error: silently falling back
//! would hide typos from the user. Unknown keys, unknown component names and
//! unknown positions are rejected.

use vstd::prelude::*;
use vstd::utf8::{decode_utf8, valid_utf8};
use crate::bar::BarPosition;
use crate::components::Component;
use crate::text::{chars_eq, chars_of};
use crate::toml_doc::{parse_document, toml_parse, TomlEntry, TomlValue};

verus! {

pub const DEFAULT_BAR_SIZE_PX: usize = 72;

/// The bar thickness used when the configuration names none.
pub fn default_bar_size_px() -> (r: usize)
    ensures
        r == DEFAULT_BAR_SIZE_PX,
{
    72
}

/// The default of the boolean settings that are on unless configured off.
pub fn default_true() -> (r: bool)
    ensures
        r,
{
    true
}

/// Security-related settings.
#[derive(Clone, Copy, Debug, PartialEq, Eq, Structural)]
pub struct Security {
    /// Whether to display custom workspace names (labels) instead of numeric
    /// IDs. Workspace names are untrusted input; when this is off (the safe
    /// default) only the numeric workspace ID is displayed.
    pub should_allow_workspace_label: bool,
}

impl Default for Security {
    fn default() -> (r: Self)
        ensures
            !r.should_allow_workspace_label,
    {
        Security { should_allow_workspace_label: false }
    }
}

/// The whole configuration.
#[derive(Clone, Debug)]
pub struct Config {
    pub position: BarPosition,
    pub bar_size_px: usize,
    /// When a workspace is empty, should it be shown?
    pub should_show_empty_workspace: bool,
    pub components: Vec<Component>,
    pub security: Security,
}

/// A configuration as a mathematical value.
pub struct ConfigModel {
    pub position: BarPosition,
    pub bar_size_px: usize,
    pub should_show_empty_workspace: bool,
    pub components: Seq<Component>,
    pub security: Security,
}

impl View for Config {
    type V = ConfigModel;

    open spec fn view(&self) -> ConfigModel {
        ConfigModel {
            position: self.position,
            bar_size_px: self.bar_size_px,
            should_show_empty_workspace: self.should_show_empty_workspace,
            components: self.components@,
            security: self.security,
        }
    }
}

/// The widgets of the default bar, from top (or left) to bottom (or right).
pub open spec fn default_components_model() -> Seq<Component> {
    seq![
        Component::Logo('\u{f1105}'),
        Component::Workspaces,
        Component::Spacer,
        Component::Battery,
        Component::Wifi,
        Component::Brightness,
        Component::Volume,
        Component::Clock,
    ]
}

/// The configuration used when there is no configuration file.
pub open spec fn hardcoded_model() -> ConfigModel {
    ConfigModel {
        position: BarPosition::Left,
        bar_size_px: DEFAULT_BAR_SIZE_PX,
        should_show_empty_workspace: true,
        components: default_components_model(),
        security: Security { should_allow_workspace_label: false },
    }
}

/// The components of the hardcoded configuration. The workspace strip is
/// among them: every build carries the niri, Hyprland and sway backends.
pub fn default_components() -> (r: Vec<Component>)
    ensures
        r@ == default_components_model(),
{
    let r = vec![
        Component::Logo('\u{f1105}'),
        Component::Workspaces,
        Component::Spacer,
        Component::Battery,
        Component::Wifi,
        Component::Brightness,
        Component::Volume,
        Component::Clock,
    ];
    assert(r@ =~= default_components_model());
    r
}

impl Config {
    pub fn hardcoded() -> (r: Config)
        ensures
            r@ == hardcoded_model(),
    {
        Config {
            should_show_empty_workspace: default_true(),
            position: BarPosition::default(),
            bar_size_px: default_bar_size_px(),
            components: default_components(),
            security: Security::default(),
        }
    }
}

/// A setting of the configuration file.
#[derive(Clone, Copy, Debug, PartialEq, Eq, Structural)]
pub enum ConfigField {
    Position,
    BarSizePx,
    ShouldShowEmptyWorkspace,
    Components,
    Security,
    ShouldAllowWorkspaceLabel,
}

/// Why a configuration file is refused, as a mathematical value.
pub enum ConfigFault {
    /// The text is not a TOML document; the message `toml` gives for it.
    Syntax(Seq<char>),
    /// The file's bytes are not UTF-8, so they are no TOML document either.
    NotUtf8,
    UnknownField(Seq<char>),
    DuplicateField(ConfigField),
    /// The value has the wrong TOML type for the setting.
    InvalidType(ConfigField),
    /// The value has the right type but is out of range or malformed.
    InvalidValue(ConfigField),
    /// A position or component name that does not exist.
    UnknownVariant(Seq<char>),
    MissingField(ConfigField),
}

/// Why a configuration file is refused.
#[derive(Clone, Debug)]
pub enum ConfigError {
    /// The text is not a TOML document; the message gives line and column.
    Syntax(String),
    /// The file's bytes are not UTF-8.
    NotUtf8,
    UnknownField(Vec<char>),
    DuplicateField(ConfigField),
    InvalidType(ConfigField),
    InvalidValue(ConfigField),
    UnknownVariant(Vec<char>),
    MissingField(ConfigField),
}

impl View for ConfigError {
    type V = ConfigFault;

    open spec fn view(&self) -> ConfigFault {
        match self {
            ConfigError::Syntax(m) => ConfigFault::Syntax(m@),
            ConfigError::NotUtf8 => ConfigFault::NotUtf8,
            ConfigError::UnknownField(k) => ConfigFault::UnknownField(k@),
            ConfigError::DuplicateField(f) => ConfigFault::DuplicateField(*f),
            ConfigError::InvalidType(f) => ConfigFault::InvalidType(*f),
            ConfigError::InvalidValue(f) => ConfigFault::InvalidValue(*f),
            ConfigError::UnknownVariant(n) => ConfigFault::UnknownVariant(n@),
            ConfigError::MissingField(f) => ConfigFault::MissingField(*f),
        }
    }
}

/// A result whose error is taken by its view.
pub open spec fn faulted<T>(r: Result<T, ConfigError>) -> Result<T, ConfigFault> {
    match r {
        Ok(x) => Ok(x),
        Err(e) => Err(e@),
    }
}

/// The payload of a variant without data, written as a one-entry table
/// (`{ top = {} }`): an empty table or an empty array.
pub open spec fn unit_payload(v: TomlValue) -> bool {
    match v {
        TomlValue::Array(a) => a@.len() == 0,
        TomlValue::Table(t) => t@.len() == 0,
        _ => false,
    }
}

pub open spec fn position_named(n: Seq<char>) -> Option<BarPosition> {
    if n == "left"@ {
        Some(BarPosition::Left)
    } else if n == "right"@ {
        Some(BarPosition::Right)
    } else if n == "top"@ {
        Some(BarPosition::Top)
    } else if n == "bottom"@ {
        Some(BarPosition::Bottom)
    } else {
        None
    }
}

/// The bar position a value names: a lowercase name, or a one-entry table
/// whose key is the name and whose value is empty.
pub open spec fn position_model(v: TomlValue) -> Result<BarPosition, ConfigFault> {
    match v {
        TomlValue::Str(s) => match position_named(s@) {
            Some(p) => Ok(p),
            None => Err(ConfigFault::UnknownVariant(s@)),
        },
        TomlValue::Table(t) => if t@.len() != 1 {
            Err(ConfigFault::InvalidValue(ConfigField::Position))
        } else {
            match position_named(t@[0].key@) {
                None => Err(ConfigFault::UnknownVariant(t@[0].key@)),
                Some(p) => if unit_payload(t@[0].value) {
                    Ok(p)
                } else {
                    Err(ConfigFault::InvalidValue(ConfigField::Position))
                },
            }
        },
        _ => Err(ConfigFault::InvalidType(ConfigField::Position)),
    }
}

/// The components that carry no data, by name.
pub open spec fn unit_component_named(n: Seq<char>) -> Option<Component> {
    if n == "workspaces"@ {
        Some(Component::Workspaces)
    } else if n == "spacer"@ {
        Some(Component::Spacer)
    } else if n == "battery"@ {
        Some(Component::Battery)
    } else if n == "wifi"@ {
        Some(Component::Wifi)
    } else if n == "brightness"@ {
        Some(Component::Brightness)
    } else if n == "volume"@ {
        Some(Component::Volume)
    } else if n == "clock"@ {
        Some(Component::Clock)
    } else {
        None
    }
}

/// The component a list entry names: a name string, or a one-entry table,
/// `{ logo = "<one character>" }` for the logo and an empty value for the
/// others.
pub open spec fn component_model(v: TomlValue) -> Result<Component, ConfigFault> {
    match v {
        TomlValue::Str(s) => match unit_component_named(s@) {
            Some(c) => Ok(c),
            None => if s@ == "logo"@ {
                Err(ConfigFault::InvalidType(ConfigField::Components))
            } else {
                Err(ConfigFault::UnknownVariant(s@))
            },
        },
        TomlValue::Table(t) => if t@.len() != 1 {
            Err(ConfigFault::InvalidValue(ConfigField::Components))
        } else if t@[0].key@ == "logo"@ {
            match t@[0].value {
                TomlValue::Str(g) => if g@.len() == 1 {
                    Ok(Component::Logo(g@[0]))
                } else {
                    Err(ConfigFault::InvalidValue(ConfigField::Components))
                },
                _ => Err(ConfigFault::InvalidType(ConfigField::Components)),
            }
        } else {
            match unit_component_named(t@[0].key@) {
                None => Err(ConfigFault::UnknownVariant(t@[0].key@)),
                Some(c) => if unit_payload(t@[0].value) {
                    Ok(c)
                } else {
                    Err(ConfigFault::InvalidValue(ConfigField::Components))
                },
            }
        },
        _ => Err(ConfigFault::InvalidType(ConfigField::Components)),
    }
}

/// The components of a list, in order; the first bad entry decides the error.
pub open spec fn components_model(items: Seq<TomlValue>) -> Result<Seq<Component>, ConfigFault>
    decreases items.len(),
{
    if items.len() == 0 {
        Ok(seq![])
    } else {
        match components_model(items.drop_last()) {
            Err(e) => Err(e),
            Ok(cs) => match component_model(items.last()) {
                Ok(c) => Ok(cs.push(c)),
                Err(e) => Err(e),
            },
        }
    }
}

pub open spec fn components_value_model(v: TomlValue) -> Result<Seq<Component>, ConfigFault> {
    match v {
        TomlValue::Array(items) => components_model(items@),
        _ => Err(ConfigFault::InvalidType(ConfigField::Components)),
    }
}

pub open spec fn bool_model(v: TomlValue, field: ConfigField) -> Result<bool, ConfigFault> {
    match v {
        TomlValue::Bool(b) => Ok(b),
        _ => Err(ConfigFault::InvalidType(field)),
    }
}

/// A non-negative integer that fits a `usize`.
pub open spec fn size_model(v: TomlValue) -> Result<usize, ConfigFault> {
    match v {
        TomlValue::Int(i) => if 0 <= i <= usize::MAX {
            Ok(i as usize)
        } else {
            Err(ConfigFault::InvalidValue(ConfigField::BarSizePx))
        },
        _ => Err(ConfigFault::InvalidType(ConfigField::BarSizePx)),
    }
}

/// The `[security]` table read entry by entry: `Ok(None)` until
/// `should_allow_workspace_label` is seen.
pub open spec fn security_entries_model(es: Seq<TomlEntry>) -> Result<Option<bool>, ConfigFault>
    decreases es.len(),
{
    if es.len() == 0 {
        Ok(None)
    } else {
        match security_entries_model(es.drop_last()) {
            Err(e) => Err(e),
            Ok(seen) => if es.last().key@ == "should_allow_workspace_label"@ {
                if seen is Some {
                    Err(ConfigFault::DuplicateField(ConfigField::ShouldAllowWorkspaceLabel))
                } else {
                    match bool_model(es.last().value, ConfigField::ShouldAllowWorkspaceLabel) {
                        Ok(b) => Ok(Some(b)),
                        Err(e) => Err(e),
                    }
                }
            } else {
                Err(ConfigFault::UnknownField(es.last().key@))
            },
        }
    }
}

/// The security settings a value gives: a table holding exactly the setting
/// `should_allow_workspace_label`, or an array whose first element is that
/// setting.
pub open spec fn security_model(v: TomlValue) -> Result<Security, ConfigFault> {
    match v {
        TomlValue::Table(t) => match security_entries_model(t@) {
            Err(e) => Err(e),
            Ok(None) => Err(ConfigFault::MissingField(ConfigField::ShouldAllowWorkspaceLabel)),
            Ok(Some(b)) => Ok(Security { should_allow_workspace_label: b }),
        },
        TomlValue::Array(a) => if a@.len() == 0 {
            Err(ConfigFault::InvalidValue(ConfigField::Security))
        } else {
            match bool_model(a@[0], ConfigField::ShouldAllowWorkspaceLabel) {
                Ok(b) => Ok(Security { should_allow_workspace_label: b }),
                Err(e) => Err(e),
            }
        },
        _ => Err(ConfigFault::InvalidType(ConfigField::Security)),
    }
}

/// The settings a configuration file gave so far.
pub struct ConfigDraft {
    pub position: Option<BarPosition>,
    pub bar_size_px: Option<usize>,
    pub should_show_empty_workspace: Option<bool>,
    pub components: Option<Seq<Component>>,
    pub security: Option<Security>,
}

pub open spec fn empty_draft() -> ConfigDraft {
    ConfigDraft {
        position: None,
        bar_size_px: None,
        should_show_empty_workspace: None,
        components: None,
        security: None,
    }
}

/// One top-level entry applied to the draft.
pub open spec fn draft_step(d: ConfigDraft, e: TomlEntry) -> Result<ConfigDraft, ConfigFault> {
    let k = e.key@;
    if k == "position"@ {
        if d.position is Some {
            Err(ConfigFault::DuplicateField(ConfigField::Position))
        } else {
            match position_model(e.value) {
                Ok(p) => Ok(ConfigDraft { position: Some(p), ..d }),
                Err(x) => Err(x),
            }
        }
    } else if k == "bar_size_px"@ {
        if d.bar_size_px is Some {
            Err(ConfigFault::DuplicateField(ConfigField::BarSizePx))
        } else {
            match size_model(e.value) {
                Ok(n) => Ok(ConfigDraft { bar_size_px: Some(n), ..d }),
                Err(x) => Err(x),
            }
        }
    } else if k == "should_show_empty_workspace"@ {
        if d.should_show_empty_workspace is Some {
            Err(ConfigFault::DuplicateField(ConfigField::ShouldShowEmptyWorkspace))
        } else {
            match bool_model(e.value, ConfigField::ShouldShowEmptyWorkspace) {
                Ok(b) => Ok(ConfigDraft { should_show_empty_workspace: Some(b), ..d }),
                Err(x) => Err(x),
            }
        }
    } else if k == "components"@ {
        if d.components is Some {
            Err(ConfigFault::DuplicateField(ConfigField::Components))
        } else {
            match components_value_model(e.value) {
                Ok(cs) => Ok(ConfigDraft { components: Some(cs), ..d }),
                Err(x) => Err(x),
            }
        }
    } else if k == "security"@ {
        if d.security is Some {
            Err(ConfigFault::DuplicateField(ConfigField::Security))
        } else {
            match security_model(e.value) {
                Ok(s) => Ok(ConfigDraft { security: Some(s), ..d }),
                Err(x) => Err(x),
            }
        }
    } else {
        Err(ConfigFault::UnknownField(k))
    }
}

/// The draft after all entries, in order; the first bad entry decides the
/// error.
pub open spec fn draft_model(es: Seq<TomlEntry>) -> Result<ConfigDraft, ConfigFault>
    decreases es.len(),
{
    if es.len() == 0 {
        Ok(empty_draft())
    } else {
        match draft_model(es.drop_last()) {
            Err(e) => Err(e),
            Ok(d) => draft_step(d, es.last()),
        }
    }
}

/// A setting the file leaves out takes its default.
pub open spec fn config_of_draft(d: ConfigDraft) -> ConfigModel {
    ConfigModel {
        position: match d.position {
            Some(p) => p,
            None => BarPosition::Left,
        },
        bar_size_px: match d.bar_size_px {
            Some(n) => n,
            None => DEFAULT_BAR_SIZE_PX,
        },
        should_show_empty_workspace: match d.should_show_empty_workspace {
            Some(b) => b,
            None => true,
        },
        components: match d.components {
            Some(cs) => cs,
            None => default_components_model(),
        },
        security: match d.security {
            Some(s) => s,
            None => Security { should_allow_workspace_label: false },
        },
    }
}

/// The configuration the top-level entries of a file give.
pub open spec fn config_model(es: Seq<TomlEntry>) -> Result<ConfigModel, ConfigFault> {
    match draft_model(es) {
        Ok(d) => Ok(config_of_draft(d)),
        Err(e) => Err(e),
    }
}

/// The configuration a configuration file's text gives.
pub open spec fn parsed_config(text: Seq<char>) -> Result<ConfigModel, ConfigFault> {
    match toml_parse(text) {
        Err(message) => Err(ConfigFault::Syntax(message)),
        Ok(es) => config_model(es),
    }
}

fn key_is(k: &Vec<char>, word: &str) -> (r: bool)
    ensures
        r == (k@ == word@),
{
    let w = chars_of(word);
    chars_eq(k.as_slice(), w.as_slice())
}

fn is_unit_payload(v: &TomlValue) -> (r: bool)
    ensures
        r == unit_payload(*v),
{
    match v {
        TomlValue::Array(a) => a.len() == 0,
        TomlValue::Table(t) => t.len() == 0,
        _ => false,
    }
}

fn position_of_name(n: &Vec<char>) -> (r: Option<BarPosition>)
    ensures
        r == position_named(n@),
{
    if key_is(n, "left") {
        Some(BarPosition::Left)
    } else if key_is(n, "right") {
        Some(BarPosition::Right)
    } else if key_is(n, "top") {
        Some(BarPosition::Top)
    } else if key_is(n, "bottom") {
        Some(BarPosition::Bottom)
    } else {
        None
    }
}

fn copy_chars(s: &Vec<char>) -> (r: Vec<char>)
    ensures
        r@ == s@,
{
    vstd::slice::slice_to_vec(s.as_slice())
}

pub fn position_from_value(v: &TomlValue) -> (r: Result<BarPosition, ConfigError>)
    ensures
        faulted(r) == position_model(*v),
{
    match v {
        TomlValue::Str(s) => match position_of_name(s) {
            Some(p) => Ok(p),
            None => Err(ConfigError::UnknownVariant(copy_chars(s))),
        },
        TomlValue::Table(t) => {
            if t.len() != 1 {
                return Err(ConfigError::InvalidValue(ConfigField::Position));
            }
            let e = &t[0];
            match position_of_name(&e.key) {
                None => Err(ConfigError::UnknownVariant(copy_chars(&e.key))),
                Some(p) => if is_unit_payload(&e.value) {
                    Ok(p)
                } else {
                    Err(ConfigError::InvalidValue(ConfigField::Position))
                },
            }
        },
        _ => Err(ConfigError::InvalidType(ConfigField::Position)),
    }
}

fn unit_component_of_name(n: &Vec<char>) -> (r: Option<Component>)
    ensures
        r == unit_component_named(n@),
{
    if key_is(n, "workspaces") {
        Some(Component::Workspaces)
    } else if key_is(n, "spacer") {
        Some(Component::Spacer)
    } else if key_is(n, "battery") {
        Some(Component::Battery)
    } else if key_is(n, "wifi") {
        Some(Component::Wifi)
    } else if key_is(n, "brightness") {
        Some(Component::Brightness)
    } else if key_is(n, "volume") {
        Some(Component::Volume)
    } else if key_is(n, "clock") {
        Some(Component::Clock)
    } else {
        None
    }
}

pub fn component_from_value(v: &TomlValue) -> (r: Result<Component, ConfigError>)
    ensures
        faulted(r) == component_model(*v),
{
    match v {
        TomlValue::Str(s) => match unit_component_of_name(s) {
            Some(c) => Ok(c),
            None => if key_is(s, "logo") {
                Err(ConfigError::InvalidType(ConfigField::Components))
            } else {
                Err(ConfigError::UnknownVariant(copy_chars(s)))
            },
        },
        TomlValue::Table(t) => {
            if t.len() != 1 {
                return Err(ConfigError::InvalidValue(ConfigField::Components));
            }
            let e = &t[0];
            if key_is(&e.key, "logo") {
                match &e.value {
                    TomlValue::Str(g) => if g.len() == 1 {
                        Ok(Component::Logo(g[0]))
                    } else {
                        Err(ConfigError::InvalidValue(ConfigField::Components))
                    },
                    _ => Err(ConfigError::InvalidType(ConfigField::Components)),
                }
            } else {
                match unit_component_of_name(&e.key) {
                    None => Err(ConfigError::UnknownVariant(copy_chars(&e.key))),
                    Some(c) => if is_unit_payload(&e.value) {
                        Ok(c)
                    } else {
                        Err(ConfigError::InvalidValue(ConfigField::Components))
                    },
                }
            }
        },
        _ => Err(ConfigError::InvalidType(ConfigField::Components)),
    }
}

proof fn lemma_components_error_sticks(items: Seq<TomlValue>, k: int)
    requires
        0 <= k <= items.len(),
        components_model(items.take(k)) is Err,
    ensures
        components_model(items) == components_model(items.take(k)),
    decreases items.len() - k,
{
    if k < items.len() {
        assert(items.take(k + 1).drop_last() =~= items.take(k));
        lemma_components_error_sticks(items, k + 1);
    } else {
        assert(items.take(k) =~= items);
    }
}

#[verifier::loop_isolation(false)]
pub fn components_from_value(v: &TomlValue) -> (r: Result<Vec<Component>, ConfigError>)
    ensures
        match r {
            Ok(cs) => components_value_model(*v) == Ok::<Seq<Component>, ConfigFault>(cs@),
            Err(e) => components_value_model(*v) == Err::<Seq<Component>, ConfigFault>(e@),
        },
{
    match v {
        TomlValue::Array(items) => {
            let mut out: Vec<Component> = Vec::new();
            let n = items.len();
            assert(items@.take(0) =~= Seq::<TomlValue>::empty());
            for i in 0..n
                invariant
                    n == items@.len(),
                    components_model(items@.take(i as int)) == Ok::<Seq<Component>, ConfigFault>(
                        out@,
                    ),
            {
                assert(items@.take(i + 1).drop_last() =~= items@.take(i as int));
                match component_from_value(&items[i]) {
                    Ok(c) => out.push(c),
                    Err(e) => {
                        proof {
                            lemma_components_error_sticks(items@, i + 1);
                        }
                        return Err(e);
                    },
                }
            }
            assert(items@.take(n as int) =~= items@);
            Ok(out)
        },
        _ => Err(ConfigError::InvalidType(ConfigField::Components)),
    }
}

fn bool_from_value(v: &TomlValue, field: ConfigField) -> (r: Result<bool, ConfigError>)
    ensures
        faulted(r) == bool_model(*v, field),
{
    match v {
        TomlValue::Bool(b) => Ok(*b),
        _ => Err(ConfigError::InvalidType(field)),
    }
}

fn size_from_value(v: &TomlValue) -> (r: Result<usize, ConfigError>)
    ensures
        faulted(r) == size_model(*v),
{
    match v {
        TomlValue::Int(i) => if *i >= 0 && (*i as u64) <= (usize::MAX as u64) {
            Ok(*i as usize)
        } else {
            Err(ConfigError::InvalidValue(ConfigField::BarSizePx))
        },
        _ => Err(ConfigError::InvalidType(ConfigField::BarSizePx)),
    }
}

proof fn lemma_security_error_sticks(es: Seq<TomlEntry>, k: int)
    requires
        0 <= k <= es.len(),
        security_entries_model(es.take(k)) is Err,
    ensures
        security_entries_model(es) == security_entries_model(es.take(k)),
    decreases es.len() - k,
{
    if k < es.len() {
        assert(es.take(k + 1).drop_last() =~= es.take(k));
        lemma_security_error_sticks(es, k + 1);
    } else {
        assert(es.take(k) =~= es);
    }
}

#[verifier::loop_isolation(false)]
pub fn security_from_value(v: &TomlValue) -> (r: Result<Security, ConfigError>)
    ensures
        faulted(r) == security_model(*v),
{
    match v {
        TomlValue::Table(t) => {
            let mut seen: Option<bool> = None;
            let n = t.len();
            assert(t@.take(0) =~= Seq::<TomlEntry>::empty());
            for i in 0..n
                invariant
                    n == t@.len(),
                    security_entries_model(t@.take(i as int)) == Ok::<Option<bool>, ConfigFault>(
                        seen,
                    ),
            {
                assert(t@.take(i + 1).drop_last() =~= t@.take(i as int));
                let e = &t[i];
                if key_is(&e.key, "should_allow_workspace_label") {
                    if seen.is_some() {
                        proof {
                            lemma_security_error_sticks(t@, i + 1);
                        }
                        return Err(
                            ConfigError::DuplicateField(ConfigField::ShouldAllowWorkspaceLabel),
                        );
                    }
                    match bool_from_value(&e.value, ConfigField::ShouldAllowWorkspaceLabel) {
                        Ok(b) => {
                            seen = Some(b);
                        },
                        Err(x) => {
                            proof {
                                lemma_security_error_sticks(t@, i + 1);
                            }
                            return Err(x);
                        },
                    }
                } else {
                    proof {
                        lemma_security_error_sticks(t@, i + 1);
                    }
                    return Err(ConfigError::UnknownField(copy_chars(&e.key)));
                }
            }
            assert(t@.take(n as int) =~= t@);
            match seen {
                Some(b) => Ok(Security { should_allow_workspace_label: b }),
                None => Err(ConfigError::MissingField(ConfigField::ShouldAllowWorkspaceLabel)),
            }
        },
        TomlValue::Array(a) => {
            if a.len() == 0 {
                return Err(ConfigError::InvalidValue(ConfigField::Security));
            }
            match bool_from_value(&a[0], ConfigField::ShouldAllowWorkspaceLabel) {
                Ok(b) => Ok(Security { should_allow_workspace_label: b }),
                Err(e) => Err(e),
            }
        },
        _ => Err(ConfigError::InvalidType(ConfigField::Security)),
    }
}

proof fn lemma_draft_error_sticks(es: Seq<TomlEntry>, k: int)
    requires
        0 <= k <= es.len(),
        draft_model(es.take(k)) is Err,
    ensures
        draft_model(es) == draft_model(es.take(k)),
    decreases es.len() - k,
{
    if k < es.len() {
        assert(es.take(k + 1).drop_last() =~= es.take(k));
        lemma_draft_error_sticks(es, k + 1);
    } else {
        assert(es.take(k) =~= es);
    }
}

/// The configuration the top-level entries of a configuration file give:
/// every setting the file leaves out takes its default; the first entry that
/// is unknown, repeated or ill-typed makes the whole file an error.
pub fn config_from_entries(entries: &[TomlEntry]) -> (r: Result<Config, ConfigError>)
    ensures
        match r {
            Ok(c) => config_model(entries@) == Ok::<ConfigModel, ConfigFault>(c@),
            Err(e) => config_model(entries@) == Err::<ConfigModel, ConfigFault>(e@),
        },
{
    let mut position: Option<BarPosition> = None;
    let mut bar_size_px: Option<usize> = None;
    let mut show_empty: Option<bool> = None;
    let mut components: Option<Vec<Component>> = None;
    let mut security: Option<Security> = None;
    let n = entries.len();
    assert(entries@.take(0) =~= Seq::<TomlEntry>::empty());
    for i in 0..n
        invariant
            n == entries@.len(),
            draft_model(entries@.take(i as int)) == Ok::<ConfigDraft, ConfigFault>(
                ConfigDraft {
                    position,
                    bar_size_px,
                    should_show_empty_workspace: show_empty,
                    components: match components {
                        Some(cs) => Some(cs@),
                        None => None,
                    },
                    security,
                },
            ),
    {
        assert(entries@.take(i + 1).drop_last() =~= entries@.take(i as int));
        let e = &entries[i];
        let k = &e.key;
        let step: Result<(), ConfigError> = if key_is(k, "position") {
            if position.is_some() {
                Err(ConfigError::DuplicateField(ConfigField::Position))
            } else {
                match position_from_value(&e.value) {
                    Ok(p) => {
                        position = Some(p);
                        Ok(())
                    },
                    Err(x) => Err(x),
                }
            }
        } else if key_is(k, "bar_size_px") {
            if bar_size_px.is_some() {
                Err(ConfigError::DuplicateField(ConfigField::BarSizePx))
            } else {
                match size_from_value(&e.value) {
                    Ok(s) => {
                        bar_size_px = Some(s);
                        Ok(())
                    },
                    Err(x) => Err(x),
                }
            }
        } else if key_is(k, "should_show_empty_workspace") {
            if show_empty.is_some() {
                Err(ConfigError::DuplicateField(ConfigField::ShouldShowEmptyWorkspace))
            } else {
                match bool_from_value(&e.value, ConfigField::ShouldShowEmptyWorkspace) {
                    Ok(b) => {
                        show_empty = Some(b);
                        Ok(())
                    },
                    Err(x) => Err(x),
                }
            }
        } else if key_is(k, "components") {
            if components.is_some() {
                Err(ConfigError::DuplicateField(ConfigField::Components))
            } else {
                match components_from_value(&e.value) {
                    Ok(cs) => {
                        components = Some(cs);
                        Ok(())
                    },
                    Err(x) => Err(x),
                }
            }
        } else if key_is(k, "security") {
            if security.is_some() {
                Err(ConfigError::DuplicateField(ConfigField::Security))
            } else {
                match security_from_value(&e.value) {
                    Ok(s) => {
                        security = Some(s);
                        Ok(())
                    },
                    Err(x) => Err(x),
                }
            }
        } else {
            Err(ConfigError::UnknownField(copy_chars(k)))
        };
        if let Err(x) = step {
            proof {
                lemma_draft_error_sticks(entries@, i + 1);
            }
            return Err(x);
        }
    }
    assert(entries@.take(n as int) =~= entries@);
    let components = match components {
        Some(cs) => cs,
        None => default_components(),
    };
    Ok(
        Config {
            position: match position {
                Some(p) => p,
                None => BarPosition::default(),
            },
            bar_size_px: match bar_size_px {
                Some(s) => s,
                None => default_bar_size_px(),
            },
            should_show_empty_workspace: match show_empty {
                Some(b) => b,
                None => default_true(),
            },
            components,
            security: match security {
                Some(s) => s,
                None => Security::default(),
            },
        },
    )
}

/// Reads a configuration file's text: a TOML document whose top-level table
/// holds the settings.
pub fn parse_config(text: &str) -> (r: Result<Config, ConfigError>)
    ensures
        match r {
            Ok(c) => parsed_config(text@) == Ok::<ConfigModel, ConfigFault>(c@),
            Err(e) => parsed_config(text@) == Err::<ConfigModel, ConfigFault>(e@),
        },
{
    match parse_document(text) {
        Err(message) => Err(ConfigError::Syntax(message)),
        Ok(entries) => config_from_entries(entries.as_slice()),
    }
}

} // verus!

verus! {

/// What looking for the configuration file found.
#[derive(Debug)]
pub enum ConfigSource {
    /// No configuration directory could be determined.
    NoConfigDir,
    /// There is no configuration file.
    NotFound,
    /// The file exists but could not be read.
    Unreadable,
    /// The file's bytes.
    Contents(Vec<u8>),
}

/// `std::str::from_utf8`: the text `bytes` encode, when they are UTF-8.
#[verifier::external_body]
fn utf8_text(bytes: &[u8]) -> (r: Option<&str>)
    ensures
        r is Some <==> valid_utf8(bytes@),
        r matches Some(t) ==> t@ == decode_utf8(bytes@),
{
    std::str::from_utf8(bytes).ok()
}

/// The configuration to run with: the hardcoded default when there is no file
/// to read (no configuration directory, no file, or an unreadable one), else
/// what the file's text gives. An invalid file is an error, a file that is
/// not UTF-8 among them.
pub fn resolve_config(source: &ConfigSource) -> (r: Result<Config, ConfigError>)
    ensures
        match source {
            ConfigSource::Contents(b) => if valid_utf8(b@) {
                match r {
                    Ok(c) => parsed_config(decode_utf8(b@)) == Ok::<ConfigModel, ConfigFault>(c@),
                    Err(e) => parsed_config(decode_utf8(b@)) == Err::<ConfigModel, ConfigFault>(
                        e@,
                    ),
                }
            } else {
                r matches Err(e) && e@ == ConfigFault::NotUtf8
            },
            _ => r matches Ok(c) && c@ == hardcoded_model(),
        },
{
    match source {
        ConfigSource::Contents(b) => match utf8_text(b.as_slice()) {
            Some(t) => parse_config(t),
            None => Err(ConfigError::NotUtf8),
        },
        _ => Ok(Config::hardcoded()),
    }
}

} // verus!

verus! {

/// The names of the top-level settings.
pub open spec fn is_setting_name(k: Seq<char>) -> bool {
    k == "position"@ || k == "bar_size_px"@ || k == "should_show_empty_workspace"@ || k
        == "components"@ || k == "security"@
}

/// Each position is read from its own lowercase name, as a string or as a
/// one-entry table whose value is empty, and no other name is a position.
pub proof fn law_positions_are_read_by_name(n: Seq<char>, v: Vec<char>)
    ensures
        position_named("left"@) == Some(BarPosition::Left),
        position_named("right"@) == Some(BarPosition::Right),
        position_named("top"@) == Some(BarPosition::Top),
        position_named("bottom"@) == Some(BarPosition::Bottom),
        position_named(n) is Some ==> n == "left"@ || n == "right"@ || n == "top"@ || n
            == "bottom"@,
        v@ == "left"@ ==> position_model(TomlValue::Str(v)) == Ok::<BarPosition, ConfigFault>(
            BarPosition::Left,
        ),
        v@ == "right"@ ==> position_model(TomlValue::Str(v)) == Ok::<BarPosition, ConfigFault>(
            BarPosition::Right,
        ),
        v@ == "top"@ ==> position_model(TomlValue::Str(v)) == Ok::<BarPosition, ConfigFault>(
            BarPosition::Top,
        ),
        v@ == "bottom"@ ==> position_model(TomlValue::Str(v)) == Ok::<BarPosition, ConfigFault>(
            BarPosition::Bottom,
        ),
{
    reveal_strlit("left");
    reveal_strlit("right");
    reveal_strlit("top");
    reveal_strlit("bottom");
    assert("left"@[0] == 'l' && "right"@[0] == 'r' && "top"@[0] == 't' && "bottom"@[0] == 'b');
}

/// A document with no settings gives the hardcoded configuration.
pub proof fn law_empty_document_is_hardcoded()
    ensures
        config_model(Seq::<TomlEntry>::empty()) == Ok::<ConfigModel, ConfigFault>(hardcoded_model()),
{
}

/// An entry that is the first to fail makes the whole file fail.
proof fn lemma_failing_entry(es: Seq<TomlEntry>, i: int)
    requires
        0 <= i < es.len(),
        forall|d: ConfigDraft| #[trigger] draft_step(d, es[i]) is Err,
    ensures
        config_model(es) is Err,
{
    assert(es.take(i + 1).drop_last() =~= es.take(i));
    assert(es.take(i + 1).last() == es[i]);
    assert(draft_model(es.take(i + 1)) is Err) by {
        if let Ok(d) = draft_model(es.take(i)) {
            assert(draft_step(d, es[i]) is Err);
        }
    }
    lemma_draft_error_sticks(es, i + 1);
}

/// A file with a setting that does not exist is refused.
pub proof fn law_unknown_setting_rejected(es: Seq<TomlEntry>, i: int)
    requires
        0 <= i < es.len(),
        !is_setting_name(es[i].key@),
    ensures
        config_model(es) is Err,
{
    lemma_failing_entry(es, i);
}

/// A file whose position is a name that is not a position is refused.
pub proof fn law_unknown_position_rejected(es: Seq<TomlEntry>, i: int, name: Vec<char>)
    requires
        0 <= i < es.len(),
        es[i].key@ == "position"@,
        es[i].value == TomlValue::Str(name),
        position_named(name@) is None,
    ensures
        config_model(es) is Err,
{
    lemma_failing_entry(es, i);
}

/// A file that lists a component name that does not exist is refused.
pub proof fn law_unknown_component_rejected(
    es: Seq<TomlEntry>,
    i: int,
    items: Vec<TomlValue>,
    j: int,
    name: Vec<char>,
)
    requires
        0 <= i < es.len(),
        es[i].key@ == "components"@,
        es[i].value == TomlValue::Array(items),
        0 <= j < items@.len(),
        items@[j] == TomlValue::Str(name),
        unit_component_named(name@) is None,
    ensures
        config_model(es) is Err,
{
    let vs = items@;
    assert(vs.take(j + 1).drop_last() =~= vs.take(j));
    assert(vs.take(j + 1).last() == vs[j]);
    assert(components_model(vs.take(j + 1)) is Err);
    lemma_components_error_sticks(vs, j + 1);
    lemma_failing_entry(es, i);
}

} // verus!
