//! Collapsible tree view of a JSON document: the value model, the collapse
//! state of every container, the decorators offered beside a value, the
//! rendered tree, and the stack of dialogs opened from it.

pub mod collapse;
pub mod common;
pub mod dialog;
pub mod interaction;

pub mod parse;
pub mod render;
pub mod tree;
pub mod value;

use crate::common::value_length;
use crate::interaction::Decorator;
use crate::interaction::embedded_parse;
use crate::parse::{option_json, parse_json, possible_parse};
use crate::value::Json;
use crate::render::{
    decorated_below, layout, root_decorators, root_render, strip, RenderProps, RenderedTree,
};
use crate::tree::{initial_tree, lemma_toggle_at_fits, reconciled, toggled_at, TreeState};
use crate::value::JsonValue;
use vstd::prelude::*;
use vstd::std_specs::cmp::PartialEqSpecImpl;
use vstd::string::StringExecFns;

verus! {

/// The configuration of a viewer.
#[derive(Clone, Copy, Debug)]
pub struct JsonViewerOption {
    /// Whether the children of every container start collapsed.
    pub collapsable: bool,
    /// Whether the root value starts collapsed.
    pub root_collapsable: bool,
    /// A container with at least this many children starts collapsed,
    /// whatever `collapsable` says; 0 switches the rule off.
    pub force_default_collapse_length_gte: usize,
    /// The position in the dialog stack of the dialog that hosts this
    /// viewer, if one does.
    pub dialog_index: Option<i32>,
    /// Whether a string is probed for embedded JSON by the relaxed grammar.
    pub use_json5: bool,
}

impl JsonViewerOption {
    /// Whether the size rule collapses a container of `length` children.
    pub open spec fn forces_collapse(&self, length: nat) -> bool {
        self.force_default_collapse_length_gte > 0 && length
            >= self.force_default_collapse_length_gte
    }

    /// Whether a child of `length` children starts collapsed.
    pub open spec fn collapses(&self, length: nat) -> bool {
        self.collapsable || self.forces_collapse(length)
    }

    /// Whether the root value, of `length` children, starts collapsed.
    pub open spec fn collapses_root(&self, length: nat) -> bool {
        self.root_collapsable || self.forces_collapse(length)
    }

    /// The configuration that applies where nothing is set.
    pub open spec fn standard() -> JsonViewerOption {
        JsonViewerOption {
            collapsable: false,
            root_collapsable: false,
            force_default_collapse_length_gte: 100,
            dialog_index: None,
            use_json5: false,
        }
    }

    /// Whether the size rule collapses a container of `length` children.
    pub fn is_force_default_collapse(&self, length: usize) -> (b: bool)
        ensures
            b == self.forces_collapse(length as nat),
    {
        self.force_default_collapse_length_gte > 0 && length
            >= self.force_default_collapse_length_gte
    }
}

impl Default for JsonViewerOption {
    fn default() -> (r: Self)
        ensures
            r == JsonViewerOption::standard(),
    {
        JsonViewerOption {
            collapsable: false,
            root_collapsable: false,
            force_default_collapse_length_gte: 100,
            dialog_index: None,
            use_json5: false,
        }
    }
}

impl PartialEq for JsonViewerOption {
    /// Two configurations are equal when they lay a tree out alike: the
    /// grammar for embedded JSON is not compared.
    fn eq(&self, other: &Self) -> (b: bool) {
        self.collapsable == other.collapsable && self.root_collapsable == other.root_collapsable
            && self.force_default_collapse_length_gte == other.force_default_collapse_length_gte
            && self.dialog_index == other.dialog_index
    }
}

impl PartialEqSpecImpl for JsonViewerOption {
    open spec fn obeys_eq_spec() -> bool {
        true
    }

    open spec fn eq_spec(&self, other: &Self) -> bool {
        self.collapsable == other.collapsable && self.root_collapsable == other.root_collapsable
            && self.force_default_collapse_length_gte == other.force_default_collapse_length_gte
            && self.dialog_index == other.dialog_index
    }
}

/// The settings that a host page may pass when it mounts a viewer. A field
/// left unset keeps its standard value.
#[derive(Clone, Copy, Debug)]
pub struct JsonViewRenderOption {
    pub collapsable: Option<bool>,
    pub root_collapsable: Option<bool>,
    pub force_default_collapse_length_gte: Option<usize>,
    pub use_json5: Option<bool>,
}

impl JsonViewRenderOption {
    /// Settings with no field set.
    pub fn new() -> (r: Self)
        ensures
            r.collapsable is None,
            r.root_collapsable is None,
            r.force_default_collapse_length_gte is None,
            r.use_json5 is None,
    {
        JsonViewRenderOption {
            collapsable: None,
            root_collapsable: None,
            force_default_collapse_length_gte: None,
            use_json5: None,
        }
    }

    /// The configuration that these settings ask for: each field that is
    /// set, and the standard value of each that is not.
    pub open spec fn resolved(&self) -> JsonViewerOption {
        JsonViewerOption {
            collapsable: match self.collapsable {
                Some(b) => b,
                None => false,
            },
            root_collapsable: match self.root_collapsable {
                Some(b) => b,
                None => false,
            },
            force_default_collapse_length_gte: match self.force_default_collapse_length_gte {
                Some(n) => n,
                None => 100,
            },
            dialog_index: None,
            use_json5: match self.use_json5 {
                Some(b) => b,
                None => false,
            },
        }
    }

    /// Builds the configuration that these settings ask for.
    pub fn to_viewer_option(&self) -> (r: JsonViewerOption)
        ensures
            r == self.resolved(),
    {
        let mut renderer_option = JsonViewerOption::default();
        if let Some(collapsable) = self.collapsable {
            renderer_option.collapsable = collapsable;
        }
        if let Some(root_collapsable) = self.root_collapsable {
            renderer_option.root_collapsable = root_collapsable;
        }
        if let Some(force_default_collapse_length_gte) = self.force_default_collapse_length_gte {
            renderer_option.force_default_collapse_length_gte = force_default_collapse_length_gte;
        }
        if let Some(use_json5) = self.use_json5 {
            renderer_option.use_json5 = use_json5;
        }
        renderer_option
    }
}

/// A viewer over one JSON value: the value, the configuration, the collapse
/// state of the tree, and the flag of the root itself.
#[derive(Debug)]
pub struct JsonViewer {
    pub value: JsonValue,
    pub option: JsonViewerOption,
    pub state: TreeState,
    pub root_collapsed: bool,
}

impl JsonViewer {
    /// Whether the collapse state is one for the value: at every container,
    /// one flag for each direct child.
    pub open spec fn wf(&self) -> bool {
        self.state@.fits(self.value@)
    }

    /// Whether the collapse state is one for the value.
    pub fn is_wf(&self) -> (b: bool)
        ensures
            b == self.wf(),
    {
        self.state.is_for(&self.value)
    }

    /// A viewer over `value` with the standard configuration.
    pub fn new(value: JsonValue) -> (r: Self)
        ensures
            r.wf(),
            r.value == value,
            r.option == JsonViewerOption::standard(),
            r.state@ == initial_tree(value@, r.option),
            r.root_collapsed == r.option.collapses_root(value@.length()),
    {
        Self::new_with_option(value, Default::default())
    }

    /// A viewer over `value`. Every container starts with the initial flags
    /// of its children, and the root starts collapsed if the configuration
    /// collapses the root or the size rule applies to it.
    pub fn new_with_option(value: JsonValue, option: JsonViewerOption) -> (r: Self)
        ensures
            r.wf(),
            r.value == value,
            r.option == option,
            r.state@ == initial_tree(value@, option),
            r.root_collapsed == option.collapses_root(value@.length()),
    {
        let state = TreeState::initial(&value, &option);
        let root_collapsed = option.root_collapsable || option.is_force_default_collapse(
            value_length(&value),
        );
        JsonViewer { value, option, state, root_collapsed }
    }

    /// Renders the document. The root's decorators are those of
    /// [`root_decorators`], for an outcome of probing the root that is
    /// possible under the grammar; every node below the root has those that
    /// the resolvers give its value.
    pub fn render<R, A>(&self, resolver: &R, additional: &Option<A>) -> (r: RenderedTree) where
        R: Fn(&JsonValue) -> Vec<Decorator>,
        A: Fn(&JsonValue) -> Vec<Decorator>,

        requires
            self.wf(),
            forall|v: &JsonValue| call_requires(*resolver, (v,)),
            forall|a: A, v: &JsonValue| *additional == Some(a) ==> call_requires(a, (v,)),
        ensures
            r.in_dialog == (self.option.dialog_index is Some),
            strip(r.root@) == layout(self.value@, self.state@, None, self.root_collapsed, false),
            exists|parsed: Option<Json>|
                #[trigger] embedded_parse(self.value@, self.option.use_json5, parsed)
                    && r.root@.decorators == root_decorators(self.value@, parsed),
            decorated_below(r.root@, self.value, *resolver, *additional),
    {
        let props = RenderProps {
            value: &self.value,
            option: &self.option,
            father_collapsed: self.root_collapsed,
            is_root: true,
        };
        root_render(&props, &self.state, self.root_collapsed, resolver, additional)
    }

    /// Inverts the flag of the root itself, and nothing else.
    pub fn toggle_root(&mut self)
        ensures
            final(self).root_collapsed == !old(self).root_collapsed,
            final(self).value == old(self).value,
            final(self).option == old(self).option,
            final(self).state == old(self).state,
    {
        self.root_collapsed = !self.root_collapsed;
    }

    /// Toggles the flag of the child that `path` leads to from the root,
    /// and nothing else: not another flag, and not the root's own.
    pub fn toggle(&mut self, path: &Vec<usize>)
        requires
            old(self).wf(),
        ensures
            final(self).wf(),
            final(self).state@ == toggled_at(old(self).state@, path@),
            final(self).root_collapsed == old(self).root_collapsed,
            final(self).value == old(self).value,
            final(self).option == old(self).option,
    {
        proof {
            lemma_toggle_at_fits(self.state@, path@, self.value@);
        }
        self.state.toggle_at(path);
    }

    /// Shows another value in the viewer. A container that kept its number
    /// of children keeps its flags; one whose number changed starts afresh.
    pub fn set_value(&mut self, value: JsonValue)
        ensures
            final(self).wf(),
            final(self).value == value,
            final(self).state@ == reconciled(old(self).state@, value@, old(self).option),
            final(self).root_collapsed == old(self).root_collapsed,
            final(self).option == old(self).option,
    {
        let state = self.state.reconcile(&value, &self.option);
        self.state = state;
        self.value = value;
    }
}

/// Why a viewer could not be mounted.
#[derive(Debug, PartialEq, Eq)]
pub enum MountError {
    /// The text is not JSON under the grammar asked for. Holds the text.
    Parse(String),
    /// The page has no element with the identifier. Holds the identifier.
    MissingAnchor(String),
}

impl MountError {
    /// The message of the error.
    pub open spec fn message_text(&self) -> Seq<char> {
        match self {
            MountError::Parse(text) => "JSON parse error: "@ + text@,
            MountError::MissingAnchor(id) => "element("@ + id@ + ") not found"@,
        }
    }

    /// Writes the message of the error.
    pub fn message(&self) -> (r: String)
        ensures
            r@ == self.message_text(),
    {
        match self {
            MountError::Parse(text) => {
                let mut r = String::from_str("JSON parse error: ");
                r.append(text.as_str());
                r
            },
            MountError::MissingAnchor(id) => {
                let mut r = String::from_str("element(");
                r.append(id.as_str());
                r.append(") not found");
                r
            },
        }
    }
}

/// Whether `r` is what mounting gives, where `parsed` is what parsing the
/// text gave: the text as a parse error where it did not parse; after that
/// the identifier as a missing element where the page has none; and else a
/// viewer over the parsed value, with the configuration that the settings
/// ask for and every container in its initial state.
pub open spec fn mounted(
    r: Result<JsonViewer, MountError>,
    id: Seq<char>,
    text: Seq<char>,
    parsed: Option<Json>,
    option: JsonViewRenderOption,
    anchor_present: bool,
) -> bool {
    match parsed {
        None => r matches Err(MountError::Parse(held)) && held@ == text,
        Some(value) => if anchor_present {
            &&& r matches Ok(viewer)
            &&& viewer.wf()
            &&& viewer.value@ == value
            &&& viewer.option == option.resolved()
            &&& viewer.state@ == initial_tree(value, viewer.option)
            &&& viewer.root_collapsed == viewer.option.collapses_root(value.length())
        } else {
            r matches Err(MountError::MissingAnchor(name)) && name@ == id
        },
    }
}

/// Prepares the viewer that is mounted on the element `id` of the page,
/// given what parsing the JSON text `value` gave. `anchor_present` says
/// whether the page has that element.
pub fn mount_viewer(
    id: &str,
    value: &str,
    parsed: Option<JsonValue>,
    option: JsonViewRenderOption,
    anchor_present: bool,
) -> (r: Result<JsonViewer, MountError>)
    ensures
        mounted(r, id@, value@, option_json(parsed), option, anchor_present),
{
    match parsed {
        None => Err(MountError::Parse(String::from_str(value))),
        Some(parsed) => {
            if anchor_present {
                Ok(JsonViewer::new_with_option(parsed, option.to_viewer_option()))
            } else {
                Err(MountError::MissingAnchor(String::from_str(id)))
            }
        },
    }
}

/// Prepares the viewer that is mounted on the element `id` of the page for
/// the JSON text `value`. `anchor_present` says whether the page has that
/// element. The text is parsed by the relaxed grammar if the settings ask
/// for it, else by the strict one, and the result is what [`mounted`] says
/// for an outcome of the parse that is possible under that grammar.
pub fn json_view_render(
    id: &str,
    value: &str,
    option: JsonViewRenderOption,
    anchor_present: bool,
) -> (r: Result<JsonViewer, MountError>)
    ensures
        exists|parsed: Option<Json>|
            possible_parse(value@, option.use_json5 == Some(true), parsed) && #[trigger] mounted(
                r,
                id@,
                value@,
                parsed,
                option,
                anchor_present,
            ),
{
    let relaxed = match option.use_json5 {
        Some(b) => b,
        None => false,
    };
    let parsed = parse_json(value, relaxed);
    proof {
        assert(possible_parse(value@, option.use_json5 == Some(true), option_json(parsed)));
    }
    mount_viewer(id, value, parsed, option, anchor_present)
}

} // verus!
