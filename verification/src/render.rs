//! The renderer: it lays a value out as a tree of nodes, each with its key,
//! its toggle, its decorators and its content.

use crate::common::{decimal, decimal_text, is_collapsable};
use crate::interaction::{decorator_models, Decorator, DecoratorModel};
use crate::interaction::{embedded_parse, some_parse};
use crate::parse::{json_quoted, option_json, parse_json, quote_string};
use crate::tree::{TreeModel, TreeState};
use crate::value::{Json, JsonEntry, JsonValue};
use crate::JsonViewerOption;
use vstd::prelude::*;
use vstd::string::StringExecFns;

verus! {

/// The two kinds of container.
#[derive(Clone, Copy, Debug, PartialEq, Eq, Structural)]
pub enum ContainerKind {
    Array,
    Object,
}

/// The model of what a node shows of its own value.
pub enum ContentModel {
    Literal(Seq<char>),
    Text(Seq<char>),
    Empty(ContainerKind),
    Placeholder(ContainerKind, Seq<char>),
    Open(ContainerKind),
}

/// What a node shows of its own value.
#[derive(Debug, PartialEq, Eq)]
pub enum Content {
    /// `null`, `true`, `false` or a number, by its text.
    Literal(String),
    /// A string, as a JSON string literal.
    Text(String),
    /// A container without children: `[]` or `{}`.
    Empty(ContainerKind),
    /// A collapsed container: its brackets around a placeholder that says
    /// how many children it has. A click on the placeholder toggles the flag
    /// that the parent keeps for this container.
    Placeholder(ContainerKind, String),
    /// An expanded container: its brackets around the node's children.
    Open(ContainerKind),
}

impl View for Content {
    type V = ContentModel;

    open spec fn view(&self) -> ContentModel {
        match self {
            Content::Literal(text) => ContentModel::Literal(text@),
            Content::Text(text) => ContentModel::Text(text@),
            Content::Empty(kind) => ContentModel::Empty(*kind),
            Content::Placeholder(kind, text) => ContentModel::Placeholder(*kind, text@),
            Content::Open(kind) => ContentModel::Open(*kind),
        }
    }
}

/// The model of a rendered node.
pub struct NodeModel {
    pub key: Option<Seq<char>>,
    pub toggle: bool,
    pub collapsed: bool,
    pub comma: bool,
    pub decorators: Seq<DecoratorModel>,
    pub content: ContentModel,
    pub children: Seq<NodeModel>,
}

/// One node of the rendered tree. In display order: the toggle and the key,
/// the decorators, the content, the comma.
#[derive(Debug, PartialEq, Eq)]
pub struct RenderedNode {
    /// The key under which the value stands in an object, as a JSON string
    /// literal; a colon and a space follow it.
    pub key: Option<String>,
    /// Whether the node has a toggle: whether its value is a container with
    /// at least one child. In an object the toggle wraps the key.
    pub toggle: bool,
    /// The flag that the parent keeps for this node.
    pub collapsed: bool,
    /// Whether a comma follows: whether the node is not its parent's last.
    pub comma: bool,
    /// The decorators, which stand before the content.
    pub decorators: Vec<Decorator>,
    pub content: Content,
    /// The nodes of the children, where the content is open.
    pub children: Vec<RenderedNode>,
}

impl View for RenderedNode {
    type V = NodeModel;

    open spec fn view(&self) -> NodeModel
        decreases self,
    {
        NodeModel {
            key: match self.key {
                Some(text) => Some(text@),
                None => None,
            },
            toggle: self.toggle,
            collapsed: self.collapsed,
            comma: self.comma,
            decorators: decorator_models(self.decorators@),
            content: self.content@,
            children: Seq::new(
                self.children@.len(),
                |i: int|
                    if 0 <= i < self.children@.len() {
                        self.children@[i].view()
                    } else {
                        arbitrary()
                    },
            ),
        }
    }
}

/// The text of the placeholder of a collapsed container with `count`
/// children.
pub open spec fn placeholder(count: nat) -> Seq<char> {
    decimal(count) + if count == 1 {
        " item"@
    } else {
        " items"@
    }
}

/// The placeholder of one child is `1 item`, and that of any other number
/// of children is the number and ` items`.
pub proof fn lemma_placeholder(count: nat)
    ensures
        count == 1 ==> placeholder(count) == "1 item"@,
        count != 1 ==> placeholder(count) == decimal(count) + " items"@,
        placeholder(0) == "0 items"@,
{
    reveal_strlit("1 item");
    reveal_strlit(" item");
    reveal_strlit("0 items");
    reveal_strlit(" items");
    assert(placeholder(1) =~= "1 item"@);
    assert(placeholder(0) =~= "0 items"@);
}

/// What a container of `count` children shows.
pub open spec fn container_content(kind: ContainerKind, count: nat, collapsed: bool)
    -> ContentModel {
    if count == 0 {
        ContentModel::Empty(kind)
    } else if collapsed {
        ContentModel::Placeholder(kind, placeholder(count))
    } else {
        ContentModel::Open(kind)
    }
}

/// What the node of `value` shows, where `collapsed` is the flag that the
/// parent keeps for it.
pub open spec fn content_of(value: Json, collapsed: bool) -> ContentModel {
    match value {
        Json::Null => ContentModel::Literal("null"@),
        Json::Bool(b) => ContentModel::Literal(
            if b {
                "true"@
            } else {
                "false"@
            },
        ),
        Json::Number(text) => ContentModel::Literal(text),
        Json::String(text) => ContentModel::Text(json_quoted(text)),
        Json::Array(items) => container_content(ContainerKind::Array, items.len(), collapsed),
        Json::Object(entries) => container_content(
            ContainerKind::Object,
            entries.len(),
            collapsed,
        ),
    }
}

/// The key shown before the child at index `i` of `value`.
pub open spec fn key_of(value: Json, i: int) -> Option<Seq<char>> {
    match value {
        Json::Object(entries) => Some(json_quoted(entries[i].key)),
        _ => None,
    }
}

/// The rendered tree of `value` without its decorators. `state` is the
/// collapse state of the tree, `collapsed` the flag that the parent keeps
/// for `value`, `key` and `comma` what the parent shows around it.
pub open spec fn layout(
    value: Json,
    state: TreeModel,
    key: Option<Seq<char>>,
    collapsed: bool,
    comma: bool,
) -> NodeModel
    decreases value,
{
    NodeModel {
        key,
        toggle: value.length() > 0,
        collapsed,
        comma,
        decorators: Seq::empty(),
        content: content_of(value, collapsed),
        children: if value.length() > 0 && !collapsed {
            Seq::new(
                value.length(),
                |i: int|
                    if 0 <= i < value.length() {
                        layout(
                            value.child(i),
                            state.children[i],
                            key_of(value, i),
                            state.collapsed[i],
                            i + 1 < value.length(),
                        )
                    } else {
                        arbitrary()
                    },
            )
        } else {
            Seq::empty()
        },
    }
}

/// A rendered tree without its decorators.
pub open spec fn strip(node: NodeModel) -> NodeModel
    decreases node,
{
    NodeModel {
        key: node.key,
        toggle: node.toggle,
        collapsed: node.collapsed,
        comma: node.comma,
        decorators: Seq::empty(),
        content: node.content,
        children: Seq::new(
            node.children.len(),
            |i: int|
                if 0 <= i < node.children.len() {
                    strip(node.children[i])
                } else {
                    arbitrary()
                },
        ),
    }
}

/// The model of an optional text.
pub open spec fn option_text(text: Option<String>) -> Option<Seq<char>> {
    match text {
        Some(t) => Some(t@),
        None => None,
    }
}

/// Whether `decorators` are those that the resolvers give `value`: none
/// for a root, and for every other value what `resolver` returns for it,
/// followed by what `additional` returns for it, if there is one.
pub open spec fn resolved_by<R, A>(
    decorators: Seq<DecoratorModel>,
    value: JsonValue,
    is_root: bool,
    resolver: R,
    additional: Option<A>,
) -> bool where R: Fn(&JsonValue) -> Vec<Decorator>, A: Fn(&JsonValue) -> Vec<Decorator> {
    if is_root {
        decorators == Seq::<DecoratorModel>::empty()
    } else {
        exists|first: Vec<Decorator>, second: Vec<Decorator>|
            #![trigger decorator_models(first@), decorator_models(second@)]
            {
                &&& call_ensures(resolver, (&value,), first)
                &&& match additional {
                    Some(a) => call_ensures(a, (&value,), second),
                    None => second@.len() == 0,
                }
                &&& decorators == decorator_models(first@) + decorator_models(second@)
            }
    }
}

/// Whether every node of the rendered tree `node` of `value` has the
/// decorators that the resolvers give its value.
pub open spec fn decorated<R, A>(
    node: NodeModel,
    value: JsonValue,
    is_root: bool,
    resolver: R,
    additional: Option<A>,
) -> bool where R: Fn(&JsonValue) -> Vec<Decorator>, A: Fn(&JsonValue) -> Vec<Decorator>
    decreases node,
{
    &&& resolved_by(node.decorators, value, is_root, resolver, additional)
    &&& forall|i: int|
        0 <= i < node.children.len() ==> decorated(
            #[trigger] node.children[i],
            value.child_value(i),
            false,
            resolver,
            additional,
        )
}

/// Whether every node below `node`, the rendered tree of `value`, has the
/// decorators that the resolvers give its value.
pub open spec fn decorated_below<R, A>(
    node: NodeModel,
    value: JsonValue,
    resolver: R,
    additional: Option<A>,
) -> bool where R: Fn(&JsonValue) -> Vec<Decorator>, A: Fn(&JsonValue) -> Vec<Decorator> {
    forall|i: int|
        0 <= i < node.children.len() ==> decorated(
            #[trigger] node.children[i],
            value.child_value(i),
            false,
            resolver,
            additional,
        )
}

/// Writes the placeholder of a collapsed container with `count` children.
pub fn placeholder_text(count: usize) -> (r: String)
    ensures
        r@ == placeholder(count as nat),
{
    let mut r = decimal_text(count);
    if count == 1 {
        r.append(" item");
    } else {
        r.append(" items");
    }
    r
}

fn container_of(kind: ContainerKind, count: usize, collapsed: bool) -> (r: Content)
    ensures
        r@ == container_content(kind, count as nat, collapsed),
{
    if count == 0 {
        Content::Empty(kind)
    } else if collapsed {
        Content::Placeholder(kind, placeholder_text(count))
    } else {
        Content::Open(kind)
    }
}

fn content_for(value: &JsonValue, collapsed: bool) -> (r: Content)
    ensures
        r@ == content_of(value@, collapsed),
{
    proof {
        value.lemma_children();
    }
    match value {
        JsonValue::Null => Content::Literal(String::from_str("null")),
        JsonValue::Bool(b) => Content::Literal(
            if *b {
                String::from_str("true")
            } else {
                String::from_str("false")
            },
        ),
        JsonValue::Number(text) => Content::Literal(text.clone()),
        JsonValue::String(text) => Content::Text(quote_string(text.as_str())),
        JsonValue::Array(items) => container_of(ContainerKind::Array, items.len(), collapsed),
        JsonValue::Object(entries) => container_of(
            ContainerKind::Object,
            entries.len(),
            collapsed,
        ),
    }
}

fn resolve<R, A>(value: &JsonValue, is_root: bool, resolver: &R, additional: &Option<A>) -> (r:
    Vec<Decorator>) where R: Fn(&JsonValue) -> Vec<Decorator>, A: Fn(&JsonValue) -> Vec<Decorator>
    requires
        forall|v: &JsonValue| call_requires(*resolver, (v,)),
        forall|a: A, v: &JsonValue| *additional == Some(a) ==> call_requires(a, (v,)),
    ensures
        resolved_by(decorator_models(r@), *value, is_root, *resolver, *additional),
{
    if is_root {
        let none: Vec<Decorator> = Vec::new();
        assert(decorator_models(none@) =~= Seq::<DecoratorModel>::empty());
        return none;
    }
    let mut first: Vec<Decorator> = resolver(value);
    let mut second: Vec<Decorator> = match additional {
        Some(a) => a(value),
        None => Vec::new(),
    };
    let ghost head = first;
    let ghost tail = second;
    first.append(&mut second);
    proof {
        assert(decorator_models(first@) =~= decorator_models(head@) + decorator_models(tail@));
    }
    first
}

fn render_items<R, A>(
    items: &Vec<JsonValue>,
    state: &TreeState,
    resolver: &R,
    additional: &Option<A>,
) -> (r: Vec<RenderedNode>) where
    R: Fn(&JsonValue) -> Vec<Decorator>,
    A: Fn(&JsonValue) -> Vec<Decorator>,

    requires
        state@.fits(JsonValue::Array(*items)@),
        forall|v: &JsonValue| call_requires(*resolver, (v,)),
        forall|a: A, v: &JsonValue| *additional == Some(a) ==> call_requires(a, (v,)),
    ensures
        r@.len() == items@.len(),
        forall|i: int|
            0 <= i < r@.len() ==> strip((#[trigger] r@[i])@) == layout(
                items@[i]@,
                state@.children[i],
                None,
                state@.collapsed[i],
                i + 1 < items@.len(),
            ),
        forall|i: int|
            0 <= i < r@.len() ==> decorated(
                (#[trigger] r@[i])@,
                items@[i],
                false,
                *resolver,
                *additional,
            ),
    decreases items,
{
    let ghost whole = JsonValue::Array(*items);
    proof {
        whole.lemma_children();
        state.lemma_children();
    }
    let mut r: Vec<RenderedNode> = Vec::new();
    let mut k: usize = 0;
    while k < items.len()
        invariant
            k <= items@.len(),
            r@.len() == k,
            whole == JsonValue::Array(*items),
            state@.fits(whole@),
            whole@.length() == items@.len(),
            state.children@.len() == items@.len(),
            state.collapsed@.len() == items@.len(),
            state@.collapsed == state.collapsed@,
            forall|i: int|
                0 <= i < items@.len() ==> #[trigger] whole@.child(i) == items@[i]@,
            forall|i: int|
                0 <= i < items@.len() ==> (#[trigger] state@.children[i])
                    == state.children@[i]@,
            forall|v: &JsonValue| call_requires(*resolver, (v,)),
            forall|a: A, v: &JsonValue| *additional == Some(a) ==> call_requires(a, (v,)),
            forall|i: int|
                0 <= i < k ==> strip((#[trigger] r@[i])@) == layout(
                    items@[i]@,
                    state@.children[i],
                    None,
                    state@.collapsed[i],
                    i + 1 < items@.len(),
                ),
            forall|i: int|
                0 <= i < k ==> decorated(
                    (#[trigger] r@[i])@,
                    items@[i],
                    false,
                    *resolver,
                    *additional,
                ),
        decreases items@.len() - k,
    {
        proof {
            assert(state@.children[k as int].fits(whole@.child(k as int)));
        }
        let node = render_node(
            &items[k],
            &state.children[k],
            None,
            state.collapsed.flags[k],
            k + 1 < items.len(),
            false,
            resolver,
            additional,
        );
        r.push(node);
        k += 1;
    }
    r
}

fn render_entries<R, A>(
    entries: &Vec<JsonEntry>,
    state: &TreeState,
    resolver: &R,
    additional: &Option<A>,
) -> (r: Vec<RenderedNode>) where
    R: Fn(&JsonValue) -> Vec<Decorator>,
    A: Fn(&JsonValue) -> Vec<Decorator>,

    requires
        state@.fits(JsonValue::Object(*entries)@),
        forall|v: &JsonValue| call_requires(*resolver, (v,)),
        forall|a: A, v: &JsonValue| *additional == Some(a) ==> call_requires(a, (v,)),
    ensures
        r@.len() == entries@.len(),
        forall|i: int|
            0 <= i < r@.len() ==> strip((#[trigger] r@[i])@) == layout(
                entries@[i].value@,
                state@.children[i],
                Some(json_quoted(entries@[i].key@)),
                state@.collapsed[i],
                i + 1 < entries@.len(),
            ),
        forall|i: int|
            0 <= i < r@.len() ==> decorated(
                (#[trigger] r@[i])@,
                entries@[i].value,
                false,
                *resolver,
                *additional,
            ),
    decreases entries,
{
    let ghost whole = JsonValue::Object(*entries);
    proof {
        whole.lemma_children();
        state.lemma_children();
    }
    let mut r: Vec<RenderedNode> = Vec::new();
    let mut k: usize = 0;
    while k < entries.len()
        invariant
            k <= entries@.len(),
            r@.len() == k,
            whole == JsonValue::Object(*entries),
            state@.fits(whole@),
            whole@.length() == entries@.len(),
            state.children@.len() == entries@.len(),
            state.collapsed@.len() == entries@.len(),
            state@.collapsed == state.collapsed@,
            forall|i: int|
                0 <= i < entries@.len() ==> #[trigger] whole@.child(i) == entries@[i].value@,
            forall|i: int|
                0 <= i < entries@.len() ==> (#[trigger] state@.children[i])
                    == state.children@[i]@,
            forall|v: &JsonValue| call_requires(*resolver, (v,)),
            forall|a: A, v: &JsonValue| *additional == Some(a) ==> call_requires(a, (v,)),
            forall|i: int|
                0 <= i < k ==> strip((#[trigger] r@[i])@) == layout(
                    entries@[i].value@,
                    state@.children[i],
                    Some(json_quoted(entries@[i].key@)),
                    state@.collapsed[i],
                    i + 1 < entries@.len(),
                ),
            forall|i: int|
                0 <= i < k ==> decorated(
                    (#[trigger] r@[i])@,
                    entries@[i].value,
                    false,
                    *resolver,
                    *additional,
                ),
        decreases entries@.len() - k,
    {
        proof {
            assert(state@.children[k as int].fits(whole@.child(k as int)));
        }
        let node = render_node(
            &entries[k].value,
            &state.children[k],
            Some(quote_string(entries[k].key.as_str())),
            state.collapsed.flags[k],
            k + 1 < entries.len(),
            false,
            resolver,
            additional,
        );
        r.push(node);
        k += 1;
    }
    r
}

fn render_node<R, A>(
    value: &JsonValue,
    state: &TreeState,
    key: Option<String>,
    collapsed: bool,
    comma: bool,
    is_root: bool,
    resolver: &R,
    additional: &Option<A>,
) -> (r: RenderedNode) where
    R: Fn(&JsonValue) -> Vec<Decorator>,
    A: Fn(&JsonValue) -> Vec<Decorator>,

    requires
        state@.fits(value@),
        forall|v: &JsonValue| call_requires(*resolver, (v,)),
        forall|a: A, v: &JsonValue| *additional == Some(a) ==> call_requires(a, (v,)),
    ensures
        strip(r@) == layout(value@, state@, option_text(key), collapsed, comma),
        decorated(r@, *value, is_root, *resolver, *additional),
    decreases value,
{
    let decorators = resolve(value, is_root, resolver, additional);
    let content = content_for(value, collapsed);
    let toggle = is_collapsable(value);
    proof {
        value.lemma_children();
    }
    let children: Vec<RenderedNode> = if toggle && !collapsed {
        match value {
            JsonValue::Array(items) => render_items(items, state, resolver, additional),
            JsonValue::Object(entries) => render_entries(entries, state, resolver, additional),
            _ => Vec::new(),
        }
    } else {
        Vec::new()
    };
    let r = RenderedNode { key, toggle, collapsed, comma, decorators, content, children };
    proof {
        let plain = layout(value@, state@, option_text(key), collapsed, comma);
        assert(r@.children.len() == r.children@.len());
        assert forall|i: int| 0 <= i < r@.children.len() implies #[trigger] r@.children[i]
            == r.children@[i]@ by {}
        assert(strip(r@).children.len() == plain.children.len());
        assert forall|i: int| 0 <= i < plain.children.len() implies strip(r@).children[i]
            == plain.children[i] by {
            assert(strip(r@).children[i] == strip(r@.children[i]));
        }
        assert(strip(r@).children =~= plain.children);
        assert forall|i: int| 0 <= i < r@.children.len() implies decorated(
            #[trigger] r@.children[i],
            value.child_value(i),
            false,
            *resolver,
            *additional,
        ) by {
            assert(r@.children[i] == r.children@[i]@);
        }
    }
    r
}

/// What a renderer is given: the value, the configuration, the flag that
/// the parent keeps for the value, and whether the value is the root.
#[derive(Clone, Copy, Debug)]
pub struct RenderProps<'a> {
    pub value: &'a JsonValue,
    pub option: &'a JsonViewerOption,
    pub father_collapsed: bool,
    pub is_root: bool,
}

/// Renders the value of `props` as a tree of nodes. `state` is the collapse
/// state of the tree. Every node but a root gets the decorators of
/// `resolver`, and every node those of `additional` after them.
pub fn render<R, A>(
    props: &RenderProps,
    state: &TreeState,
    resolver: &R,
    additional: &Option<A>,
) -> (r: RenderedNode) where
    R: Fn(&JsonValue) -> Vec<Decorator>,
    A: Fn(&JsonValue) -> Vec<Decorator>,

    requires
        state@.fits(props.value@),
        forall|v: &JsonValue| call_requires(*resolver, (v,)),
        forall|a: A, v: &JsonValue| *additional == Some(a) ==> call_requires(a, (v,)),
    ensures
        strip(r@) == layout(props.value@, state@, None, props.father_collapsed, false),
        decorated(r@, *props.value, props.is_root, *resolver, *additional),
{
    render_node(
        props.value,
        state,
        None,
        props.father_collapsed,
        false,
        props.is_root,
        resolver,
        additional,
    )
}

/// Probes a value for embedded JSON: parses it, under the grammar that
/// `use_json5` selects, where it is a string.
pub fn is_string_json(value: &JsonValue, use_json5: bool) -> (r: Option<JsonValue>)
    ensures
        embedded_parse(value@, use_json5, option_json(r)),
{
    match value {
        JsonValue::String(s) => parse_json(s.as_str(), use_json5),
        _ => None,
    }
}

/// The decorator that the root gets for itself, where `parsed` is what
/// probing the root for embedded JSON gave: a viewer over the parsed value,
/// unless the root has a toggle.
pub open spec fn root_decorators(value: Json, parsed: Option<Json>) -> Seq<DecoratorModel> {
    if value.length() > 0 {
        Seq::empty()
    } else {
        match parsed {
            Some(embedded) => seq![DecoratorModel::JsonDialog(embedded)],
            None => Seq::empty(),
        }
    }
}

/// The decorator that the root gets for itself, given what probing the
/// root for embedded JSON gave.
pub fn root_interaction(value: &JsonValue, parsed: Option<JsonValue>) -> (r: Vec<Decorator>)
    ensures
        decorator_models(r@) == root_decorators(value@, option_json(parsed)),
{
    let mut r: Vec<Decorator> = Vec::new();
    if !is_collapsable(value) {
        match parsed {
            Some(embedded) => {
                r.push(Decorator::JsonDialog(embedded));
            },
            None => {},
        }
    }
    assert(decorator_models(r@) =~= root_decorators(value@, option_json(parsed)));
    r
}

/// A rendered document.
#[derive(Debug, PartialEq, Eq)]
pub struct RenderedTree {
    /// The node of the root value. Its toggle and its placeholder act on
    /// the root's own flag.
    pub root: RenderedNode,
    /// Whether the document is laid out for a dialog.
    pub in_dialog: bool,
}

/// Renders a document: the tree of the value of `props` as the root, with
/// `collapsed` as the root's own flag. The root gets no decorator of the
/// resolvers: its decorators are those of [`root_decorators`], for an
/// outcome of probing the root that is possible under the grammar.
pub fn root_render<R, A>(
    props: &RenderProps,
    state: &TreeState,
    collapsed: bool,
    resolver: &R,
    additional: &Option<A>,
) -> (r: RenderedTree) where
    R: Fn(&JsonValue) -> Vec<Decorator>,
    A: Fn(&JsonValue) -> Vec<Decorator>,

    requires
        state@.fits(props.value@),
        forall|v: &JsonValue| call_requires(*resolver, (v,)),
        forall|a: A, v: &JsonValue| *additional == Some(a) ==> call_requires(a, (v,)),
    ensures
        r.in_dialog == (props.option.dialog_index is Some),
        strip(r.root@) == layout(props.value@, state@, None, collapsed, false),
        exists|parsed: Option<Json>|
            #[trigger] embedded_parse(props.value@, props.option.use_json5, parsed)
                && r.root@.decorators == root_decorators(props.value@, parsed),
        decorated_below(r.root@, *props.value, *resolver, *additional),
{
    let value = props.value;
    let option = props.option;
    let inner = RenderProps { value, option, father_collapsed: collapsed, is_root: true };
    let mut root = render(&inner, state, resolver, additional);
    let ghost rendered = root@;
    let parsed = if is_collapsable(value) {
        proof {
            value.lemma_children();
            assert(embedded_parse(value@, option.use_json5, some_parse(value@, option.use_json5)));
        }
        None
    } else {
        is_string_json(value, option.use_json5)
    };
    let ghost probed = if value@.length() > 0 {
        some_parse(value@, option.use_json5)
    } else {
        option_json(parsed)
    };
    let mut own = root_interaction(value, parsed);
    root.decorators.append(&mut own);
    proof {
        assert(embedded_parse(value@, option.use_json5, probed));
        assert(rendered.decorators =~= Seq::<DecoratorModel>::empty());
        assert(root@.children =~= rendered.children);
        assert(strip(root@).children =~= strip(rendered).children);
        assert(root@.decorators =~= root_decorators(value@, probed));
    }
    RenderedTree { root, in_dialog: option.dialog_index.is_some() }
}

/// The bracket that opens a container.
pub open spec fn opening(kind: ContainerKind) -> Seq<char> {
    match kind {
        ContainerKind::Array => "["@,
        ContainerKind::Object => "{"@,
    }
}

/// The bracket that closes a container.
pub open spec fn closing(kind: ContainerKind) -> Seq<char> {
    match kind {
        ContainerKind::Array => "]"@,
        ContainerKind::Object => "}"@,
    }
}

/// The text that a node shows, decorators apart: its key with a colon and a
/// space, its content, with the texts of its children between the brackets
/// where it is open, and its comma.
pub open spec fn node_text(node: NodeModel) -> Seq<char>
    decreases node, 0nat,
{
    let key = match node.key {
        Some(text) => text + ": "@,
        None => Seq::empty(),
    };
    let content = match node.content {
        ContentModel::Literal(text) => text,
        ContentModel::Text(text) => text,
        ContentModel::Empty(kind) => opening(kind) + closing(kind),
        ContentModel::Placeholder(kind, text) => opening(kind) + text + closing(kind),
        ContentModel::Open(kind) => opening(kind) + nodes_text(
            node.children,
            node.children.len(),
        ) + closing(kind),
    };
    let comma = if node.comma {
        ","@
    } else {
        Seq::empty()
    };
    key + content + comma
}

/// The texts of the first `n` of `nodes`, one after another.
pub open spec fn nodes_text(nodes: Seq<NodeModel>, n: nat) -> Seq<char>
    decreases nodes, n,
{
    if n == 0 || n > nodes.len() {
        Seq::empty()
    } else {
        nodes_text(nodes, (n - 1) as nat) + node_text(nodes[n - 1])
    }
}

/// The text of a node does not depend on its decorators, nor on those of
/// the nodes below it.
pub proof fn lemma_text_ignores_decorators(node: NodeModel)
    ensures
        node_text(strip(node)) == node_text(node),
    decreases node, 0nat,
{
    lemma_texts_ignore_decorators(node.children, node.children.len());
}

/// The texts of nodes do not depend on their decorators.
proof fn lemma_texts_ignore_decorators(nodes: Seq<NodeModel>, n: nat)
    requires
        n <= nodes.len(),
    ensures
        nodes_text(Seq::new(nodes.len(), |i: int| strip(nodes[i])), n) == nodes_text(nodes, n),
        forall|node: NodeModel|
            node.children == nodes ==> nodes_text(strip(node).children, n) == nodes_text(
                nodes,
                n,
            ),
    decreases nodes, n,
{
    let stripped = Seq::new(nodes.len(), |i: int| strip(nodes[i]));
    if n > 0 {
        lemma_texts_ignore_decorators(nodes, (n - 1) as nat);
        lemma_text_ignores_decorators(nodes[n - 1]);
        assert(stripped[n - 1] == strip(nodes[n - 1]));
    }
    assert forall|node: NodeModel| node.children == nodes implies nodes_text(
        strip(node).children,
        n,
    ) == nodes_text(nodes, n) by {
        assert(strip(node).children =~= stripped);
    }
}

/// Two renderings of one value in one state show the same text, whatever
/// decorators the one and the other carry: decorators stand beside the
/// text and never change it.
pub proof fn lemma_decorators_keep_text(
    first: NodeModel,
    second: NodeModel,
    value: Json,
    state: TreeModel,
    collapsed: bool,
)
    requires
        strip(first) == layout(value, state, None, collapsed, false),
        strip(second) == layout(value, state, None, collapsed, false),
    ensures
        strip(first) == strip(second),
        node_text(first) == node_text(second),
{
    lemma_text_ignores_decorators(first);
    lemma_text_ignores_decorators(second);
}

fn bracket(kind: ContainerKind, open: bool) -> (r: &'static str)
    ensures
        r@ == if open {
            opening(kind)
        } else {
            closing(kind)
        },
{
    match kind {
        ContainerKind::Array => if open {
            "["
        } else {
            "]"
        },
        ContainerKind::Object => if open {
            "{"
        } else {
            "}"
        },
    }
}

/// The models of rendered nodes, in order.
pub open spec fn node_models(nodes: Seq<RenderedNode>) -> Seq<NodeModel> {
    Seq::new(nodes.len(), |i: int| nodes[i]@)
}

fn nodes_to_text(nodes: &Vec<RenderedNode>) -> (r: String)
    ensures
        r@ == nodes_text(node_models(nodes@), nodes@.len()),
    decreases nodes,
{
    let mut r = String::from_str("");
    proof {
        reveal_strlit("");
    }
    let mut k: usize = 0;
    while k < nodes.len()
        invariant
            k <= nodes@.len(),
            r@ == nodes_text(node_models(nodes@), k as nat),
        decreases nodes@.len() - k,
    {
        let text = nodes[k].text();
        r.append(text.as_str());
        k += 1;
    }
    r
}

impl RenderedNode {
    /// The model of a node has the models of the nodes below it, in order.
    pub proof fn lemma_children(self)
        ensures
            self@.children == node_models(self.children@),
    {
        reveal_with_fuel(<RenderedNode as View>::view, 2);
        assert(self@.children =~= node_models(self.children@));
    }

    /// Writes the text that the node shows, decorators apart.
    pub fn text(&self) -> (r: String)
        ensures
            r@ == node_text(self@),
        decreases self,
    {
        let mut r = String::from_str("");
        proof {
            reveal_strlit("");
        }
        match &self.key {
            Some(key) => {
                r.append(key.as_str());
                r.append(": ");
            },
            None => {},
        }
        match &self.content {
            Content::Literal(text) => {
                r.append(text.as_str());
            },
            Content::Text(text) => {
                r.append(text.as_str());
            },
            Content::Empty(kind) => {
                r.append(bracket(*kind, true));
                r.append(bracket(*kind, false));
            },
            Content::Placeholder(kind, text) => {
                r.append(bracket(*kind, true));
                r.append(text.as_str());
                r.append(bracket(*kind, false));
            },
            Content::Open(kind) => {
                r.append(bracket(*kind, true));
                let inner = nodes_to_text(&self.children);
                r.append(inner.as_str());
                r.append(bracket(*kind, false));
            },
        }
        if self.comma {
            r.append(",");
        }
        proof {
            self.lemma_children();
            assert(r@ =~= node_text(self@));
        }
        r
    }
}

} // verus!
