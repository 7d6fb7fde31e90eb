//! What matching reads and writes of a node: its kind, its element, and its layout data.

use crate::name::Name;
use crate::shared::Shared;
use vstd::prelude::*;

verus! {

/// An attribute of an element.
pub struct Attribute {
    pub namespace: Name,
    pub name: Name,
    pub value: String,
}

/// The model of an [`Attribute`].
pub ghost struct AttributeView {
    pub namespace: Seq<char>,
    pub name: Seq<char>,
    pub value: Seq<char>,
}

impl View for Attribute {
    type V = AttributeView;

    open spec fn view(&self) -> AttributeView {
        AttributeView { namespace: self.namespace@, name: self.name@, value: self.value@ }
    }
}

/// The value of the first attribute with this namespace and name, if there is one.
pub open spec fn attribute_value(
    attributes: Seq<AttributeView>,
    namespace: Seq<char>,
    name: Seq<char>,
) -> Option<Seq<char>>
    decreases attributes.len(),
{
    if attributes.len() == 0 {
        None
    } else if attributes[0].namespace == namespace && attributes[0].name == name {
        Some(attributes[0].value)
    } else {
        attribute_value(attributes.skip(1), namespace, name)
    }
}

/// The views of a sequence of names.
pub open spec fn name_views(names: Seq<Name>) -> Seq<Seq<char>> {
    names.map_values(|name: Name| name@)
}

/// The views of a sequence of attributes.
pub open spec fn attribute_views(attributes: Seq<Attribute>) -> Seq<AttributeView> {
    attributes.map_values(|attribute: Attribute| attribute@)
}

/// The view of an optional name.
pub open spec fn optional_name_view(name: Option<Name>) -> Option<Seq<char>> {
    match name {
        Some(name) => Some(name@),
        None => None,
    }
}

/// The view of an optional string.
pub open spec fn optional_string_view(string: Option<String>) -> Option<Seq<char>> {
    match string {
        Some(string) => Some(string@),
        None => None,
    }
}

/// An element. `D` is the type of a list of property declarations.
///
/// `id` and `classes` are what selectors match; the attributes of these names are also among
/// `attributes`, as they were written.
pub struct LayoutElement<'h, D> {
    pub local_name: Name,
    pub namespace: Name,
    pub id: Option<Name>,
    pub classes: Vec<Name>,
    pub attributes: Vec<Attribute>,
    /// The declarations of the `style` attribute, once parsed.
    pub style_attribute: Option<Shared<'h, D>>,
}

/// The model of a [`LayoutElement`].
#[verifier::reject_recursive_types(D)]
pub ghost struct ElementView<'h, D> {
    pub local_name: Seq<char>,
    pub namespace: Seq<char>,
    pub id: Option<Seq<char>>,
    pub classes: Seq<Seq<char>>,
    pub attributes: Seq<AttributeView>,
    pub style_attribute: Option<Shared<'h, D>>,
}

impl<'h, D> View for LayoutElement<'h, D> {
    type V = ElementView<'h, D>;

    open spec fn view(&self) -> ElementView<'h, D> {
        ElementView {
            local_name: self.local_name@,
            namespace: self.namespace@,
            id: optional_name_view(self.id),
            classes: name_views(self.classes@),
            attributes: attribute_views(self.attributes@),
            style_attribute: self.style_attribute,
        }
    }
}

impl<'h, D> ElementView<'h, D> {
    /// The value of the `class` attribute.
    pub open spec fn class(self) -> Option<Seq<char>> {
        attribute_value(self.attributes, ""@, "class"@)
    }

    /// Whether the element has an `id` attribute.
    pub open spec fn has_id_attribute(self) -> bool {
        attribute_value(self.attributes, ""@, "id"@) is Some
    }
}

impl<'h, D> LayoutElement<'h, D> {
    /// The name of the element in its namespace.
    pub fn get_local_name(&self) -> (name: &Name)
        ensures
            name@ == self@.local_name,
    {
        &self.local_name
    }

    /// The namespace of the element.
    pub fn get_namespace(&self) -> (namespace: &Name)
        ensures
            namespace@ == self@.namespace,
    {
        &self.namespace
    }

    /// The parsed `style` attribute.
    pub fn style_attribute(&self) -> (declarations: &Option<Shared<'h, D>>)
        ensures
            *declarations == self@.style_attribute,
    {
        &self.style_attribute
    }

    /// The value of the attribute with this namespace and name.
    pub fn get_attr(&self, namespace: &Name, name: &Name) -> (value: Option<&String>)
        ensures
            match value {
                Some(value) => attribute_value(self@.attributes, namespace@, name@) == Some(value@),
                None => attribute_value(self@.attributes, namespace@, name@) is None,
            },
    {
        let ghost all = self@.attributes;
        assert(all.skip(0) =~= all);
        for i in 0..self.attributes.len()
            invariant
                all == attribute_views(self.attributes@),
                attribute_value(all, namespace@, name@) == attribute_value(
                    all.skip(i as int),
                    namespace@,
                    name@,
                ),
        {
            let attribute = &self.attributes[i];
            assert(all.skip(i as int)[0] == attribute@);
            assert(all.skip(i as int).skip(1) =~= all.skip(i + 1));
            if attribute.namespace == *namespace && attribute.name == *name {
                return Some(&attribute.value);
            }
        }
        None
    }
}

/// What a node is, with the element of an element node.
pub enum NodeKind<'h, D> {
    Element(LayoutElement<'h, D>),
    Text,
    Other,
}

/// The part of the layout data that other nodes may read. `V` is the type of computed values.
pub struct SharedLayoutData<'h, V> {
    /// The style of the node, once it has one.
    pub style: Option<Shared<'h, V>>,
}

/// The part of the layout data that only the node itself reads.
pub struct PrivateLayoutData<'h, V> {
    /// The style of the `:before` pseudo-element, once it has one.
    pub before_style: Option<Shared<'h, V>>,
    /// The style of the `:after` pseudo-element, once it has one.
    pub after_style: Option<Shared<'h, V>>,
}

/// The layout data of a node.
pub struct LayoutDataWrapper<'h, V> {
    pub shared_data: SharedLayoutData<'h, V>,
    pub data: PrivateLayoutData<'h, V>,
}

/// A node. `D` is the type of a list of property declarations, `V` that of computed values.
pub struct LayoutNode<'h, D, V> {
    pub kind: NodeKind<'h, D>,
    pub layout_data: Option<LayoutDataWrapper<'h, V>>,
}

impl<'h, D, V> LayoutNode<'h, D, V> {
    /// The model of the element that this node is, if it is one.
    pub open spec fn element(self) -> Option<ElementView<'h, D>> {
        match self.kind {
            NodeKind::Element(element) => Some(element@),
            _ => None,
        }
    }

    /// The style of the node, if it has layout data and was styled.
    pub open spec fn style(self) -> Option<Shared<'h, V>> {
        match self.layout_data {
            Some(layout_data) => layout_data.shared_data.style,
            None => None,
        }
    }

    /// Whether the node is an element.
    pub fn is_element(&self) -> (is_element: bool)
        ensures
            is_element == (self.element() is Some),
    {
        match &self.kind {
            NodeKind::Element(_) => true,
            _ => false,
        }
    }

    /// The element that the node is.
    pub fn as_element(&self) -> (element: &LayoutElement<'h, D>)
        requires
            self.element() is Some,
        ensures
            self.kind == NodeKind::Element(*element),
            self.element() == Some(element@),
    {
        match &self.kind {
            NodeKind::Element(element) => element,
            _ => {
                assert(false);
                vstd::pervasive::unreached()
            },
        }
    }

    /// The style of the node, if it has layout data and was styled.
    pub fn get_style(&self) -> (style: Option<&Shared<'h, V>>)
        ensures
            match style {
                Some(style) => self.style() == Some(*style),
                None => self.style() is None,
            },
    {
        match &self.layout_data {
            Some(layout_data) => layout_data.shared_data.style.as_ref(),
            None => None,
        }
    }
}

} // verus!
