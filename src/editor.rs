use vstd::prelude::*;
use vstd::string::*;

use crate::decimal::Decimal;
use crate::nodes::ShaderNodes;

verus! {

/// The widgets that a node can carry in its slot.
#[derive(Clone, Copy, Debug, PartialEq, Eq, Structural)]
pub enum WidgetKind {
    /// A live preview of the compiled shader.
    MaterialPreview,
    /// A texture picked from a file.
    Texture,
    /// A number typed in.
    NumberInput,
}

/// The widgets that the editor registers, in order.
#[derive(Clone, Copy, Debug, Default)]
pub struct WidgetPlugins;

impl WidgetPlugins {
    pub open spec fn spec_build() -> Seq<WidgetKind> {
        seq![WidgetKind::MaterialPreview, WidgetKind::Texture, WidgetKind::NumberInput]
    }

    pub fn build(self) -> (r: Vec<WidgetKind>)
        ensures
            r@ == Self::spec_build(),
    {
        let r = vec![WidgetKind::MaterialPreview, WidgetKind::Texture, WidgetKind::NumberInput];
        assert(r@ =~= Self::spec_build());
        r
    }
}

/// The entries of the menu that adds nodes: a label and the node it adds.
pub open spec fn menu_entries() -> Seq<(Seq<char>, ShaderNodes)> {
    seq![
        ("Normal"@, ShaderNodes::Normal),
        ("UV"@, ShaderNodes::UV),
        ("Texture"@, ShaderNodes::Texture),
        ("Extend"@, ShaderNodes::Extend(Decimal { units: 0 })),
        ("Saturate"@, ShaderNodes::Saturate),
        ("Component"@, ShaderNodes::Component),
        ("Vector"@, ShaderNodes::Vector),
        ("Print"@, ShaderNodes::Print),
        ("Preview"@, ShaderNodes::MaterialPreview),
    ]
}

/// The menu that adds nodes to the graph.
#[derive(Clone, Copy, Debug, Default)]
pub struct Menu;

impl Menu {
    pub fn options(&self) -> (r: Vec<(String, ShaderNodes)>)
        ensures
            r@.map_values(|o: (String, ShaderNodes)| (o.0@, o.1)) == menu_entries(),
    {
        let r = vec![
            (String::from_str("Normal"), ShaderNodes::Normal),
            (String::from_str("UV"), ShaderNodes::UV),
            (String::from_str("Texture"), ShaderNodes::Texture),
            (String::from_str("Extend"), ShaderNodes::Extend(Decimal::zero())),
            (String::from_str("Saturate"), ShaderNodes::Saturate),
            (String::from_str("Component"), ShaderNodes::Component),
            (String::from_str("Vector"), ShaderNodes::Vector),
            (String::from_str("Print"), ShaderNodes::Print),
            (String::from_str("Preview"), ShaderNodes::MaterialPreview),
        ];
        assert(r@.map_values(|o: (String, ShaderNodes)| (o.0@, o.1)) =~= menu_entries());
        r
    }
}

impl ShaderNodes {
    /// The widget in the node's slot, if it has one.
    pub open spec fn spec_widget(self) -> Option<WidgetKind> {
        match self {
            ShaderNodes::MaterialPreview => Some(WidgetKind::MaterialPreview),
            ShaderNodes::Texture => Some(WidgetKind::Texture),
            ShaderNodes::Extend(_) => Some(WidgetKind::NumberInput),
            _ => None,
        }
    }

    pub fn widget(&self) -> (r: Option<WidgetKind>)
        ensures
            r == self.spec_widget(),
    {
        match self {
            ShaderNodes::MaterialPreview => Some(WidgetKind::MaterialPreview),
            ShaderNodes::Texture => Some(WidgetKind::Texture),
            ShaderNodes::Extend(_) => Some(WidgetKind::NumberInput),
            _ => None,
        }
    }

    /// Takes the number typed into the node's widget: an Extend node pads
    /// with it from now on; other kinds have no number.
    pub fn set_value(&mut self, value: Decimal)
        ensures
            *final(self) == match *old(self) {
                ShaderNodes::Extend(_) => ShaderNodes::Extend(value),
                other => other,
            },
    {
        if let ShaderNodes::Extend(_) = self {
            *self = ShaderNodes::Extend(value);
        }
    }

    /// The height in pixels of the slot that holds the node's widget, for the
    /// kinds that have a slot.
    pub open spec fn spec_slot_height(self) -> Option<u32> {
        match self {
            ShaderNodes::Extend(_) => Some(20),
            ShaderNodes::MaterialPreview => Some(400),
            ShaderNodes::Texture => Some(200),
            _ => None,
        }
    }

    pub fn slot_height(&self) -> (r: Option<u32>)
        ensures
            r == self.spec_slot_height(),
    {
        match self {
            ShaderNodes::Extend(_) => Some(20),
            ShaderNodes::MaterialPreview => Some(400),
            ShaderNodes::Texture => Some(200),
            _ => None,
        }
    }

    /// The width in pixels of the node, for the kinds wider than the editor's
    /// default.
    pub open spec fn spec_width(self) -> Option<u32> {
        match self {
            ShaderNodes::MaterialPreview => Some(400),
            ShaderNodes::Texture => Some(200),
            _ => None,
        }
    }

    pub fn width(&self) -> (r: Option<u32>)
        ensures
            r == self.spec_width(),
    {
        match self {
            ShaderNodes::MaterialPreview => Some(400),
            ShaderNodes::Texture => Some(200),
            _ => None,
        }
    }

    /// The title shown on the node.
    pub open spec fn spec_title(self) -> Seq<char> {
        match self {
            ShaderNodes::Component => "Component"@,
            ShaderNodes::Extend(_) => "Extend"@,
            ShaderNodes::MaterialPreview => "Preview"@,
            ShaderNodes::Normal => "Normal"@,
            ShaderNodes::Print => "Print"@,
            ShaderNodes::Saturate => "Saturate"@,
            ShaderNodes::Texture => "Texture"@,
            ShaderNodes::UV => "UV"@,
            ShaderNodes::Vector => "Vector"@,
        }
    }

    pub fn title(&self) -> (r: &'static str)
        ensures
            r@ == self.spec_title(),
    {
        match self {
            ShaderNodes::Component => "Component",
            ShaderNodes::Extend(_) => "Extend",
            ShaderNodes::MaterialPreview => "Preview",
            ShaderNodes::Normal => "Normal",
            ShaderNodes::Print => "Print",
            ShaderNodes::Saturate => "Saturate",
            ShaderNodes::Texture => "Texture",
            ShaderNodes::UV => "UV",
            ShaderNodes::Vector => "Vector",
        }
    }
}

} // verus!
