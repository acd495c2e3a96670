use crate::rtr::number::Number;
use crate::rwl::value::{PropertyPath, Value, ValueModel};
use crate::shared::color::Color;
use vstd::prelude::*;

verus! {

/// The kind of a block of the markup language.
#[derive(Debug)]
pub enum BlockType {
    Root,
    Frame,
    Section,
    Script,
    Button,
    Unknown(String),
}

/// The mathematical value of a [`BlockType`].
pub enum BlockKind {
    Root,
    Frame,
    Section,
    Script,
    Button,
    Unknown(Seq<char>),
}

impl View for BlockType {
    type V = BlockKind;

    open spec fn view(&self) -> BlockKind {
        match self {
            BlockType::Root => BlockKind::Root,
            BlockType::Frame => BlockKind::Frame,
            BlockType::Section => BlockKind::Section,
            BlockType::Script => BlockKind::Script,
            BlockType::Button => BlockKind::Button,
            BlockType::Unknown(s) => BlockKind::Unknown(s@),
        }
    }
}

impl BlockType {
    /// A copy of the kind.
    pub fn copy(&self) -> (out: BlockType)
        ensures
            out@ == self@,
    {
        match self {
            BlockType::Root => BlockType::Root,
            BlockType::Frame => BlockType::Frame,
            BlockType::Section => BlockType::Section,
            BlockType::Script => BlockType::Script,
            BlockType::Button => BlockType::Button,
            BlockType::Unknown(s) => BlockType::Unknown(s.clone()),
        }
    }
}

/// A value as it is written in a document.
#[derive(Debug)]
pub enum AstValue {
    Str(String),
    Num(Number),
    Percentage(Number),
    Color(Color),
    Property(PropertyPath),
}

impl View for AstValue {
    type V = ValueModel;

    open spec fn view(&self) -> ValueModel {
        match self {
            AstValue::Str(s) => ValueModel::Str(s@),
            AstValue::Num(n) => ValueModel::Num(*n),
            AstValue::Percentage(n) => ValueModel::Percentage(*n),
            AstValue::Color(c) => ValueModel::Color(*c),
            AstValue::Property(p) => ValueModel::Property(*p),
        }
    }
}

impl AstValue {
    /// The value for use in a document that is laid out.
    pub fn instance(&self) -> (out: Value)
        ensures
            out@ == self@,
    {
        match self {
            AstValue::Str(data) => Value::Str(data.clone()),
            AstValue::Num(data) => Value::Num(*data),
            AstValue::Percentage(data) => Value::Percentage(*data),
            AstValue::Color(data) => Value::Color(*data),
            AstValue::Property(path) => Value::Property(*path),
        }
    }
}

/// One entry of a header: a name with a value, or a name alone.
#[derive(Debug)]
pub enum AstHeaderItem {
    Pair(String, AstValue),
    Flag(String),
}

/// The mathematical value of an [`AstHeaderItem`].
pub enum ItemModel {
    Pair(Seq<char>, ValueModel),
    Flag(Seq<char>),
}

impl View for AstHeaderItem {
    type V = ItemModel;

    open spec fn view(&self) -> ItemModel {
        match self {
            AstHeaderItem::Pair(name, value) => ItemModel::Pair(name@, value@),
            AstHeaderItem::Flag(name) => ItemModel::Flag(name@),
        }
    }
}

/// The header of a block or an element: its entries in the order in which
/// they are written.
#[derive(Debug)]
pub struct AstHeader {
    pub attributes: Vec<AstHeaderItem>,
}

/// The models of a sequence of header entries.
pub open spec fn item_models(items: Seq<AstHeaderItem>) -> Seq<ItemModel> {
    Seq::new(items.len(), |i: int| items[i]@)
}

impl View for AstHeader {
    type V = Seq<ItemModel>;

    open spec fn view(&self) -> Seq<ItemModel> {
        item_models(self.attributes@)
    }
}

/// A node of a document.
#[derive(Debug)]
pub enum AstNode {
    Empty,
    Document(Vec<AstNode>),
    Block(BlockType, AstHeader, Vec<AstNode>),
    Element(AstValue, AstHeader),
}

/// The mathematical value of an [`AstNode`].
pub enum NodeModel {
    Empty,
    Document(Seq<NodeModel>),
    Block(BlockKind, Seq<ItemModel>, Seq<NodeModel>),
    Element(ValueModel, Seq<ItemModel>),
}

impl AstNode {
    /// The mathematical value of the node.
    pub open spec fn model(&self) -> NodeModel
        decreases self,
    {
        match self {
            AstNode::Empty => NodeModel::Empty,
            AstNode::Document(children) => NodeModel::Document(
                Seq::new(
                    children@.len(),
                    |i: int|
                        if 0 <= i < children@.len() {
                            children@[i].model()
                        } else {
                            arbitrary()
                        },
                ),
            ),
            AstNode::Block(kind, header, children) => NodeModel::Block(
                kind@,
                header@,
                Seq::new(
                    children@.len(),
                    |i: int|
                        if 0 <= i < children@.len() {
                            children@[i].model()
                        } else {
                            arbitrary()
                        },
                ),
            ),
            AstNode::Element(value, header) => NodeModel::Element(value@, header@),
        }
    }
}

impl View for AstNode {
    type V = NodeModel;

    open spec fn view(&self) -> NodeModel {
        self.model()
    }
}

/// The models of a sequence of nodes.
pub open spec fn node_models(nodes: Seq<AstNode>) -> Seq<NodeModel> {
    Seq::new(nodes.len(), |i: int| nodes[i]@)
}

} // verus!
