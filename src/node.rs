use crate::render::{HtmlNodeType, NodeKind};
use vstd::prelude::*;

verus! {

/// An item of a row: the node's own label, or the widget of a child node.
#[derive(Debug, Clone, Copy, PartialEq, Eq, Structural)]
pub enum Piece {
    Label,
    Child(usize),
}

/// What a widget node shows: nothing yet, a vertical stack of child
/// widgets, a single label, or a row that starts with the label.
#[derive(Debug, PartialEq, Eq)]
pub enum Slot {
    Unset,
    Stack(Vec<usize>),
    Label,
    Row(Vec<Piece>),
}

/// The mathematical value of a [`Slot`].
pub enum SlotView {
    Unset,
    Stack(Seq<usize>),
    Label,
    Row(Seq<Piece>),
}

impl Slot {
    pub open spec fn view(&self) -> SlotView {
        match self {
            Slot::Unset => SlotView::Unset,
            Slot::Stack(v) => SlotView::Stack(v@),
            Slot::Label => SlotView::Label,
            Slot::Row(v) => SlotView::Row(v@),
        }
    }
}

/// What the widget toolkit must do for one incoming child.
#[derive(Debug, Clone, Copy, PartialEq, Eq, Structural)]
pub enum LayoutAction {
    /// Add the child to the node's vertical stack.
    AddToStack,
    /// Take the label out, put a row in its place holding the label and
    /// then the child.
    Promote,
    /// Add the child to the end of the node's row.
    AddToRow,
}

/// The slot that a node of kind `k` starts with.
pub open spec fn initial_slot(k: NodeKind) -> SlotView {
    match k {
        NodeKind::Generic => SlotView::Stack(Seq::empty()),
        NodeKind::Text(_) => SlotView::Label,
    }
}

/// The slot after `child` comes into a node whose slot is `s`.
pub open spec fn after_child(s: SlotView, child: usize) -> SlotView {
    match s {
        SlotView::Unset => SlotView::Unset,
        SlotView::Stack(v) => SlotView::Stack(v.push(child)),
        SlotView::Label => SlotView::Row(seq![Piece::Label, Piece::Child(child)]),
        SlotView::Row(v) => SlotView::Row(v.push(Piece::Child(child))),
    }
}

/// The action that a child coming into a node whose slot is `s` calls for.
pub open spec fn action_for(s: SlotView) -> LayoutAction {
    match s {
        SlotView::Row(_) => LayoutAction::AddToRow,
        SlotView::Label => LayoutAction::Promote,
        _ => LayoutAction::AddToStack,
    }
}

/// A text node that receives two children in turn ends with one row that
/// holds its label, then the first child, then the second.
pub proof fn lemma_text_row_order(t: Seq<char>, first: usize, second: usize)
    ensures
        after_child(after_child(initial_slot(NodeKind::Text(t)), first), second) == SlotView::Row(
            seq![Piece::Label, Piece::Child(first), Piece::Child(second)],
        ),
        action_for(initial_slot(NodeKind::Text(t))) == LayoutAction::Promote,
        action_for(after_child(initial_slot(NodeKind::Text(t)), first)) == LayoutAction::AddToRow,
{
    assert(seq![Piece::Label, Piece::Child(first)].push(Piece::Child(second)) =~= seq![
        Piece::Label,
        Piece::Child(first),
        Piece::Child(second),
    ]);
}

/// A node of the widget tree: its kind and what it shows.
pub struct HtmlNode {
    pub node_type: HtmlNodeType,
    pub slot: Slot,
}

impl HtmlNode {
    /// A generic node that shows nothing yet.
    pub fn new() -> (r: HtmlNode)
        ensures
            r.node_type@ == NodeKind::Generic,
            r.slot@ == SlotView::Unset,
    {
        HtmlNode { node_type: HtmlNodeType::Generic, slot: Slot::Unset }
    }

    /// Gives the node its kind: a generic node gets an empty stack, a text
    /// node a single label.
    pub fn set_node_type(&mut self, new_type: HtmlNodeType)
        ensures
            final(self).node_type@ == new_type@,
            final(self).slot@ == initial_slot(new_type@),
    {
        self.slot = match &new_type {
            HtmlNodeType::Generic => Slot::Stack(Vec::new()),
            HtmlNodeType::Text(_) => Slot::Label,
        };
        self.node_type = new_type;
    }

    /// Composes the widget of node `child` into this one: a stack takes it
    /// last; a label is promoted to a row holding the label and the child;
    /// a row takes it last.
    pub fn add_html_child(&mut self, child: usize) -> (r: LayoutAction)
        requires
            old(self).slot@ != SlotView::Unset,
        ensures
            final(self).node_type == old(self).node_type,
            final(self).slot@ == after_child(old(self).slot@, child),
            r == action_for(old(self).slot@),
    {
        let mut slot = Slot::Unset;
        std::mem::swap(&mut self.slot, &mut slot);
        match slot {
            Slot::Stack(v) => {
                let mut v = v;
                v.push(child);
                self.slot = Slot::Stack(v);
                LayoutAction::AddToStack
            },
            Slot::Label => {
                let row = vec![Piece::Label, Piece::Child(child)];
                self.slot = Slot::Row(row);
                assert(self.slot@ =~~= after_child(old(self).slot@, child));
                LayoutAction::Promote
            },
            Slot::Row(v) => {
                let mut v = v;
                v.push(Piece::Child(child));
                self.slot = Slot::Row(v);
                LayoutAction::AddToRow
            },
            Slot::Unset => LayoutAction::AddToStack,
        }
    }
}

} // verus!
