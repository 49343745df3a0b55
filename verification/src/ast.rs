//! The syntax tree that the grammar rules build.
//!
//! Every node owns its children; the tree holds no reference back into the
//! token stream.

use vstd::prelude::*;

verus! {

/// One field of an event: its name and the name of its type, as written.
#[derive(Clone, Debug, PartialEq, Eq)]
pub struct EventField {
    pub name: String,
    pub typ: String,
}

/// The view of an [`EventField`].
pub struct EventFieldView {
    pub name: Seq<char>,
    pub typ: Seq<char>,
}

impl View for EventField {
    type V = EventFieldView;

    open spec fn view(&self) -> EventFieldView {
        EventFieldView { name: self.name@, typ: self.typ@ }
    }
}

/// The views of a run of fields, in order.
pub open spec fn field_views(fields: Seq<EventField>) -> Seq<EventFieldView> {
    fields.map_values(|f: EventField| f@)
}

/// A declaration at the top level of a module.
#[derive(Clone, Debug, PartialEq, Eq)]
pub enum ModuleStmt {
    /// An event definition: its name and its fields in declaration order.
    EventDef { name: String, fields: Vec<EventField> },
}

/// The view of a [`ModuleStmt`].
pub enum ModuleStmtView {
    EventDef { name: Seq<char>, fields: Seq<EventFieldView> },
}

impl ModuleStmtView {
    /// What the grammar guarantees of a statement beyond its type: an event
    /// has at least one field.
    pub open spec fn wf(self) -> bool {
        match self {
            ModuleStmtView::EventDef { name, fields } => fields.len() > 0,
        }
    }
}

impl View for ModuleStmt {
    type V = ModuleStmtView;

    open spec fn view(&self) -> ModuleStmtView {
        match *self {
            ModuleStmt::EventDef { name, fields } => ModuleStmtView::EventDef {
                name: name@,
                fields: field_views(fields@),
            },
        }
    }
}

/// The views of a run of statements, in order.
pub open spec fn stmt_views(stmts: Seq<ModuleStmt>) -> Seq<ModuleStmtView> {
    stmts.map_values(|s: ModuleStmt| s@)
}

/// A source module: its statements in declaration order.
#[derive(Clone, Debug, PartialEq, Eq)]
pub struct Module {
    pub body: Vec<ModuleStmt>,
}

/// The view of a [`Module`].
pub struct ModuleView {
    pub body: Seq<ModuleStmtView>,
}

impl ModuleView {
    /// Every statement of the module is well formed.
    pub open spec fn wf(self) -> bool {
        forall|i: int| 0 <= i < self.body.len() ==> (#[trigger] self.body[i]).wf()
    }
}

impl View for Module {
    type V = ModuleView;

    open spec fn view(&self) -> ModuleView {
        ModuleView { body: stmt_views(self.body@) }
    }
}

} // verus!
