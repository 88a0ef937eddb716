//! The parsed declarations that configuration is looked up for.

use vstd::prelude::*;

verus! {

/// The kinds of declaration that a lookup tells apart.
#[derive(Debug, Clone, Copy, PartialEq, Eq, Structural)]
pub enum EntityKind {
    ObjCInterfaceDecl,
    ObjCClassRef,
    ObjCCategoryDecl,
    ObjCProtocolDecl,
    ObjCProtocolRef,
    TypedefDecl,
    StructDecl,
    UnionDecl,
    EnumDecl,
    EnumConstantDecl,
    VarDecl,
    FunctionDecl,
    FieldDecl,
    ObjCClassMethodDecl,
    ObjCInstanceMethodDecl,
    ObjCPropertyDecl,
    MacroDefinition,
    MacroExpansion,
    UnexposedDecl,
    /// Any other kind. No configuration is expected for it.
    Unknown,
}

/// The tables of a library's configuration that hold statements.
#[derive(Debug, Clone, Copy, PartialEq, Eq, Structural)]
pub enum StmtTable {
    Class,
    Protocol,
    Struct,
    Union,
    Enum,
    Fn,
    Static,
    Typedef,
    Const,
}

impl EntityKind {
    /// The table that holds the configuration of declarations of this kind.
    pub open spec fn table_spec(self) -> Option<StmtTable> {
        match self {
            EntityKind::ObjCInterfaceDecl | EntityKind::ObjCClassRef => Some(StmtTable::Class),
            EntityKind::ObjCProtocolDecl | EntityKind::ObjCProtocolRef => Some(
                StmtTable::Protocol,
            ),
            EntityKind::TypedefDecl => Some(StmtTable::Typedef),
            EntityKind::StructDecl => Some(StmtTable::Struct),
            EntityKind::UnionDecl => Some(StmtTable::Union),
            EntityKind::EnumDecl => Some(StmtTable::Enum),
            EntityKind::EnumConstantDecl => Some(StmtTable::Const),
            EntityKind::VarDecl => Some(StmtTable::Static),
            EntityKind::FunctionDecl => Some(StmtTable::Fn),
            _ => None,
        }
    }

    /// The table that holds the configuration of declarations of this kind, if any does.
    pub fn table(self) -> (table: Option<StmtTable>)
        ensures
            table == self.table_spec(),
    {
        match self {
            EntityKind::ObjCInterfaceDecl | EntityKind::ObjCClassRef => Some(StmtTable::Class),
            EntityKind::ObjCCategoryDecl => None,
            EntityKind::ObjCProtocolDecl | EntityKind::ObjCProtocolRef => Some(
                StmtTable::Protocol,
            ),
            EntityKind::TypedefDecl => Some(StmtTable::Typedef),
            EntityKind::StructDecl => Some(StmtTable::Struct),
            EntityKind::UnionDecl => Some(StmtTable::Union),
            EntityKind::EnumDecl => Some(StmtTable::Enum),
            EntityKind::EnumConstantDecl => Some(StmtTable::Const),
            EntityKind::VarDecl => Some(StmtTable::Static),
            EntityKind::FunctionDecl => Some(StmtTable::Fn),
            EntityKind::FieldDecl => None,
            EntityKind::ObjCClassMethodDecl
            | EntityKind::ObjCInstanceMethodDecl
            | EntityKind::ObjCPropertyDecl => None,
            EntityKind::MacroDefinition | EntityKind::MacroExpansion => None,
            EntityKind::UnexposedDecl => None,
            EntityKind::Unknown => None,
        }
    }
}

/// A declaration, as far as a lookup reads it.
#[derive(Debug, Clone, PartialEq, Eq)]
pub struct Entity {
    pub anonymous: bool,
    pub name: Option<String>,
    pub kind: EntityKind,
}

/// The name under which anonymous declarations are configured.
pub const ANONYMOUS: &'static str = "__anonymous__";

impl Entity {
    /// The name under which a declaration is looked up. A declaration without a name that is
    /// not anonymous is looked up under none.
    pub open spec fn lookup_name_spec(&self) -> Option<Seq<char>> {
        if self.anonymous {
            Some(ANONYMOUS@)
        } else {
            match self.name {
                Some(name) => Some(name@),
                None => None,
            }
        }
    }

    /// The name under which this declaration is looked up.
    pub fn lookup_name(&self) -> (name: Option<String>)
        ensures
            name matches Some(n) ==> self.lookup_name_spec() == Some(n@),
            name is None <==> self.lookup_name_spec() is None,
    {
        if self.anonymous {
            // Anonymous declarations have no name of their own that a configuration could use.
            Some(ANONYMOUS.to_owned())
        } else {
            match &self.name {
                Some(name) => Some(name.clone()),
                None => None,
            }
        }
    }
}

} // verus!
