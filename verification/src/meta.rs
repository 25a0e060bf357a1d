//! The declaration that a page is built from: a structure, its fields, and
//! the metadata attached to both, written down as plain values.
//!
//! Whoever reads the source text fills these types in; the builders of the
//! `page` module only ever look at them. Every type has a view that holds
//! its texts as sequences of characters.

use crate::seqs::views;
use vstd::prelude::*;

verus! {

/// A place in the source text. The number is a handle that the reader of the
/// source assigns; the builders hand it back with each error and never look
/// inside.
#[derive(Clone, Copy, Debug, PartialEq, Eq, Structural)]
pub struct Span {
    pub id: usize,
}

/// Why a declaration was refused.
#[derive(Clone, Copy, Debug, PartialEq, Eq, Structural)]
pub enum MetadataErrorKind {
    /// No `path` was declared for the page, or an empty one.
    MissingPath,
    /// The `refresh` value is no duration literal.
    InvalidDuration,
    /// A key inside a recognised group is not one of the group's keys, or
    /// its value is no string.
    UnknownAttribute,
    /// A column declares `field` twice.
    DuplicateField,
    /// A column declares `header` twice.
    DuplicateHeader,
    /// A column declares no `field`.
    MissingField,
    /// A field has no name.
    NamelessField,
    /// The declaration is no structure.
    NotAStruct,
}

/// A refused declaration: the reason and the place it points at.
#[derive(Clone, Copy, Debug, PartialEq, Eq, Structural)]
pub struct MetadataError {
    pub kind: MetadataErrorKind,
    pub span: Span,
}

/// The name that a piece of metadata goes by. `ident` is the single
/// identifier it consists of, `None` where it is a longer path.
#[derive(Clone, Debug, PartialEq, Eq)]
pub struct Key {
    pub ident: Option<String>,
    pub span: Span,
}

/// The value given to a key. `text` is what a string literal holds, `None`
/// where the value is no string literal.
#[derive(Clone, Debug, PartialEq, Eq)]
pub struct Value {
    pub text: Option<String>,
    pub span: Span,
}

/// `key = value`.
#[derive(Clone, Debug, PartialEq, Eq)]
pub struct NameValue {
    pub key: Key,
    pub value: Value,
}

/// One entry of a group.
#[derive(Clone, Debug, PartialEq, Eq)]
pub enum Nested {
    /// `key = value`.
    NameValue(NameValue),
    /// Anything else: a literal, a bare name, a group inside the group.
    Other,
}

/// A group: `key(entry, entry, ...)`.
#[derive(Clone, Debug, PartialEq, Eq)]
pub struct MetaList {
    pub key: Key,
    pub span: Span,
    pub nested: Vec<Nested>,
}

/// The three shapes of metadata.
#[derive(Clone, Debug, PartialEq, Eq)]
pub enum Meta {
    /// A bare marker: `key`.
    Path(Key),
    /// A group: `key(...)`.
    List(MetaList),
    /// `key = value`.
    NameValue(NameValue),
}

/// One attribute of a structure or a field. `meta` is `None` where the
/// attribute does not have the shape of metadata.
#[derive(Clone, Debug, PartialEq, Eq)]
pub struct Attribute {
    pub meta: Option<Meta>,
}

/// A field of a structure. `ident` is `None` for a field without a name.
#[derive(Clone, Debug, PartialEq, Eq)]
pub struct FieldDeclaration {
    pub ident: Option<String>,
    pub span: Span,
    pub attrs: Vec<Attribute>,
}

/// What a declaration declares.
#[derive(Clone, Debug, PartialEq, Eq)]
pub enum Data {
    /// A structure with these fields, in the order of the source.
    Struct(Vec<FieldDeclaration>),
    /// An enumeration or a union.
    Other,
}

/// A whole declaration: the name of the type, its attributes and its body.
#[derive(Clone, Debug, PartialEq, Eq)]
pub struct Declaration {
    pub ident: String,
    pub span: Span,
    pub attrs: Vec<Attribute>,
    pub data: Data,
}

/// The view of a `Key`.
pub struct KeyView {
    pub ident: Option<Seq<char>>,
    pub span: Span,
}

/// The view of a `Value`.
pub struct ValueView {
    pub text: Option<Seq<char>>,
    pub span: Span,
}

/// The view of a `NameValue`.
pub struct NameValueView {
    pub key: KeyView,
    pub value: ValueView,
}

/// The view of a `Nested`.
pub enum NestedView {
    NameValue(NameValueView),
    Other,
}

/// The view of a `MetaList`.
pub struct MetaListView {
    pub key: KeyView,
    pub span: Span,
    pub nested: Seq<NestedView>,
}

/// The view of a `Meta`.
pub enum MetaView {
    Path(KeyView),
    List(MetaListView),
    NameValue(NameValueView),
}

/// The view of an `Attribute`.
pub struct AttributeView {
    pub meta: Option<MetaView>,
}

/// The view of a `FieldDeclaration`.
pub struct FieldDeclarationView {
    pub ident: Option<Seq<char>>,
    pub span: Span,
    pub attrs: Seq<AttributeView>,
}

/// The view of a `Data`.
pub enum DataView {
    Struct(Seq<FieldDeclarationView>),
    Other,
}

/// The view of a `Declaration`.
pub struct DeclarationView {
    pub ident: Seq<char>,
    pub span: Span,
    pub attrs: Seq<AttributeView>,
    pub data: DataView,
}

/// The view of a text that may be missing.
pub open spec fn text_view(text: Option<String>) -> Option<Seq<char>> {
    match text {
        Some(s) => Some(s@),
        None => None,
    }
}

impl View for Key {
    type V = KeyView;

    open spec fn view(&self) -> KeyView {
        KeyView { ident: text_view(self.ident), span: self.span }
    }
}

impl View for Value {
    type V = ValueView;

    open spec fn view(&self) -> ValueView {
        ValueView { text: text_view(self.text), span: self.span }
    }
}

impl View for NameValue {
    type V = NameValueView;

    open spec fn view(&self) -> NameValueView {
        NameValueView { key: self.key@, value: self.value@ }
    }
}

impl View for Nested {
    type V = NestedView;

    open spec fn view(&self) -> NestedView {
        match self {
            Nested::NameValue(nv) => NestedView::NameValue(nv@),
            Nested::Other => NestedView::Other,
        }
    }
}

impl View for MetaList {
    type V = MetaListView;

    open spec fn view(&self) -> MetaListView {
        MetaListView { key: self.key@, span: self.span, nested: views(self.nested@) }
    }
}

impl View for Meta {
    type V = MetaView;

    open spec fn view(&self) -> MetaView {
        match self {
            Meta::Path(key) => MetaView::Path(key@),
            Meta::List(list) => MetaView::List(list@),
            Meta::NameValue(nv) => MetaView::NameValue(nv@),
        }
    }
}

impl View for Attribute {
    type V = AttributeView;

    open spec fn view(&self) -> AttributeView {
        AttributeView {
            meta: match self.meta {
                Some(meta) => Some(meta@),
                None => None,
            },
        }
    }
}

impl View for FieldDeclaration {
    type V = FieldDeclarationView;

    open spec fn view(&self) -> FieldDeclarationView {
        FieldDeclarationView {
            ident: text_view(self.ident),
            span: self.span,
            attrs: views(self.attrs@),
        }
    }
}

impl View for Data {
    type V = DataView;

    open spec fn view(&self) -> DataView {
        match self {
            Data::Struct(fields) => DataView::Struct(views(fields@)),
            Data::Other => DataView::Other,
        }
    }
}

impl View for Declaration {
    type V = DeclarationView;

    open spec fn view(&self) -> DeclarationView {
        DeclarationView {
            ident: self.ident@,
            span: self.span,
            attrs: views(self.attrs@),
            data: self.data@,
        }
    }
}

/// An entry `name = "text"`: the key is the identifier `name` and the value
/// a string literal.
pub open spec fn is_text_key(item: NestedView, name: Seq<char>) -> bool {
    item matches NestedView::NameValue(nv) && nv.key.ident == Some(name) && nv.value.text is Some
}

/// An entry that the builders look at: `key = value` whose key is a single
/// identifier. All other entries are passed over.
pub open spec fn is_named(item: NestedView) -> bool {
    item matches NestedView::NameValue(nv) && nv.key.ident is Some
}

/// The text of an entry `key = "text"`.
pub open spec fn entry_text(item: NestedView) -> Seq<char>
    recommends
        item matches NestedView::NameValue(nv) && nv.value.text is Some,
{
    item->NameValue_0.value.text->0
}

/// The place of the key of an entry `key = value`.
pub open spec fn key_span(item: NestedView) -> Span
    recommends
        item is NameValue,
{
    item->NameValue_0.key.span
}

/// The place of the value of an entry `key = value`.
pub open spec fn value_span(item: NestedView) -> Span
    recommends
        item is NameValue,
{
    item->NameValue_0.value.span
}

/// A bare marker whose key is the identifier `name`.
pub open spec fn is_marker(attr: AttributeView, name: Seq<char>) -> bool {
    attr.meta matches Some(MetaView::Path(key)) && key.ident == Some(name)
}

impl MetadataErrorKind {
    /// The message that goes with the reason.
    pub open spec fn message_text(self) -> Seq<char> {
        match self {
            MetadataErrorKind::MissingPath => "Missing required path declaration"@,
            MetadataErrorKind::InvalidDuration => "Invalid duration"@,
            MetadataErrorKind::UnknownAttribute => "Unknown attribute"@,
            MetadataErrorKind::DuplicateField => "Duplicate field attribute"@,
            MetadataErrorKind::DuplicateHeader => "Duplicate header attribute"@,
            MetadataErrorKind::MissingField => "Missing field"@,
            MetadataErrorKind::NamelessField => "Nameless structures not supported"@,
            MetadataErrorKind::NotAStruct => "Only structs are supported"@,
        }
    }
}

impl MetadataError {
    /// The message for the person who wrote the declaration.
    pub fn message(&self) -> (r: &'static str)
        ensures
            r@ == self.kind.message_text(),
    {
        match self.kind {
            MetadataErrorKind::MissingPath => "Missing required path declaration",
            MetadataErrorKind::InvalidDuration => "Invalid duration",
            MetadataErrorKind::UnknownAttribute => "Unknown attribute",
            MetadataErrorKind::DuplicateField => "Duplicate field attribute",
            MetadataErrorKind::DuplicateHeader => "Duplicate header attribute",
            MetadataErrorKind::MissingField => "Missing field",
            MetadataErrorKind::NamelessField => "Nameless structures not supported",
            MetadataErrorKind::NotAStruct => "Only structs are supported",
        }
    }
}

} // verus!
