//! The field model of a page: what each field of the declared structure
//! becomes, how its metadata is read, and the markup it is emitted as.

use crate::meta::{
    entry_text, is_marker, is_named, is_text_key, key_span, text_view, Attribute, AttributeView,
    FieldDeclaration, FieldDeclarationView, Meta, MetaList, MetaListView, MetaView, MetadataError,
    MetadataErrorKind, Nested, NestedView,
};
use crate::seqs::{
    first_some, join_map, lemma_first_some, lemma_first_some_at, lemma_first_some_none,
    lemma_join_map_add, lemma_join_map_push, views,
};
use vstd::prelude::*;
use vstd::string::*;

verus! {

/// An operation offered on each row of a table.
#[derive(Clone, Debug, PartialEq, Eq)]
pub struct Action {
    pub name: String,
    pub action: String,
}

/// A column of a table: the field of the row that it shows, and the header
/// above it.
#[derive(Clone, Debug, PartialEq, Eq)]
pub struct TableColumn {
    pub field: String,
    pub header: Option<String>,
}

/// A field shown as a label next to its value.
#[derive(Clone, Debug, PartialEq, Eq)]
pub struct LabelField {
    pub label: Option<String>,
    pub field: String,
}

/// A field shown as a table with one row for each of its items.
#[derive(Clone, Debug, PartialEq, Eq)]
pub struct TableField {
    pub columns: Vec<TableColumn>,
    pub actions: Vec<Action>,
    pub field: String,
}

/// A field of the model: a label or a table, never both.
#[derive(Clone, Debug, PartialEq, Eq)]
pub enum Field {
    Label(LabelField),
    Table(TableField),
}

/// What the metadata of one field says.
#[derive(Clone, Debug, PartialEq, Eq)]
pub struct FieldAttributes {
    pub is_table: bool,
    pub table_columns: Vec<TableColumn>,
    pub actions: Vec<Action>,
}

/// The view of an `Action`.
pub struct ActionView {
    pub name: Seq<char>,
    pub action: Seq<char>,
}

/// The view of a `TableColumn`.
pub struct TableColumnView {
    pub field: Seq<char>,
    pub header: Option<Seq<char>>,
}

/// The view of a `LabelField`.
pub struct LabelFieldView {
    pub label: Option<Seq<char>>,
    pub field: Seq<char>,
}

/// The view of a `TableField`.
pub struct TableFieldView {
    pub columns: Seq<TableColumnView>,
    pub actions: Seq<ActionView>,
    pub field: Seq<char>,
}

/// The view of a `Field`.
pub enum FieldView {
    Label(LabelFieldView),
    Table(TableFieldView),
}

/// The view of a `FieldAttributes`.
pub struct FieldAttributesView {
    pub is_table: bool,
    pub table_columns: Seq<TableColumnView>,
    pub actions: Seq<ActionView>,
}

impl View for Action {
    type V = ActionView;

    open spec fn view(&self) -> ActionView {
        ActionView { name: self.name@, action: self.action@ }
    }
}

impl View for TableColumn {
    type V = TableColumnView;

    open spec fn view(&self) -> TableColumnView {
        TableColumnView { field: self.field@, header: text_view(self.header) }
    }
}

impl View for LabelField {
    type V = LabelFieldView;

    open spec fn view(&self) -> LabelFieldView {
        LabelFieldView { label: text_view(self.label), field: self.field@ }
    }
}

impl View for TableField {
    type V = TableFieldView;

    open spec fn view(&self) -> TableFieldView {
        TableFieldView {
            columns: views(self.columns@),
            actions: views(self.actions@),
            field: self.field@,
        }
    }
}

impl View for Field {
    type V = FieldView;

    open spec fn view(&self) -> FieldView {
        match self {
            Field::Label(inner) => FieldView::Label(inner@),
            Field::Table(inner) => FieldView::Table(inner@),
        }
    }
}

impl View for FieldAttributes {
    type V = FieldAttributesView;

    open spec fn view(&self) -> FieldAttributesView {
        FieldAttributesView {
            is_table: self.is_table,
            table_columns: views(self.table_columns@),
            actions: views(self.actions@),
        }
    }
}

/// What is wrong with entry `i` of a column declaration, given the entries
/// before it: a second `field`, a second `header`, or a key that a column
/// does not have. Entries that are not `key = value` with a plain key are
/// passed over.
pub open spec fn column_offence(items: Seq<NestedView>, i: int) -> Option<MetadataError> {
    let item = items[i];
    if !is_named(item) {
        None
    } else if is_text_key(item, "field"@) {
        if exists|j: int| 0 <= j < i && is_text_key(#[trigger] items[j], "field"@) {
            Some(MetadataError { kind: MetadataErrorKind::DuplicateField, span: key_span(item) })
        } else {
            None
        }
    } else if is_text_key(item, "header"@) {
        if exists|j: int| 0 <= j < i && is_text_key(#[trigger] items[j], "header"@) {
            Some(MetadataError { kind: MetadataErrorKind::DuplicateHeader, span: key_span(item) })
        } else {
            None
        }
    } else {
        Some(MetadataError { kind: MetadataErrorKind::UnknownAttribute, span: key_span(item) })
    }
}

/// `column_offence` for each entry.
pub open spec fn column_offences(items: Seq<NestedView>) -> Seq<Option<MetadataError>> {
    Seq::new(items.len(), |i: int| column_offence(items, i))
}

/// For each entry, its text where it is `name = "text"`.
pub open spec fn text_entries(items: Seq<NestedView>, name: Seq<char>) -> Seq<Option<Seq<char>>> {
    Seq::new(
        items.len(),
        |i: int|
            if is_text_key(items[i], name) {
                Some(entry_text(items[i]))
            } else {
                None
            },
    )
}

/// The text of the first entry `name = "text"`.
pub open spec fn first_text(items: Seq<NestedView>, name: Seq<char>) -> Option<Seq<char>> {
    match first_some(text_entries(items, name), 0) {
        Some(i) => Some(entry_text(items[i])),
        None => None,
    }
}

/// The column that a `column(...)` group declares. The first offending entry
/// decides the error; a group without offence and without `field` is refused
/// as a whole.
pub open spec fn column_of(list: MetaListView) -> Result<TableColumnView, MetadataError> {
    match first_some(column_offences(list.nested), 0) {
        Some(i) => Err(column_offences(list.nested)[i]->0),
        None => match first_text(list.nested, "field"@) {
            Some(field) => Ok(
                TableColumnView { field, header: first_text(list.nested, "header"@) },
            ),
            None => Err(
                MetadataError { kind: MetadataErrorKind::MissingField, span: list.span },
            ),
        },
    }
}

/// What is wrong with one attribute of a field: a `column(...)` group that
/// declares no column. Nothing else is held against a field: other groups,
/// bare markers, metadata of the form `name = value` and attributes that
/// are no metadata are passed over.
pub open spec fn attribute_offence(attr: AttributeView) -> Option<MetadataError> {
    match attr.meta {
        Some(MetaView::List(list)) => if list.key.ident == Some("column"@) {
            match column_of(list) {
                Ok(_) => None,
                Err(e) => Some(e),
            }
        } else {
            None
        },
        _ => None,
    }
}

/// `attribute_offence` for each attribute.
pub open spec fn attribute_offences(attrs: Seq<AttributeView>) -> Seq<Option<MetadataError>> {
    Seq::new(attrs.len(), |i: int| attribute_offence(attrs[i]))
}

/// The column that an attribute declares, where it is a `column(...)` group
/// that declares one.
pub open spec fn attribute_column(attr: AttributeView) -> Option<TableColumnView> {
    match attr.meta {
        Some(MetaView::List(list)) => if list.key.ident == Some("column"@) {
            match column_of(list) {
                Ok(column) => Some(column),
                Err(_) => None,
            }
        } else {
            None
        },
        _ => None,
    }
}

/// The columns that the attributes declare, in the order of the attributes.
pub open spec fn declared_columns(attrs: Seq<AttributeView>) -> Seq<TableColumnView>
    decreases attrs.len(),
{
    if attrs.len() == 0 {
        Seq::empty()
    } else {
        match attribute_column(attrs.last()) {
            Some(column) => declared_columns(attrs.drop_last()).push(column),
            None => declared_columns(attrs.drop_last()),
        }
    }
}

/// One of the attributes is the bare marker `table`.
pub open spec fn carries_table_marker(attrs: Seq<AttributeView>) -> bool {
    exists|i: int| 0 <= i < attrs.len() && #[trigger] is_marker(attrs[i], "table"@)
}

/// What the attributes of a field say. The first offending attribute decides
/// the error. No attribute declares an action: the list of actions is empty.
pub open spec fn field_attributes_of(attrs: Seq<AttributeView>) -> Result<
    FieldAttributesView,
    MetadataError,
> {
    match first_some(attribute_offences(attrs), 0) {
        Some(i) => Err(attribute_offences(attrs)[i]->0),
        None => Ok(
            FieldAttributesView {
                is_table: carries_table_marker(attrs),
                table_columns: declared_columns(attrs),
                actions: Seq::empty(),
            },
        ),
    }
}

/// What a declared field becomes: a table where it carries the marker
/// `table`, with the columns it declares; a label under its own name
/// otherwise. A field without a name is refused before its attributes are
/// looked at.
pub open spec fn field_of(decl: FieldDeclarationView) -> Result<FieldView, MetadataError> {
    match decl.ident {
        None => Err(MetadataError { kind: MetadataErrorKind::NamelessField, span: decl.span }),
        Some(ident) => match field_attributes_of(decl.attrs) {
            Err(e) => Err(e),
            Ok(attributes) => Ok(
                if attributes.is_table {
                    FieldView::Table(
                        TableFieldView {
                            columns: attributes.table_columns,
                            actions: attributes.actions,
                            field: ident,
                        },
                    )
                } else {
                    FieldView::Label(LabelFieldView { label: None, field: ident })
                },
            ),
        },
    }
}

/// For each declared field, the error it is refused with.
pub open spec fn field_offences(fields: Seq<FieldDeclarationView>) -> Seq<Option<MetadataError>> {
    Seq::new(
        fields.len(),
        |i: int|
            match field_of(fields[i]) {
                Ok(_) => None,
                Err(e) => Some(e),
            },
    )
}

/// The field model of a structure: one field for each declared field, in the
/// order of the declaration. The first refused field decides the error.
pub open spec fn field_model(fields: Seq<FieldDeclarationView>) -> Result<
    Seq<FieldView>,
    MetadataError,
> {
    match first_some(field_offences(fields), 0) {
        Some(i) => Err(field_offences(fields)[i]->0),
        None => Ok(Seq::new(fields.len(), |i: int| field_of(fields[i])->Ok_0)),
    }
}

/// Builds the field model of a structure from its declared fields.
pub fn parse(input: &Vec<FieldDeclaration>) -> (r: Result<Vec<Field>, MetadataError>)
    ensures
        match r {
            Ok(fields) => field_model(views(input@)) == Ok::<Seq<FieldView>, MetadataError>(
                views(fields@),
            ),
            Err(e) => field_model(views(input@)) == Err::<Seq<FieldView>, MetadataError>(e),
        },
{
    let n: usize = input.len();
    let ghost decls = views(input@);
    let mut result: Vec<Field> = Vec::new();
    let mut i: usize = 0;
    while i < n
        invariant
            0 <= i <= n,
            n == input@.len(),
            decls == views(input@),
            result@.len() == i,
            forall|j: int|
                0 <= j < i ==> (#[trigger] field_of(decls[j])) == Ok::<FieldView, MetadataError>(
                    result@[j]@,
                ),
        decreases n - i,
    {
        let decl = &input[i];
        assert(decls[i as int] == decl@);
        let ident = match &decl.ident {
            Some(ident) => ident.clone(),
            None => {
                proof {
                    lemma_first_some_at(field_offences(decls), 0, i as int);
                }
                return Err(
                    MetadataError { kind: MetadataErrorKind::NamelessField, span: decl.span },
                );
            },
        };
        let attributes = match FieldAttributes::parse(&decl.attrs) {
            Ok(attributes) => attributes,
            Err(e) => {
                proof {
                    lemma_first_some_at(field_offences(decls), 0, i as int);
                }
                return Err(e);
            },
        };
        let field = if attributes.is_table {
            Field::Table(
                TableField {
                    field: ident,
                    actions: attributes.actions,
                    columns: attributes.table_columns,
                },
            )
        } else {
            Field::Label(LabelField { field: ident, label: None })
        };
        assert(field_of(decls[i as int]) == Ok::<FieldView, MetadataError>(field@));
        result.push(field);
        i = i + 1;
    }
    proof {
        lemma_first_some_none(field_offences(decls), 0);
        assert(views(result@) =~= Seq::new(decls.len(), |i: int| field_of(decls[i])->Ok_0));
    }
    Ok(result)
}

impl FieldAttributes {
    /// Reads the attributes of one field.
    pub fn parse(attributes: &Vec<Attribute>) -> (r: Result<FieldAttributes, MetadataError>)
        ensures
            match r {
                Ok(found) => field_attributes_of(views(attributes@)) == Ok::<
                    FieldAttributesView,
                    MetadataError,
                >(found@),
                Err(e) => field_attributes_of(views(attributes@)) == Err::<
                    FieldAttributesView,
                    MetadataError,
                >(e),
            },
    {
        let mut result = FieldAttributes {
            is_table: false,
            table_columns: Vec::new(),
            actions: Vec::new(),
        };
        let n: usize = attributes.len();
        let ghost attrs = views(attributes@);
        let mut i: usize = 0;
        assert(views(result.table_columns@) =~= declared_columns(attrs.take(0)));
        while i < n
            invariant
                0 <= i <= n,
                n == attributes@.len(),
                attrs == views(attributes@),
                forall|j: int| 0 <= j < i ==> (#[trigger] attribute_offence(attrs[j])) is None,
                result.is_table == carries_table_marker(attrs.take(i as int)),
                views(result.table_columns@) == declared_columns(attrs.take(i as int)),
                views(result.actions@).len() == 0,
            decreases n - i,
        {
            let ghost attr = attrs[i as int];
            let ghost seen = attrs.take(i as int);
            let ghost next = attrs.take(i + 1);
            proof {
                assert(attr == attributes@[i as int]@);
                assert(next.drop_last() =~= seen);
                assert(next.last() == attr);
                assert(carries_table_marker(next) == (carries_table_marker(seen) || is_marker(
                    attr,
                    "table"@,
                ))) by {
                    if carries_table_marker(seen) {
                        let k = choose|k: int| 0 <= k < seen.len() && is_marker(seen[k], "table"@);
                        assert(is_marker(next[k], "table"@));
                    }
                    if is_marker(attr, "table"@) {
                        assert(is_marker(next[i as int], "table"@));
                    }
                    if carries_table_marker(next) {
                        let k = choose|k: int| 0 <= k < next.len() && is_marker(next[k], "table"@);
                        if k < i {
                            assert(is_marker(seen[k], "table"@));
                        }
                    }
                }
            }
            match &attributes[i].meta {
                Some(Meta::List(list)) => {
                    let is_column = match &list.key.ident {
                        Some(name) => name.as_str().eq("column"),
                        None => false,
                    };
                    if is_column {
                        match result.parse_column(list) {
                            Ok(()) => {},
                            Err(e) => {
                                proof {
                                    lemma_first_some_at(attribute_offences(attrs), 0, i as int);
                                }
                                return Err(e);
                            },
                        }
                    }
                },
                Some(Meta::Path(key)) => {
                    let is_table = match &key.ident {
                        Some(name) => name.as_str().eq("table"),
                        None => false,
                    };
                    if is_table {
                        result.is_table = true;
                    }
                },
                Some(Meta::NameValue(_)) => {},
                None => {},
            }
            i = i + 1;
        }
        proof {
            assert(attrs.take(n as int) =~= attrs);
            lemma_first_some_none(attribute_offences(attrs), 0);
            assert(views(result.actions@) =~= Seq::<ActionView>::empty());
        }
        Ok(result)
    }

    /// Reads one `column(...)` group and adds the column it declares.
    pub fn parse_column(&mut self, meta: &MetaList) -> (r: Result<(), MetadataError>)
        ensures
            match r {
                Ok(()) => column_of(meta@) matches Ok(column) && final(self)@ == (
                FieldAttributesView {
                    table_columns: old(self)@.table_columns.push(column),
                    ..old(self)@
                }),
                Err(e) => column_of(meta@) == Err::<TableColumnView, MetadataError>(e)
                    && *final(self) == *old(self),
            },
    {
        let n: usize = meta.nested.len();
        let ghost items = views(meta.nested@);
        let mut field: Option<String> = None;
        let mut header: Option<String> = None;
        let ghost mut field_at: int = 0;
        let ghost mut header_at: int = 0;
        let mut i: usize = 0;
        while i < n
            invariant
                0 <= i <= n,
                n == meta.nested@.len(),
                items == views(meta.nested@),
                *self == *old(self),
                forall|j: int| 0 <= j < i ==> (#[trigger] column_offence(items, j)) is None,
                field matches Some(f) ==> 0 <= field_at < i && is_text_key(
                    items[field_at],
                    "field"@,
                ) && entry_text(items[field_at]) == f@ && forall|j: int|
                    0 <= j < field_at ==> !is_text_key(#[trigger] items[j], "field"@),
                field is None ==> forall|j: int|
                    0 <= j < i ==> !is_text_key(#[trigger] items[j], "field"@),
                header matches Some(h) ==> 0 <= header_at < i && is_text_key(
                    items[header_at],
                    "header"@,
                ) && entry_text(items[header_at]) == h@ && forall|j: int|
                    0 <= j < header_at ==> !is_text_key(#[trigger] items[j], "header"@),
                header is None ==> forall|j: int|
                    0 <= j < i ==> !is_text_key(#[trigger] items[j], "header"@),
            decreases n - i,
        {
            let ghost item = items[i as int];
            assert(item == meta.nested@[i as int]@);
            proof {
                reveal_strlit("field");
                reveal_strlit("header");
                assert("field"@.len() != "header"@.len());
            }
            match &meta.nested[i] {
                Nested::NameValue(nv) => {
                    match (&nv.key.ident, &nv.value.text) {
                        (Some(name), Some(text)) => {
                            if name.as_str().eq("field") {
                                if field.is_some() {
                                    proof {
                                        lemma_first_some_at(column_offences(items), 0, i as int);
                                    }
                                    return Err(
                                        MetadataError {
                                            kind: MetadataErrorKind::DuplicateField,
                                            span: nv.key.span,
                                        },
                                    );
                                }
                                field = Some(text.clone());
                                proof {
                                    field_at = i as int;
                                }
                            } else if name.as_str().eq("header") {
                                if header.is_some() {
                                    proof {
                                        lemma_first_some_at(column_offences(items), 0, i as int);
                                    }
                                    return Err(
                                        MetadataError {
                                            kind: MetadataErrorKind::DuplicateHeader,
                                            span: nv.key.span,
                                        },
                                    );
                                }
                                header = Some(text.clone());
                                proof {
                                    header_at = i as int;
                                }
                            } else {
                                proof {
                                    lemma_first_some_at(column_offences(items), 0, i as int);
                                }
                                return Err(
                                    MetadataError {
                                        kind: MetadataErrorKind::UnknownAttribute,
                                        span: nv.key.span,
                                    },
                                );
                            }
                        },
                        (Some(_), None) => {
                            proof {
                                lemma_first_some_at(column_offences(items), 0, i as int);
                            }
                            return Err(
                                MetadataError {
                                    kind: MetadataErrorKind::UnknownAttribute,
                                    span: nv.key.span,
                                },
                            );
                        },
                        (None, _) => {},
                    }
                },
                Nested::Other => {},
            }
            i = i + 1;
        }
        proof {
            lemma_first_some_none(column_offences(items), 0);
            if field is Some {
                lemma_first_some_at(text_entries(items, "field"@), 0, field_at);
            } else {
                lemma_first_some_none(text_entries(items, "field"@), 0);
            }
            if header is Some {
                lemma_first_some_at(text_entries(items, "header"@), 0, header_at);
            } else {
                lemma_first_some_none(text_entries(items, "header"@), 0);
            }
        }
        match field {
            Some(field) => {
                let column = TableColumn { field, header };
                let ghost before = self.table_columns@;
                self.table_columns.push(column);
                proof {
                    assert(views(self.table_columns@) =~= views(before).push(column@));
                }
                Ok(())
            },
            None => Err(MetadataError { kind: MetadataErrorKind::MissingField, span: meta.span }),
        }
    }
}

/// The text shown before the value of a label: its display label, or the
/// name of the field where it has none.
pub open spec fn label_title(label: LabelFieldView) -> Seq<char> {
    match label.label {
        Some(title) => title,
        None => label.field,
    }
}

/// The markup of a label: its title, and an element bound to the field.
pub open spec fn label_html(label: LabelFieldView) -> Seq<char> {
    label_title(label) + ": <label data-bind=\"text: "@ + label.field + "\"></label>"@
}

/// The text above a column: its header, or the name of the field it shows
/// where it has none.
pub open spec fn column_title(column: TableColumnView) -> Seq<char> {
    match column.header {
        Some(header) => header,
        None => column.field,
    }
}

/// The header cell of a column.
pub open spec fn header_cell(column: TableColumnView) -> Seq<char> {
    "<th>"@ + column_title(column) + "</th>"@
}

/// The cell of a column in the row template, bound to the column's field.
pub open spec fn body_cell(column: TableColumnView) -> Seq<char> {
    "<td data-bind=\"text: "@ + column.field + "\"></td>"@
}

/// The element that offers an action, labelled with the action's name.
pub open spec fn action_link(action: ActionView) -> Seq<char> {
    "<a href='#'>"@ + action.name + "</a>"@
}

/// The header cells of the columns, in the order of the columns.
pub open spec fn header_cells(columns: Seq<TableColumnView>) -> Seq<char> {
    join_map(columns, |column: TableColumnView| header_cell(column))
}

/// The cells of the row template, in the order of the columns.
pub open spec fn body_cells(columns: Seq<TableColumnView>) -> Seq<char> {
    join_map(columns, |column: TableColumnView| body_cell(column))
}

/// The elements that offer the actions, in the order of the actions.
pub open spec fn action_links(actions: Seq<ActionView>) -> Seq<char> {
    join_map(actions, |action: ActionView| action_link(action))
}

/// What stands in the header row: a cell for each column, and an empty cell
/// after them where the table has actions.
pub open spec fn header_row(table: TableFieldView) -> Seq<char> {
    header_cells(table.columns) + if table.actions.len() > 0 {
        "<th></th>"@
    } else {
        Seq::empty()
    }
}

/// What stands in the row template: a cell for each column, and after them,
/// where the table has actions, one cell that offers them all.
pub open spec fn body_row(table: TableFieldView) -> Seq<char> {
    body_cells(table.columns) + if table.actions.len() > 0 {
        "<td>"@ + action_links(table.actions) + "</td>"@
    } else {
        Seq::empty()
    }
}

/// The markup of a table: the header row, and a body that repeats the row
/// template for each item of the field.
pub open spec fn table_html(table: TableFieldView) -> Seq<char> {
    "<table><thead><tr>"@ + header_row(table) + "</tr></thead>"@
        + "<tbody data-bind=\"foreach: "@ + table.field + "\">"@ + "<tr>"@ + body_row(table)
        + "</tr></tbody></table>"@
}

/// The markup of a field.
pub open spec fn field_html(field: FieldView) -> Seq<char> {
    match field {
        FieldView::Label(inner) => label_html(inner),
        FieldView::Table(inner) => table_html(inner),
    }
}

/// The markup of the fields of a model, in the order of the model.
pub open spec fn fields_html(fields: Seq<FieldView>) -> Seq<char> {
    join_map(fields, |field: FieldView| field_html(field))
}

impl LabelField {
    /// Appends the markup of the label to `out`.
    pub fn write_html(&self, out: &mut String)
        ensures
            final(out)@ == old(out)@ + label_html(self@),
    {
        match &self.label {
            Some(title) => out.append(title.as_str()),
            None => out.append(self.field.as_str()),
        }
        out.append(": <label data-bind=\"text: ");
        out.append(self.field.as_str());
        out.append("\"></label>");
        assert(out@ =~= old(out)@ + label_html(self@));
    }

    /// A label needs no script: `out` stays as it is.
    pub fn write_javascript(&self, out: &mut String)
        ensures
            final(out)@ == old(out)@,
    {
    }
}

impl TableField {
    /// Appends the markup of the table to `out`.
    pub fn write_html(&self, out: &mut String)
        ensures
            final(out)@ == old(out)@ + table_html(self@),
    {
        let ghost table = self@;
        let ghost start = out@;
        let columns: usize = self.columns.len();
        let actions: usize = self.actions.len();
        out.append("<table><thead><tr>");
        let ghost opened = out@;
        let mut i: usize = 0;
        while i < columns
            invariant
                0 <= i <= columns,
                columns == self.columns@.len(),
                table == self@,
                out@ == opened + header_cells(table.columns.take(i as int)),
            decreases columns - i,
        {
            let column = &self.columns[i];
            let ghost before = out@;
            out.append("<th>");
            match &column.header {
                Some(header) => out.append(header.as_str()),
                None => out.append(column.field.as_str()),
            }
            out.append("</th>");
            proof {
                assert(table.columns[i as int] == column@);
                assert(table.columns.take(i + 1) =~= table.columns.take(i as int).push(column@));
                lemma_join_map_push(
                    table.columns.take(i as int),
                    column@,
                    |column: TableColumnView| header_cell(column),
                );
                assert(out@ =~= before + header_cell(column@));
                assert(out@ =~= opened + header_cells(table.columns.take(i + 1)));
            }
            i = i + 1;
        }
        assert(table.columns.take(columns as int) =~= table.columns);
        if actions > 0 {
            out.append("<th></th>");
        }
        assert(out@ =~= opened + header_row(table));
        out.append("</tr></thead>");
        out.append("<tbody data-bind=\"foreach: ");
        out.append(self.field.as_str());
        out.append("\">");
        out.append("<tr>");
        let ghost row = out@;
        let mut i: usize = 0;
        while i < columns
            invariant
                0 <= i <= columns,
                columns == self.columns@.len(),
                table == self@,
                out@ == row + body_cells(table.columns.take(i as int)),
            decreases columns - i,
        {
            let column = &self.columns[i];
            let ghost before = out@;
            out.append("<td data-bind=\"text: ");
            out.append(column.field.as_str());
            out.append("\"></td>");
            proof {
                assert(table.columns[i as int] == column@);
                assert(table.columns.take(i + 1) =~= table.columns.take(i as int).push(column@));
                lemma_join_map_push(
                    table.columns.take(i as int),
                    column@,
                    |column: TableColumnView| body_cell(column),
                );
                assert(out@ =~= before + body_cell(column@));
                assert(out@ =~= row + body_cells(table.columns.take(i + 1)));
            }
            i = i + 1;
        }
        let ghost cells = out@;
        if actions > 0 {
            out.append("<td>");
            let ghost cell = out@;
            let mut k: usize = 0;
            while k < actions
                invariant
                    0 <= k <= actions,
                    actions == self.actions@.len(),
                    table == self@,
                    out@ == cell + action_links(table.actions.take(k as int)),
                decreases actions - k,
            {
                let action = &self.actions[k];
                let ghost before = out@;
                out.append("<a href='#'>");
                out.append(action.name.as_str());
                out.append("</a>");
                proof {
                    assert(table.actions[k as int] == action@);
                    assert(table.actions.take(k + 1) =~= table.actions.take(k as int).push(
                        action@,
                    ));
                    lemma_join_map_push(
                        table.actions.take(k as int),
                        action@,
                        |action: ActionView| action_link(action),
                    );
                    assert(out@ =~= before + action_link(action@));
                    assert(out@ =~= cell + action_links(table.actions.take(k + 1)));
                }
                k = k + 1;
            }
            assert(table.actions.take(actions as int) =~= table.actions);
            out.append("</td>");
            assert(out@ =~= cells + ("<td>"@ + action_links(table.actions) + "</td>"@));
        }
        assert(out@ =~= row + body_row(table));
        out.append("</tr></tbody></table>");
        assert(out@ =~= start + table_html(table));
    }

    /// A table needs no script: `out` stays as it is.
    pub fn write_javascript(&self, out: &mut String)
        ensures
            final(out)@ == old(out)@,
    {
    }
}

impl Field {
    /// Appends the markup of the field to `out`.
    pub fn write_html(&self, out: &mut String)
        ensures
            final(out)@ == old(out)@ + field_html(self@),
    {
        match self {
            Field::Label(inner) => inner.write_html(out),
            Field::Table(inner) => inner.write_html(out),
        }
    }

    /// Appends the script of the field to `out`. No field has one: `out`
    /// stays as it is.
    pub fn write_javascript(&self, out: &mut String)
        ensures
            final(out)@ == old(out)@,
    {
        match self {
            Field::Label(inner) => inner.write_javascript(out),
            Field::Table(inner) => inner.write_javascript(out),
        }
    }
}

/// A column declaration that repeats `field` is refused, and for that
/// reason, unless an entry before the repetition offends in another way.
pub proof fn lemma_duplicate_field(list: MetaListView, i: int, j: int)
    requires
        0 <= i < j < list.nested.len(),
        is_text_key(list.nested[i], "field"@),
        is_text_key(list.nested[j], "field"@),
    ensures
        column_of(list) is Err,
        (forall|k: int|
            0 <= k < j ==> match #[trigger] column_offence(list.nested, k) {
                Some(e) => e.kind == MetadataErrorKind::DuplicateField,
                None => true,
            }) ==> column_of(list)->Err_0.kind == MetadataErrorKind::DuplicateField,
        (forall|k: int| 0 <= k < j ==> (#[trigger] column_offence(list.nested, k)) is None)
            ==> column_of(list) == Err::<TableColumnView, MetadataError>(
            MetadataError {
                kind: MetadataErrorKind::DuplicateField,
                span: key_span(list.nested[j]),
            },
        ),
{
    let offences = column_offences(list.nested);
    assert(column_offence(list.nested, j) == Some(
        MetadataError { kind: MetadataErrorKind::DuplicateField, span: key_span(list.nested[j]) },
    ));
    assert(offences[j] is Some);
    lemma_first_some(offences, 0);
    let first = first_some(offences, 0)->0;
    assert(offences[first] == column_offence(list.nested, first));
}

/// A column declaration that repeats `header` is refused, and for that
/// reason, unless an entry before the repetition offends in another way.
pub proof fn lemma_duplicate_header(list: MetaListView, i: int, j: int)
    requires
        0 <= i < j < list.nested.len(),
        is_text_key(list.nested[i], "header"@),
        is_text_key(list.nested[j], "header"@),
    ensures
        column_of(list) is Err,
        (forall|k: int|
            0 <= k < j ==> match #[trigger] column_offence(list.nested, k) {
                Some(e) => e.kind == MetadataErrorKind::DuplicateHeader,
                None => true,
            }) ==> column_of(list)->Err_0.kind == MetadataErrorKind::DuplicateHeader,
        (forall|k: int| 0 <= k < j ==> (#[trigger] column_offence(list.nested, k)) is None)
            ==> column_of(list) == Err::<TableColumnView, MetadataError>(
            MetadataError {
                kind: MetadataErrorKind::DuplicateHeader,
                span: key_span(list.nested[j]),
            },
        ),
{
    reveal_strlit("field");
    reveal_strlit("header");
    assert("field"@.len() != "header"@.len());
    let offences = column_offences(list.nested);
    assert(column_offence(list.nested, j) == Some(
        MetadataError { kind: MetadataErrorKind::DuplicateHeader, span: key_span(list.nested[j]) },
    ));
    assert(offences[j] is Some);
    lemma_first_some(offences, 0);
    let first = first_some(offences, 0)->0;
    assert(offences[first] == column_offence(list.nested, first));
}

/// A column declaration without `field` is refused, and for that reason,
/// unless one of its entries offends.
pub proof fn lemma_missing_field(list: MetaListView)
    requires
        forall|k: int| 0 <= k < list.nested.len() ==> !is_text_key(#[trigger] list.nested[k], "field"@),
    ensures
        column_of(list) is Err,
        first_some(column_offences(list.nested), 0) is None ==> column_of(list) == Err::<
            TableColumnView,
            MetadataError,
        >(MetadataError { kind: MetadataErrorKind::MissingField, span: list.span }),
{
    lemma_first_some_none(text_entries(list.nested, "field"@), 0);
}

/// A field with a name whose column groups are well formed is accepted, as
/// a table where it carries the marker `table` and as a label where it does
/// not.
pub proof fn lemma_field_is_classified(decl: FieldDeclarationView)
    requires
        decl.ident is Some,
        forall|a: int|
            0 <= a < decl.attrs.len() ==> attribute_offence(#[trigger] decl.attrs[a]) is None,
    ensures
        field_of(decl) is Ok,
        field_of(decl)->Ok_0 is Table <==> carries_table_marker(decl.attrs),
        field_of(decl)->Ok_0 is Label <==> !carries_table_marker(decl.attrs),
{
    assert forall|a: int| 0 <= a < decl.attrs.len() implies (#[trigger] attribute_offences(
        decl.attrs,
    )[a]) is None by {
        assert(attribute_offence(decl.attrs[a]) is None);
    }
    lemma_first_some_none(attribute_offences(decl.attrs), 0);
}

/// Every field is classified, by the marker `table` alone: where all
/// fields have names and their column groups are well formed, the model is
/// built, and a field of it is a table exactly where its declaration
/// carries the marker, and a label exactly where it does not. No other
/// metadata of a field bears on it.
pub proof fn lemma_classification(fields: Seq<FieldDeclarationView>, i: int)
    requires
        forall|k: int| 0 <= k < fields.len() ==> (#[trigger] fields[k]).ident is Some,
        forall|k: int, a: int|
            0 <= k < fields.len() && 0 <= a < fields[k].attrs.len() ==> attribute_offence(
                #[trigger] fields[k].attrs[a],
            ) is None,
        0 <= i < fields.len(),
    ensures
        field_model(fields) is Ok,
        field_model(fields)->Ok_0.len() == fields.len(),
        field_model(fields)->Ok_0[i] is Table <==> carries_table_marker(fields[i].attrs),
        field_model(fields)->Ok_0[i] is Label <==> !carries_table_marker(fields[i].attrs),
{
    assert forall|k: int| 0 <= k < fields.len() implies (#[trigger] field_offences(
        fields,
    )[k]) is None by {
        lemma_field_is_classified(fields[k]);
    }
    lemma_first_some_none(field_offences(fields), 0);
    lemma_field_is_classified(fields[i]);
}

/// The model is built exactly where all fields have names and their column
/// groups are well formed.
pub proof fn lemma_model_is_built(fields: Seq<FieldDeclarationView>)
    requires
        field_model(fields) is Ok,
    ensures
        forall|k: int| 0 <= k < fields.len() ==> (#[trigger] fields[k]).ident is Some,
        forall|k: int, a: int|
            0 <= k < fields.len() && 0 <= a < fields[k].attrs.len() ==> attribute_offence(
                #[trigger] fields[k].attrs[a],
            ) is None,
{
    lemma_first_some(field_offences(fields), 0);
    assert forall|k: int| 0 <= k < fields.len() implies (#[trigger] fields[k]).ident is Some by {
        assert(field_offences(fields)[k] is None);
    }
    assert forall|k: int, a: int|
        0 <= k < fields.len() && 0 <= a < fields[k].attrs.len() implies attribute_offence(
        #[trigger] fields[k].attrs[a],
    ) is None by {
        assert(field_offences(fields)[k] is None);
        lemma_first_some(attribute_offences(fields[k].attrs), 0);
        assert(attribute_offences(fields[k].attrs)[a] is None);
    }
}

/// The columns declared by two runs of attributes are those of the first
/// run followed by those of the second: columns stay in the order of their
/// declaration.
pub proof fn lemma_declared_columns_add(a: Seq<AttributeView>, b: Seq<AttributeView>)
    ensures
        declared_columns(a + b) == declared_columns(a) + declared_columns(b),
    decreases b.len(),
{
    if b.len() == 0 {
        assert(a + b =~= a);
        assert(declared_columns(a) + declared_columns(b) =~= declared_columns(a));
    } else {
        lemma_declared_columns_add(a, b.drop_last());
        assert((a + b).drop_last() =~= a + b.drop_last());
        assert((a + b).last() == b.last());
        match attribute_column(b.last()) {
            Some(column) => {
                assert(declared_columns(a) + declared_columns(b.drop_last()).push(column)
                    =~= (declared_columns(a) + declared_columns(b.drop_last())).push(column));
            },
            None => {},
        }
    }
}

/// The cells of a table follow the order of its columns, in the header row
/// and in the row template alike: the cell of a column stands after the
/// cells of all columns before it and before the cells of all columns after
/// it.
pub proof fn lemma_emission_order(columns: Seq<TableColumnView>, i: int)
    requires
        0 <= i < columns.len(),
    ensures
        header_cells(columns) == header_cells(columns.take(i)) + header_cell(columns[i])
            + header_cells(columns.skip(i + 1)),
        body_cells(columns) == body_cells(columns.take(i)) + body_cell(columns[i]) + body_cells(
            columns.skip(i + 1),
        ),
{
    let before = columns.take(i);
    let after = columns.skip(i + 1);
    assert(columns =~= before.push(columns[i]) + after);
    let header = |column: TableColumnView| header_cell(column);
    lemma_join_map_add(before.push(columns[i]), after, header);
    lemma_join_map_push(before, columns[i], header);
    let body = |column: TableColumnView| body_cell(column);
    lemma_join_map_add(before.push(columns[i]), after, body);
    lemma_join_map_push(before, columns[i], body);
}

} // verus!
